use captain::command::CommandOutput;
use captain::icons::icon_for_extension;
use captain::job::{
    executable_mode, is_executable_mode, pending_jobs, sort_jobs, unignored_jobs, Job,
};
use captain::pre_commit::{
    cargo_lock_job, is_rust_file, lock_is_changed, rust_files, rustfmt_command, rustfmt_job,
    summary_line,
};
use captain::size::{decimal, format_size, total_size};
use captain::staged::{collect_staged_files, skip_arrow, staged_files_in, StagedFiles};
use captain::stream::ColorSupport;

#[test]
fn it_works() {
    // well, it does work!
}

const PLAIN: ColorSupport = ColorSupport { stdout: false, stderr: false };

fn job(path: &str, old: Option<&str>, new: &str, executable: bool) -> Job {
    Job {
        path: path.to_string(),
        old_content: old.map(|text| text.as_bytes().to_vec()),
        new_content: new.as_bytes().to_vec(),
        executable,
    }
}

#[test]
fn job_that_changes_nothing() {
    assert!(job("a", Some("x"), "x", false).is_noop(false));
    assert!(!job("a", Some("x"), "x", false).is_noop(true));
    assert!(!job("a", Some("x"), "x", true).is_noop(false));
    assert!(job("a", Some("x"), "x", true).is_noop(true));
    assert!(!job("a", Some("x"), "y", false).is_noop(false));
    assert!(job("a", None, "", false).is_noop(false));
    assert!(!job("a", None, "", true).is_noop(false));
    assert!(!job("a", None, "y", false).is_noop(false));
}

#[test]
fn written_job_is_done() {
    let first = job("a", Some("x"), "y", false);
    assert!(!first.is_noop(false));
    let again = Job {
        path: first.path.clone(),
        old_content: Some(first.new_content.clone()),
        new_content: first.new_content.clone(),
        executable: first.executable,
    };
    assert!(again.is_noop(false));
}

#[test]
fn modes() {
    assert!(!is_executable_mode(0o644));
    assert!(is_executable_mode(0o100));
    assert!(is_executable_mode(0o001));
    assert_eq!(executable_mode(0o644), 0o755);
    assert_eq!(executable_mode(0o100600), 0o100711);
}

#[test]
fn jobs_are_picked_and_sorted() {
    let jobs = vec![
        job("b/x", Some("1"), "2", false),
        job("a", Some("1"), "1", false),
        job("b-", None, "3", false),
        job("a", Some("1"), "4", false),
        job("b/x", Some("1"), "5", false),
    ];
    let jobs = pending_jobs(jobs, &vec![false; 5]);
    assert_eq!(jobs.len(), 4);
    let mut jobs = unignored_jobs(jobs, &vec![false, false, false, false]);
    sort_jobs(&mut jobs);
    let order: Vec<(String, Vec<u8>)> =
        jobs.iter().map(|j| (j.path.clone(), j.new_content.clone())).collect();
    assert_eq!(
        order,
        [
            ("a".to_string(), b"4".to_vec()),
            ("b".to_string() + "/x", b"2".to_vec()),
            ("b".to_string() + "/x", b"5".to_vec()),
            ("b-".to_string(), b"3".to_vec()),
        ]
    );
    let jobs = unignored_jobs(jobs, &vec![true, false, true, false]);
    assert_eq!(jobs.len(), 2);
    assert_eq!(jobs[0].new_content, b"2");
    assert_eq!(jobs[1].new_content, b"3");
}

#[test]
fn icons() {
    assert_eq!(icon_for_extension("rs"), "\u{e7a8}");
    assert_eq!(icon_for_extension("tsx"), "\u{e7ba}");
    assert_eq!(icon_for_extension("hpp"), "\u{e61d}");
    assert_eq!(icon_for_extension("toml"), "\u{e6b2}");
    assert_eq!(icon_for_extension("webp"), "\u{f03e}");
    assert_eq!(icon_for_extension("gitmodules"), "\u{e702}");
    assert_eq!(icon_for_extension("RS"), "\u{f15b}");
    assert_eq!(icon_for_extension(""), "\u{f15b}");
    assert_eq!(job("x/README.md", None, "", false).icon(), "\u{e73e}");
    assert_eq!(job(".gitignore", None, "", false).icon(), "\u{f15b}");
}

#[test]
fn summary_of_a_job() {
    assert_eq!(
        summary_line(&job("/w/src/a.rs", None, "", false)),
        "  \x1b[36m\u{e7a8}\x1b[39m /w/src/a.rs"
    );
}

fn expected_size(bytes: u64) -> String {
    let (kb, mb, gb) = (1024u64, 1024u64 * 1024, 1024u64 * 1024 * 1024);
    if bytes >= gb {
        format!("{:.1} GB", bytes as f64 / gb as f64)
    } else if bytes >= mb {
        format!("{:.1} MB", bytes as f64 / mb as f64)
    } else if bytes >= kb {
        format!("{:.1} KB", bytes as f64 / kb as f64)
    } else {
        format!("{} B", bytes)
    }
}

#[test]
fn sizes_for_people_to_read() {
    assert_eq!(format_size(0), "0 B");
    assert_eq!(format_size(1023), "1023 B");
    assert_eq!(format_size(1024), "1.0 KB");
    assert_eq!(format_size(1536), "1.5 KB");
    assert_eq!(format_size(1048575), "1024.0 KB");
    assert_eq!(format_size(1048576), "1.0 MB");
    assert_eq!(format_size(1073741824), "1.0 GB");
    assert_eq!(format_size(u64::MAX), "17179869184.0 GB");
    let mut n: u64 = 1;
    let mut seed: u64 = 88172645463325252;
    for _ in 0..20000 {
        seed ^= seed << 13;
        seed ^= seed >> 7;
        seed ^= seed << 17;
        n = n.wrapping_add(seed >> (seed % 64));
        assert_eq!(format_size(n), expected_size(n), "{n}");
        let small = seed % 4_000_000;
        assert_eq!(format_size(small), expected_size(small), "{small}");
    }
    for tie in [1024 + 51, 1024 + 52, 1280, 1152, 1088, 1312, 1408, 102 * 1024 + 512, 1048576 + 52429] {
        assert_eq!(format_size(tie), expected_size(tie), "{tie}");
    }
    for shift in 0..64u32 {
        for d in [-3i64, -2, -1, 0, 1, 2, 3] {
            let n = (1u64 << shift).wrapping_add(d as u64);
            assert_eq!(format_size(n), expected_size(n), "{n}");
        }
    }
}

#[test]
fn numbers_and_sums() {
    assert_eq!(decimal(0), "0");
    assert_eq!(decimal(90210), "90210");
    assert_eq!(decimal(u64::MAX), u64::MAX.to_string());
    assert_eq!(total_size(&vec![]), Some(0));
    assert_eq!(total_size(&vec![Some(3), None, Some(4)]), Some(7));
    assert_eq!(total_size(&vec![Some(u64::MAX), Some(0)]), Some(u64::MAX));
    assert_eq!(total_size(&vec![Some(u64::MAX), Some(1), None]), None);
}

#[test]
fn staged_files_of_a_status() {
    let status = "M  src/main.rs\nA  foo.rs\nAM foo/bar.rs\n M x.rs\n?? new.rs\nR  a.rs -> b.rs\n\nX\nD  /abs.rs\n";
    let staged = collect_staged_files(status, "/w");
    assert_eq!(
        staged.clean,
        ["/w/src/main.rs", "/w/foo.rs", "/w/b.rs", "/abs.rs"]
    );
    assert!(staged.contains("/w/src/./main.rs"));
    assert!(!staged.contains("/w/x.rs"));
    assert!(!staged.contains("src/main.rs"));
}

#[test]
fn moved_files_are_staged_under_their_new_path() {
    let staged = collect_staged_files("R  old.rs -> new.rs\nC  a -> /b\n", "/w");
    assert_eq!(staged.clean, ["/w/new.rs", "/b"]);
    let staged = collect_staged_files("RM a -> b\nM  x -> y\nR  plain\n", "/w");
    assert_eq!(staged.clean, ["/w/x -> y", "/w/plain"]);
    assert_eq!(skip_arrow("a -> b -> c"), "b -> c");
    assert_eq!(skip_arrow("a->b"), "a->b");
    assert_eq!(skip_arrow(" -> "), "");
}

#[test]
fn staged_files_of_raw_output() {
    let staged = staged_files_in("M  caf\u{e9}.rs\n".as_bytes(), "/w").unwrap();
    assert_eq!(staged.clean, ["/w/caf\u{e9}.rs"]);
    let staged = staged_files_in(b"M  a\xff.rs\n", "/w").unwrap();
    assert_eq!(staged.clean, ["/w/a\u{fffd}.rs"]);
    assert!(staged_files_in("\u{20ac}\n".as_bytes(), "/w").is_none());
    assert!(staged_files_in("M \u{e9}x\n".as_bytes(), "/w").is_none());
    assert_eq!(staged_files_in(b"", "/w").unwrap().clean.len(), 0);
}

#[test]
fn rust_files_are_formatted() {
    let staged = StagedFiles {
        clean: ["/w/a.rs", "/w/b.txt", "/w/.rs", "/w/rs", "/w/c.d.rs"].map(String::from).to_vec(),
    };
    assert_eq!(rust_files(&staged), ["/w/a.rs", "/w/c.d.rs"]);
    assert!(is_rust_file("x.rs"));
    assert!(!is_rust_file("x.RS"));
    assert_eq!(rustfmt_command(), ["rustfmt", "--edition", "2024", "--emit", "stdout"]);
}

#[test]
fn formatting_a_file() {
    let output = CommandOutput {
        code: Some(0),
        stdout: b"fn main() {}\n".to_vec(),
        stderr: Vec::new(),
    };
    let job = rustfmt_job("/w/a.rs", b"fn main(){}".to_vec(), output, PLAIN).ok().unwrap();
    assert_eq!(job.path, "/w/a.rs");
    assert_eq!(job.old_content, Some(b"fn main(){}".to_vec()));
    assert_eq!(job.new_content, b"fn main() {}\n");
    assert!(!job.executable);
    for code in [Some(1), None] {
        let output = CommandOutput {
            code,
            stdout: b"out".to_vec(),
            stderr: b"\x1b[31merror\x1b[0m".to_vec(),
        };
        let text = rustfmt_job("/w/a.rs", Vec::new(), output, PLAIN).err().unwrap();
        assert_eq!(
            text,
            "\x1b[31m\u{274c}\x1b[39m \x1b[34m/w/a.rs\x1b[39m: rustfmt failed\n\x1b[2merror\x1b[0m\n\x1b[2mout\x1b[0m"
        );
    }
}

#[test]
fn lock_file_is_staged_along() {
    assert!(lock_is_changed(b" M Cargo.lock\n"));
    assert!(lock_is_changed(b"MM Cargo.lock\n"));
    assert!(lock_is_changed(b"AM Cargo.lock\n"));
    assert!(!lock_is_changed(b"M  Cargo.lock\n"));
    assert!(!lock_is_changed(b"?? Cargo.lock\n"));
    assert!(!lock_is_changed(b"M"));
    assert!(!lock_is_changed(b""));
    let job =
        cargo_lock_job(b" M Cargo.lock\n", Some(b"new".to_vec()), Some(b"old".to_vec())).unwrap();
    assert_eq!(job.path, "Cargo.lock");
    assert_eq!(job.old_content, Some(b"old".to_vec()));
    assert_eq!(job.new_content, b"new");
    assert!(cargo_lock_job(b"MM Cargo.lock\n", Some(b"new".to_vec()), None).is_some());
    assert!(cargo_lock_job(b" M Cargo.lock\n", None, Some(b"old".to_vec())).is_none());
    assert!(cargo_lock_job(b"M  Cargo.lock\n", Some(b"new".to_vec()), None).is_none());
}
