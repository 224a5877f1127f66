//! Files to write: which of them would change anything, and the order in which they are shown.

use vstd::prelude::*;
use vstd::seq_lib::{to_multiset_build, to_multiset_insert};

use crate::icons::{icon_for_extension, icon_of};
use crate::paths::{
    components_of, extension, extension_of, path_before, path_less, path_less_irreflexive,
    path_less_total, path_less_transitive,
};
use crate::text::same_bytes;

verus! {

/// A file to write and to stage.
#[derive(Debug)]
pub struct Job {
    pub path: String,
    /// What the file holds now; none if it does not exist or cannot be read.
    pub old_content: Option<Vec<u8>>,
    pub new_content: Vec<u8>,
    /// Whether the file is to be made executable.
    pub executable: bool,
}

impl Job {
    /// Whether writing the file would leave it as it is, given whether it is executable now.
    pub open spec fn noop(self, current_executable: bool) -> bool {
        match self.old_content {
            Some(old) => self.new_content@ == old@ && current_executable == self.executable,
            None => self.new_content@.len() == 0 && !self.executable,
        }
    }

    /// Whether writing the file would leave it as it is. `current_executable` says whether it is
    /// executable now, and is false for a file that does not exist.
    pub fn is_noop(&self, current_executable: bool) -> (r: bool)
        ensures
            r == self.noop(current_executable),
    {
        match &self.old_content {
            Some(old) => {
                if !same_bytes(self.new_content.as_slice(), old.as_slice()) {
                    return false;
                }
                current_executable == self.executable
            },
            None => self.new_content.is_empty() && !self.executable,
        }
    }

    /// The icon that stands for the kind of the file.
    pub fn icon(&self) -> (r: &'static str)
        ensures
            r@ == icon_of(
                match extension_of(self.path@) {
                    Some(ext) => ext,
                    None => ""@,
                },
            ),
    {
        match extension(self.path.as_str()) {
            Some(ext) => icon_for_extension(ext.as_str()),
            None => icon_for_extension(""),
        }
    }
}

/// Whether a file mode lets anyone execute the file.
pub fn is_executable_mode(mode: u32) -> (r: bool)
    ensures
        r == (mode & 0o111 != 0),
{
    mode & 0o111 != 0
}

/// The file mode that lets everyone execute the file and is otherwise the same.
pub fn executable_mode(mode: u32) -> (r: u32)
    ensures
        r == mode | 0o111,
        r & 0o111 == 0o111,
        r & !0o111u32 == mode & !0o111u32,
{
    assert((mode | 0o111) & 0o111 == 0o111) by (bit_vector);
    assert((mode | 0o111) & !0o111u32 == mode & !0o111u32) by (bit_vector);
    mode | 0o111
}

/// Once a file holds what its job writes, and is executable as the job has it, the job has
/// nothing left to do.
pub proof fn written_job_is_noop(job: Job, written: Job)
    requires
        written.old_content matches Some(old) && old@ == job.new_content@,
        written.new_content@ == job.new_content@,
        written.executable == job.executable,
    ensures
        written.noop(job.executable),
{
}

/// The jobs that `keep` keeps, in their order.
pub open spec fn kept(jobs: Seq<Job>, keep: spec_fn(int) -> bool) -> Seq<Job>
    decreases jobs.len(),
{
    if jobs.len() == 0 {
        seq![]
    } else {
        let rest = kept(jobs.drop_last(), keep);
        if keep(jobs.len() - 1) {
            rest.push(jobs.last())
        } else {
            rest
        }
    }
}

/// The jobs that would change their file. `current_executable` says of each job whether its file
/// is executable now.
pub fn pending_jobs(jobs: Vec<Job>, current_executable: &Vec<bool>) -> (r: Vec<Job>)
    requires
        jobs.len() == current_executable.len(),
    ensures
        r@ == kept(jobs@, |i: int| !jobs@[i].noop(current_executable@[i])),
{
    let ghost keep = |i: int| !jobs@[i].noop(current_executable@[i]);
    let ghost all = jobs@;
    let mut r: Vec<Job> = Vec::new();
    let mut i: usize = 0;
    for job in it: jobs
        invariant
            it.seq() == all,
            i == it.index(),
            all.len() == current_executable.len(),
            keep == (|i: int| !all[i].noop(current_executable@[i])),
            r@ == kept(all.take(i as int), keep),
    {
        assert(all.take(i + 1).drop_last() =~= all.take(i as int));
        assert(all.take(i + 1).last() == job);
        if !job.is_noop(current_executable[i]) {
            r.push(job);
        }
        i += 1;
    }
    assert(all.take(all.len() as int) =~= all);
    r
}

/// The jobs whose file is not ignored. `ignored` says of each job whether its file is.
pub fn unignored_jobs(jobs: Vec<Job>, ignored: &Vec<bool>) -> (r: Vec<Job>)
    requires
        jobs.len() == ignored.len(),
    ensures
        r@ == kept(jobs@, |i: int| !ignored@[i]),
{
    let ghost keep = |i: int| !ignored@[i];
    let ghost all = jobs@;
    let mut r: Vec<Job> = Vec::new();
    let mut i: usize = 0;
    for job in it: jobs
        invariant
            it.seq() == all,
            i == it.index(),
            all.len() == ignored.len(),
            keep == (|i: int| !ignored@[i]),
            r@ == kept(all.take(i as int), keep),
    {
        assert(all.take(i + 1).drop_last() =~= all.take(i as int));
        assert(all.take(i + 1).last() == job);
        if !ignored[i] {
            r.push(job);
        }
        i += 1;
    }
    assert(all.take(all.len() as int) =~= all);
    r
}

/// No job stands before one whose path it should follow.
pub open spec fn sorted_by_path(jobs: Seq<Job>) -> bool {
    forall|i: int, j: int|
        0 <= i < j < jobs.len() ==> !path_less((#[trigger] jobs[j]).path@, (#[trigger] jobs[i]).path@)
}

/// The jobs whose path has the components of `path`, in their order.
pub open spec fn jobs_at(jobs: Seq<Job>, path: Seq<char>) -> Seq<Job> {
    jobs.filter(|job: Job| components_of(job.path@) == components_of(path))
}

/// Sorts the jobs by path; jobs for the same path keep their order.
pub fn sort_jobs(jobs: &mut Vec<Job>)
    ensures
        sorted_by_path(final(jobs)@),
        forall|path: Seq<char>| #[trigger] jobs_at(final(jobs)@, path) == jobs_at(old(jobs)@, path),
        final(jobs)@.to_multiset() == old(jobs)@.to_multiset(),
{
    let ghost all = jobs@;
    let mut sorted: Vec<Job> = Vec::new();
    let mut rest: Vec<Job> = Vec::new();
    rest.append(jobs);
    assert(rest@ =~= all);
    let ghost mut n: int = 0;
    assert(sorted@ =~= all.take(0));
    for job in it: rest
        invariant
            it.seq() == all,
            n == it.index(),
            sorted_by_path(sorted@),
            forall|path: Seq<char>| #[trigger]
                jobs_at(sorted@, path) == jobs_at(all.take(n), path),
            sorted@.to_multiset() == all.take(n).to_multiset(),
    {
        let ghost before = sorted@;
        let ghost job_ghost = job;
        assert(all.take(n + 1) =~= all.take(n).push(job));
        let mut i: usize = sorted.len();
        while i > 0 && path_before(job.path.as_str(), sorted[i - 1].path.as_str())
            invariant
                i <= sorted.len(),
                sorted@ == before,
                job == job_ghost,
                forall|j: int| i <= j < before.len() ==> path_less(job.path@, (#[trigger] before[j]).path@),
            decreases i,
        {
            i -= 1;
        }
        sorted.insert(i, job);
        proof {
            insert_keeps_order(before, i as int, job_ghost);
            to_multiset_insert(before, i as int, job_ghost);
            to_multiset_build(all.take(n), job_ghost);
            assert forall|path: Seq<char>| #[trigger]
                jobs_at(sorted@, path) == jobs_at(all.take(n + 1), path) by {
                insert_keeps_jobs(before, i as int, job_ghost, path);
                push_filters(before, job_ghost, path);
                push_filters(all.take(n), job_ghost, path);
                assert(jobs_at(before, path) == jobs_at(all.take(n), path));
            }
            n = n + 1;
        }
    }
    assert(all.take(all.len() as int) =~= all);
    jobs.append(&mut sorted);
}

proof fn insert_keeps_order(jobs: Seq<Job>, at: int, job: Job)
    requires
        0 <= at <= jobs.len(),
        sorted_by_path(jobs),
        at > 0 ==> !path_less(job.path@, jobs[at - 1].path@),
        forall|j: int| at <= j < jobs.len() ==> path_less(job.path@, (#[trigger] jobs[j]).path@),
    ensures
        sorted_by_path(jobs.insert(at, job)),
{
    let after = jobs.insert(at, job);
    assert forall|i: int, j: int| 0 <= i < j < after.len() implies !path_less(
        (#[trigger] after[j]).path@,
        (#[trigger] after[i]).path@,
    ) by {
        if j == at {
            // Were `job` before an earlier one, it would be before the one just before it too.
            let a = jobs[at - 1].path@;
            if path_less(job.path@, jobs[i].path@) {
                assert(!path_less(a, jobs[i].path@)) by {
                    if i == at - 1 {
                        path_less_irreflexive(a);
                    }
                }
                path_less_total(jobs[i].path@, a);
                if path_less(jobs[i].path@, a) {
                    path_less_transitive(job.path@, jobs[i].path@, a);
                } else {
                    assert(components_of(jobs[i].path@) == components_of(a));
                }
            }
        } else if i == at {
            let b = jobs[j - 1].path@;
            if path_less(b, job.path@) {
                path_less_transitive(job.path@, b, job.path@);
                path_less_irreflexive(job.path@);
            }
        } else {
            let k = if i < at { i } else { i - 1 };
            let l = if j < at { j } else { j - 1 };
            assert(after[i] == jobs[k] && after[j] == jobs[l]);
        }
    }
}

proof fn push_filters(jobs: Seq<Job>, job: Job, path: Seq<char>)
    ensures
        jobs_at(jobs.push(job), path) == if components_of(job.path@) == components_of(path) {
            jobs_at(jobs, path).push(job)
        } else {
            jobs_at(jobs, path)
        },
{
    reveal_with_fuel(Seq::filter, 2);
    assert(jobs.push(job).drop_last() =~= jobs);
}

proof fn insert_keeps_jobs(jobs: Seq<Job>, at: int, job: Job, path: Seq<char>)
    requires
        0 <= at <= jobs.len(),
        forall|j: int| at <= j < jobs.len() ==> path_less(job.path@, (#[trigger] jobs[j]).path@),
    ensures
        jobs_at(jobs.insert(at, job), path) == jobs_at(jobs.push(job), path),
    decreases jobs.len(),
{
    let after = jobs.insert(at, job);
    push_filters(jobs, job, path);
    if at == jobs.len() {
        assert(after =~= jobs.push(job));
    } else {
        let last = jobs.last();
        let front = jobs.drop_last();
        assert(after =~= front.insert(at, job).push(last));
        assert(jobs =~= front.push(last));
        insert_keeps_jobs(front, at, job, path);
        push_filters(front.insert(at, job), last, path);
        push_filters(front, last, path);
        push_filters(front, job, path);
        assert(path_less(job.path@, jobs[jobs.len() - 1].path@));
        if components_of(job.path@) == components_of(last.path@) {
            path_less_irreflexive(job.path@);
        }
    }
}

/// The jobs that are kept are those picked, and none of them is left out.
pub proof fn kept_jobs_are_those_picked(jobs: Seq<Job>, keep: spec_fn(int) -> bool, job: Job)
    ensures
        kept(jobs, keep).contains(job) <==> exists|i: int|
            0 <= i < jobs.len() && #[trigger] jobs[i] == job && keep(i),
        kept(jobs, keep).len() <= jobs.len(),
    decreases jobs.len(),
{
    if jobs.len() > 0 {
        let last = jobs.len() - 1;
        let front = jobs.drop_last();
        let rest = kept(front, keep);
        kept_jobs_are_those_picked(front, keep, job);
        if exists|i: int| 0 <= i < jobs.len() && #[trigger] jobs[i] == job && keep(i) {
            let i = choose|i: int| 0 <= i < jobs.len() && #[trigger] jobs[i] == job && keep(i);
            if i < last {
                assert(front[i] == job);
                let k = choose|k: int| 0 <= k < rest.len() && rest[k] == job;
                assert(kept(jobs, keep)[k] == job);
            } else {
                assert(kept(jobs, keep)[rest.len() as int] == job);
            }
        }
        if kept(jobs, keep).contains(job) {
            let k = choose|k: int| 0 <= k < kept(jobs, keep).len() && kept(jobs, keep)[k] == job;
            if k < rest.len() {
                assert(rest[k] == job);
                let i = choose|i: int|
                    0 <= i < front.len() && #[trigger] front[i] == job && keep(i);
                assert(jobs[i] == job);
            } else {
                assert(jobs[last] == job);
            }
        }
    }
}

/// A job has nothing to do exactly if its file holds the same bytes and is executable alike, or if
/// there is no file and the job would write an empty one that is not executable.
pub proof fn nothing_to_do_means_same_file(job: Job, current_executable: bool)
    ensures
        job.old_content matches Some(old) ==> (job.noop(current_executable) <==> old@
            == job.new_content@ && current_executable == job.executable),
        job.old_content is None ==> (job.noop(current_executable) <==> job.new_content@.len() == 0
            && !job.executable),
{
}

/// The kept jobs of two lists are those of the first and then those of the second, and a job by
/// itself is kept exactly if it is picked.
pub proof fn jobs_are_looked_at_one_by_one(
    a: Seq<Job>,
    b: Seq<Job>,
    job: Job,
    keep: spec_fn(int) -> bool,
)
    ensures
        kept(a + b, keep) == kept(a, keep) + kept(b, |i: int| keep(a.len() + i)),
        keep(0) ==> kept(seq![job], keep) == seq![job],
        !keep(0) ==> kept(seq![job], keep).len() == 0,
    decreases b.len(),
{
    let later = |i: int| keep(a.len() + i);
    let one = seq![job];
    assert(one.drop_last() =~= seq![]);
    assert(kept(one.drop_last(), keep) =~= seq![]);
    assert(kept(one, keep) =~= if keep(0) {
        seq![job]
    } else {
        seq![]
    });
    if b.len() == 0 {
        assert(a + b =~= a);
        assert(kept(a, keep) + kept(b, later) =~= kept(a, keep));
    } else {
        assert((a + b).drop_last() =~= a + b.drop_last());
        jobs_are_looked_at_one_by_one(a, b.drop_last(), job, keep);
        assert(keep((a + b).len() - 1) == later(b.len() - 1));
        assert(kept(a + b, keep) =~= kept(a, keep) + kept(b, later));
    }
}

/// In a sorted list no job stands after one whose path follows its own.
pub proof fn sorted_jobs_stand_by_path(jobs: Seq<Job>, i: int, j: int)
    requires
        sorted_by_path(jobs),
        0 <= i < j < jobs.len(),
    ensures
        !path_less(jobs[j].path@, jobs[i].path@),
{
}

/// The jobs for a path are those of two lists one after the other, and a job is one of them exactly
/// if its path has the same components.
pub proof fn jobs_for_path_keep_their_order(a: Seq<Job>, b: Seq<Job>, job: Job, path: Seq<char>)
    ensures
        jobs_at(a + b, path) == jobs_at(a, path) + jobs_at(b, path),
        components_of(job.path@) == components_of(path) ==> jobs_at(seq![job], path) == seq![job],
        components_of(job.path@) != components_of(path) ==> jobs_at(seq![job], path).len() == 0,
{
    let pick = |job: Job| components_of(job.path@) == components_of(path);
    Seq::filter_distributes_over_add(a, b, pick);
    reveal(Seq::filter);
    let one = seq![job];
    assert(one.drop_last() =~= seq![]);
    assert(one.drop_last().filter(pick) =~= seq![]);
    assert(jobs_at(one, path) =~= if pick(job) {
        seq![job]
    } else {
        seq![]
    });
}

}
