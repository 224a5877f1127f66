//! Nerd Font icons for kinds of files.

use vstd::prelude::*;

use crate::text::same;

verus! {

/// The icon of the files with an extension; a generic one for those of no known kind.
pub open spec fn icon_of(ext: Seq<char>) -> Seq<char> {
    if ext == "rs"@ {
        // Rust
        "\u{e7a8}"@
    } else if ext == "js"@ {
        // JavaScript
        "\u{e74e}"@
    } else if ext == "ts"@ {
        // TypeScript
        "\u{e628}"@
    } else if ext == "jsx"@ || ext == "tsx"@ {
        // React
        "\u{e7ba}"@
    } else if ext == "py"@ {
        // Python
        "\u{e73c}"@
    } else if ext == "rb"@ {
        // Ruby
        "\u{e791}"@
    } else if ext == "go"@ {
        // Go
        "\u{e626}"@
    } else if ext == "java"@ {
        // Java
        "\u{e738}"@
    } else if ext == "c"@ || ext == "h"@ {
        // C
        "\u{e61e}"@
    } else if ext == "cpp"@ || ext == "cc"@ || ext == "cxx"@ || ext == "hpp"@ {
        // C++
        "\u{e61d}"@
    } else if ext == "cs"@ {
        // C#
        "\u{f031b}"@
    } else if ext == "swift"@ {
        // Swift
        "\u{e755}"@
    } else if ext == "kt"@ || ext == "kts"@ {
        // Kotlin
        "\u{e634}"@
    } else if ext == "php"@ {
        // PHP
        "\u{e73d}"@
    } else if ext == "lua"@ {
        // Lua
        "\u{e620}"@
    } else if ext == "zig"@ {
        // Zig
        "\u{e6a9}"@
    } else if ext == "hs"@ {
        // Haskell
        "\u{e777}"@
    } else if ext == "ex"@ || ext == "exs"@ {
        // Elixir
        "\u{e62d}"@
    } else if ext == "erl"@ {
        // Erlang
        "\u{e7b1}"@
    } else if ext == "scala"@ {
        // Scala
        "\u{e737}"@
    } else if ext == "clj"@ || ext == "cljs"@ {
        // Clojure
        "\u{e768}"@
    } else if ext == "r"@ {
        // R
        "\u{f07d4}"@
    } else if ext == "jl"@ {
        // Julia
        "\u{e624}"@
    } else if ext == "pl"@ || ext == "pm"@ {
        // Perl
        "\u{e769}"@
    } else if ext == "sh"@ || ext == "bash"@ || ext == "zsh"@ {
        // Shell
        "\u{e795}"@
    } else if ext == "fish"@ {
        // Fish
        "\u{f489}"@
    } else if ext == "ps1"@ {
        // PowerShell
        "\u{e70f}"@
    } else if ext == "vim"@ {
        // Vim
        "\u{e62b}"@
    } else if ext == "el"@ {
        // Emacs Lisp
        "\u{e779}"@
    } else if ext == "html"@ || ext == "htm"@ {
        // HTML
        "\u{e736}"@
    } else if ext == "css"@ {
        // CSS
        "\u{e749}"@
    } else if ext == "scss"@ || ext == "sass"@ {
        // Sass
        "\u{e74b}"@
    } else if ext == "less"@ {
        // Less
        "\u{e758}"@
    } else if ext == "vue"@ {
        // Vue
        "\u{e6a0}"@
    } else if ext == "svelte"@ {
        // Svelte
        "\u{e697}"@
    } else if ext == "astro"@ {
        // Astro
        "\u{e6b3}"@
    } else if ext == "wasm"@ {
        // WebAssembly
        "\u{e6a1}"@
    } else if ext == "json"@ {
        // JSON
        "\u{e60b}"@
    } else if ext == "yaml"@ || ext == "yml"@ {
        // YAML
        "\u{e6a8}"@
    } else if ext == "toml"@ {
        // TOML
        "\u{e6b2}"@
    } else if ext == "xml"@ {
        // XML
        "\u{f05c0}"@
    } else if ext == "csv"@ {
        // CSV
        "\u{f0219}"@
    } else if ext == "sql"@ {
        // SQL
        "\u{e706}"@
    } else if ext == "graphql"@ || ext == "gql"@ {
        // GraphQL
        "\u{e662}"@
    } else if ext == "proto"@ {
        // Protobuf
        "\u{e6a5}"@
    } else if ext == "md"@ || ext == "markdown"@ {
        // Markdown
        "\u{e73e}"@
    } else if ext == "txt"@ {
        // Text
        "\u{f0219}"@
    } else if ext == "pdf"@ {
        // PDF
        "\u{f0226}"@
    } else if ext == "doc"@ || ext == "docx"@ {
        // Word
        "\u{f0219}"@
    } else if ext == "rst"@ {
        // reStructuredText
        "\u{f0219}"@
    } else if ext == "lock"@ {
        // Lock file
        "\u{f023}"@
    } else if ext == "dockerfile"@ {
        // Docker
        "\u{e7b0}"@
    } else if ext == "nix"@ {
        // Nix
        "\u{f313}"@
    } else if ext == "cmake"@ {
        // CMake
        "\u{e615}"@
    } else if ext == "png"@ || ext == "jpg"@ || ext == "jpeg"@ || ext == "gif"@ || ext == "bmp"@ || ext == "ico"@ || ext == "webp"@ {
        // Image
        "\u{f03e}"@
    } else if ext == "svg"@ {
        // SVG
        "\u{f0721}"@
    } else if ext == "gitignore"@ || ext == "gitattributes"@ || ext == "gitmodules"@ {
        // Git
        "\u{e702}"@
    } else {
        "\u{f15b}"@
    }
}

/// The icon of the files with an extension.
pub fn icon_for_extension(ext: &str) -> (r: &'static str)
    ensures
        r@ == icon_of(ext@),
{
    if same(ext, "rs") {
        // Rust
        "\u{e7a8}"
    } else if same(ext, "js") {
        // JavaScript
        "\u{e74e}"
    } else if same(ext, "ts") {
        // TypeScript
        "\u{e628}"
    } else if same(ext, "jsx") || same(ext, "tsx") {
        // React
        "\u{e7ba}"
    } else if same(ext, "py") {
        // Python
        "\u{e73c}"
    } else if same(ext, "rb") {
        // Ruby
        "\u{e791}"
    } else if same(ext, "go") {
        // Go
        "\u{e626}"
    } else if same(ext, "java") {
        // Java
        "\u{e738}"
    } else if same(ext, "c") || same(ext, "h") {
        // C
        "\u{e61e}"
    } else if same(ext, "cpp") || same(ext, "cc") || same(ext, "cxx") || same(ext, "hpp") {
        // C++
        "\u{e61d}"
    } else if same(ext, "cs") {
        // C#
        "\u{f031b}"
    } else if same(ext, "swift") {
        // Swift
        "\u{e755}"
    } else if same(ext, "kt") || same(ext, "kts") {
        // Kotlin
        "\u{e634}"
    } else if same(ext, "php") {
        // PHP
        "\u{e73d}"
    } else if same(ext, "lua") {
        // Lua
        "\u{e620}"
    } else if same(ext, "zig") {
        // Zig
        "\u{e6a9}"
    } else if same(ext, "hs") {
        // Haskell
        "\u{e777}"
    } else if same(ext, "ex") || same(ext, "exs") {
        // Elixir
        "\u{e62d}"
    } else if same(ext, "erl") {
        // Erlang
        "\u{e7b1}"
    } else if same(ext, "scala") {
        // Scala
        "\u{e737}"
    } else if same(ext, "clj") || same(ext, "cljs") {
        // Clojure
        "\u{e768}"
    } else if same(ext, "r") {
        // R
        "\u{f07d4}"
    } else if same(ext, "jl") {
        // Julia
        "\u{e624}"
    } else if same(ext, "pl") || same(ext, "pm") {
        // Perl
        "\u{e769}"
    } else if same(ext, "sh") || same(ext, "bash") || same(ext, "zsh") {
        // Shell
        "\u{e795}"
    } else if same(ext, "fish") {
        // Fish
        "\u{f489}"
    } else if same(ext, "ps1") {
        // PowerShell
        "\u{e70f}"
    } else if same(ext, "vim") {
        // Vim
        "\u{e62b}"
    } else if same(ext, "el") {
        // Emacs Lisp
        "\u{e779}"
    } else if same(ext, "html") || same(ext, "htm") {
        // HTML
        "\u{e736}"
    } else if same(ext, "css") {
        // CSS
        "\u{e749}"
    } else if same(ext, "scss") || same(ext, "sass") {
        // Sass
        "\u{e74b}"
    } else if same(ext, "less") {
        // Less
        "\u{e758}"
    } else if same(ext, "vue") {
        // Vue
        "\u{e6a0}"
    } else if same(ext, "svelte") {
        // Svelte
        "\u{e697}"
    } else if same(ext, "astro") {
        // Astro
        "\u{e6b3}"
    } else if same(ext, "wasm") {
        // WebAssembly
        "\u{e6a1}"
    } else if same(ext, "json") {
        // JSON
        "\u{e60b}"
    } else if same(ext, "yaml") || same(ext, "yml") {
        // YAML
        "\u{e6a8}"
    } else if same(ext, "toml") {
        // TOML
        "\u{e6b2}"
    } else if same(ext, "xml") {
        // XML
        "\u{f05c0}"
    } else if same(ext, "csv") {
        // CSV
        "\u{f0219}"
    } else if same(ext, "sql") {
        // SQL
        "\u{e706}"
    } else if same(ext, "graphql") || same(ext, "gql") {
        // GraphQL
        "\u{e662}"
    } else if same(ext, "proto") {
        // Protobuf
        "\u{e6a5}"
    } else if same(ext, "md") || same(ext, "markdown") {
        // Markdown
        "\u{e73e}"
    } else if same(ext, "txt") {
        // Text
        "\u{f0219}"
    } else if same(ext, "pdf") {
        // PDF
        "\u{f0226}"
    } else if same(ext, "doc") || same(ext, "docx") {
        // Word
        "\u{f0219}"
    } else if same(ext, "rst") {
        // reStructuredText
        "\u{f0219}"
    } else if same(ext, "lock") {
        // Lock file
        "\u{f023}"
    } else if same(ext, "dockerfile") {
        // Docker
        "\u{e7b0}"
    } else if same(ext, "nix") {
        // Nix
        "\u{f313}"
    } else if same(ext, "cmake") {
        // CMake
        "\u{e615}"
    } else if same(ext, "png") || same(ext, "jpg") || same(ext, "jpeg") || same(ext, "gif") || same(ext, "bmp") || same(ext, "ico") || same(ext, "webp") {
        // Image
        "\u{f03e}"
    } else if same(ext, "svg") {
        // SVG
        "\u{f0721}"
    } else if same(ext, "gitignore") || same(ext, "gitattributes") || same(ext, "gitmodules") {
        // Git
        "\u{e702}"
    } else {
        "\u{f15b}"
    }
}

/// How the known extensions are spelled.
proof fn extensions_are_spelled()
    ensures
        "rs"@.len() == 2 && "rs"@[0] == 'r' && "rs"@[1] == 's',
        "js"@.len() == 2 && "js"@[0] == 'j' && "js"@[1] == 's',
        "ts"@.len() == 2 && "ts"@[0] == 't' && "ts"@[1] == 's',
        "jsx"@.len() == 3 && "jsx"@[0] == 'j' && "jsx"@[1] == 's' && "jsx"@[2] == 'x',
        "tsx"@.len() == 3 && "tsx"@[0] == 't' && "tsx"@[1] == 's' && "tsx"@[2] == 'x',
        "py"@.len() == 2 && "py"@[0] == 'p' && "py"@[1] == 'y',
        "rb"@.len() == 2 && "rb"@[0] == 'r' && "rb"@[1] == 'b',
        "go"@.len() == 2 && "go"@[0] == 'g' && "go"@[1] == 'o',
        "java"@.len() == 4 && "java"@[0] == 'j' && "java"@[1] == 'a' && "java"@[2] == 'v'
            && "java"@[3] == 'a',
        "c"@.len() == 1 && "c"@[0] == 'c',
        "h"@.len() == 1 && "h"@[0] == 'h',
        "cpp"@.len() == 3 && "cpp"@[0] == 'c' && "cpp"@[1] == 'p' && "cpp"@[2] == 'p',
        "cc"@.len() == 2 && "cc"@[0] == 'c' && "cc"@[1] == 'c',
        "cxx"@.len() == 3 && "cxx"@[0] == 'c' && "cxx"@[1] == 'x' && "cxx"@[2] == 'x',
        "hpp"@.len() == 3 && "hpp"@[0] == 'h' && "hpp"@[1] == 'p' && "hpp"@[2] == 'p',
        "cs"@.len() == 2 && "cs"@[0] == 'c' && "cs"@[1] == 's',
        "swift"@.len() == 5 && "swift"@[0] == 's' && "swift"@[1] == 'w' && "swift"@[2] == 'i'
            && "swift"@[3] == 'f' && "swift"@[4] == 't',
        "kt"@.len() == 2 && "kt"@[0] == 'k' && "kt"@[1] == 't',
        "kts"@.len() == 3 && "kts"@[0] == 'k' && "kts"@[1] == 't' && "kts"@[2] == 's',
        "php"@.len() == 3 && "php"@[0] == 'p' && "php"@[1] == 'h' && "php"@[2] == 'p',
        "lua"@.len() == 3 && "lua"@[0] == 'l' && "lua"@[1] == 'u' && "lua"@[2] == 'a',
        "zig"@.len() == 3 && "zig"@[0] == 'z' && "zig"@[1] == 'i' && "zig"@[2] == 'g',
        "hs"@.len() == 2 && "hs"@[0] == 'h' && "hs"@[1] == 's',
        "ex"@.len() == 2 && "ex"@[0] == 'e' && "ex"@[1] == 'x',
        "exs"@.len() == 3 && "exs"@[0] == 'e' && "exs"@[1] == 'x' && "exs"@[2] == 's',
        "erl"@.len() == 3 && "erl"@[0] == 'e' && "erl"@[1] == 'r' && "erl"@[2] == 'l',
        "scala"@.len() == 5 && "scala"@[0] == 's' && "scala"@[1] == 'c' && "scala"@[2] == 'a'
            && "scala"@[3] == 'l' && "scala"@[4] == 'a',
        "clj"@.len() == 3 && "clj"@[0] == 'c' && "clj"@[1] == 'l' && "clj"@[2] == 'j',
        "cljs"@.len() == 4 && "cljs"@[0] == 'c' && "cljs"@[1] == 'l' && "cljs"@[2] == 'j'
            && "cljs"@[3] == 's',
        "r"@.len() == 1 && "r"@[0] == 'r',
        "jl"@.len() == 2 && "jl"@[0] == 'j' && "jl"@[1] == 'l',
        "pl"@.len() == 2 && "pl"@[0] == 'p' && "pl"@[1] == 'l',
        "pm"@.len() == 2 && "pm"@[0] == 'p' && "pm"@[1] == 'm',
        "sh"@.len() == 2 && "sh"@[0] == 's' && "sh"@[1] == 'h',
        "bash"@.len() == 4 && "bash"@[0] == 'b' && "bash"@[1] == 'a' && "bash"@[2] == 's'
            && "bash"@[3] == 'h',
        "zsh"@.len() == 3 && "zsh"@[0] == 'z' && "zsh"@[1] == 's' && "zsh"@[2] == 'h',
        "fish"@.len() == 4 && "fish"@[0] == 'f' && "fish"@[1] == 'i' && "fish"@[2] == 's'
            && "fish"@[3] == 'h',
        "ps1"@.len() == 3 && "ps1"@[0] == 'p' && "ps1"@[1] == 's' && "ps1"@[2] == '1',
        "vim"@.len() == 3 && "vim"@[0] == 'v' && "vim"@[1] == 'i' && "vim"@[2] == 'm',
        "el"@.len() == 2 && "el"@[0] == 'e' && "el"@[1] == 'l',
        "html"@.len() == 4 && "html"@[0] == 'h' && "html"@[1] == 't' && "html"@[2] == 'm'
            && "html"@[3] == 'l',
        "htm"@.len() == 3 && "htm"@[0] == 'h' && "htm"@[1] == 't' && "htm"@[2] == 'm',
        "css"@.len() == 3 && "css"@[0] == 'c' && "css"@[1] == 's' && "css"@[2] == 's',
        "scss"@.len() == 4 && "scss"@[0] == 's' && "scss"@[1] == 'c' && "scss"@[2] == 's'
            && "scss"@[3] == 's',
        "sass"@.len() == 4 && "sass"@[0] == 's' && "sass"@[1] == 'a' && "sass"@[2] == 's'
            && "sass"@[3] == 's',
        "less"@.len() == 4 && "less"@[0] == 'l' && "less"@[1] == 'e' && "less"@[2] == 's'
            && "less"@[3] == 's',
        "vue"@.len() == 3 && "vue"@[0] == 'v' && "vue"@[1] == 'u' && "vue"@[2] == 'e',
        "svelte"@.len() == 6 && "svelte"@[0] == 's' && "svelte"@[1] == 'v'
            && "svelte"@[2] == 'e' && "svelte"@[3] == 'l' && "svelte"@[4] == 't'
            && "svelte"@[5] == 'e',
        "astro"@.len() == 5 && "astro"@[0] == 'a' && "astro"@[1] == 's' && "astro"@[2] == 't'
            && "astro"@[3] == 'r' && "astro"@[4] == 'o',
        "wasm"@.len() == 4 && "wasm"@[0] == 'w' && "wasm"@[1] == 'a' && "wasm"@[2] == 's'
            && "wasm"@[3] == 'm',
        "json"@.len() == 4 && "json"@[0] == 'j' && "json"@[1] == 's' && "json"@[2] == 'o'
            && "json"@[3] == 'n',
        "yaml"@.len() == 4 && "yaml"@[0] == 'y' && "yaml"@[1] == 'a' && "yaml"@[2] == 'm'
            && "yaml"@[3] == 'l',
        "yml"@.len() == 3 && "yml"@[0] == 'y' && "yml"@[1] == 'm' && "yml"@[2] == 'l',
        "toml"@.len() == 4 && "toml"@[0] == 't' && "toml"@[1] == 'o' && "toml"@[2] == 'm'
            && "toml"@[3] == 'l',
        "xml"@.len() == 3 && "xml"@[0] == 'x' && "xml"@[1] == 'm' && "xml"@[2] == 'l',
        "csv"@.len() == 3 && "csv"@[0] == 'c' && "csv"@[1] == 's' && "csv"@[2] == 'v',
        "sql"@.len() == 3 && "sql"@[0] == 's' && "sql"@[1] == 'q' && "sql"@[2] == 'l',
        "graphql"@.len() == 7 && "graphql"@[0] == 'g' && "graphql"@[1] == 'r'
            && "graphql"@[2] == 'a' && "graphql"@[3] == 'p' && "graphql"@[4] == 'h'
            && "graphql"@[5] == 'q' && "graphql"@[6] == 'l',
        "gql"@.len() == 3 && "gql"@[0] == 'g' && "gql"@[1] == 'q' && "gql"@[2] == 'l',
        "proto"@.len() == 5 && "proto"@[0] == 'p' && "proto"@[1] == 'r' && "proto"@[2] == 'o'
            && "proto"@[3] == 't' && "proto"@[4] == 'o',
        "md"@.len() == 2 && "md"@[0] == 'm' && "md"@[1] == 'd',
        "markdown"@.len() == 8 && "markdown"@[0] == 'm' && "markdown"@[1] == 'a'
            && "markdown"@[2] == 'r' && "markdown"@[3] == 'k' && "markdown"@[4] == 'd'
            && "markdown"@[5] == 'o' && "markdown"@[6] == 'w' && "markdown"@[7] == 'n',
        "txt"@.len() == 3 && "txt"@[0] == 't' && "txt"@[1] == 'x' && "txt"@[2] == 't',
        "pdf"@.len() == 3 && "pdf"@[0] == 'p' && "pdf"@[1] == 'd' && "pdf"@[2] == 'f',
        "doc"@.len() == 3 && "doc"@[0] == 'd' && "doc"@[1] == 'o' && "doc"@[2] == 'c',
        "docx"@.len() == 4 && "docx"@[0] == 'd' && "docx"@[1] == 'o' && "docx"@[2] == 'c'
            && "docx"@[3] == 'x',
        "rst"@.len() == 3 && "rst"@[0] == 'r' && "rst"@[1] == 's' && "rst"@[2] == 't',
        "lock"@.len() == 4 && "lock"@[0] == 'l' && "lock"@[1] == 'o' && "lock"@[2] == 'c'
            && "lock"@[3] == 'k',
        "dockerfile"@.len() == 10 && "dockerfile"@[0] == 'd' && "dockerfile"@[1] == 'o'
            && "dockerfile"@[2] == 'c' && "dockerfile"@[3] == 'k' && "dockerfile"@[4] == 'e'
            && "dockerfile"@[5] == 'r' && "dockerfile"@[6] == 'f' && "dockerfile"@[7] == 'i'
            && "dockerfile"@[8] == 'l' && "dockerfile"@[9] == 'e',
        "nix"@.len() == 3 && "nix"@[0] == 'n' && "nix"@[1] == 'i' && "nix"@[2] == 'x',
        "cmake"@.len() == 5 && "cmake"@[0] == 'c' && "cmake"@[1] == 'm' && "cmake"@[2] == 'a'
            && "cmake"@[3] == 'k' && "cmake"@[4] == 'e',
        "png"@.len() == 3 && "png"@[0] == 'p' && "png"@[1] == 'n' && "png"@[2] == 'g',
        "jpg"@.len() == 3 && "jpg"@[0] == 'j' && "jpg"@[1] == 'p' && "jpg"@[2] == 'g',
        "jpeg"@.len() == 4 && "jpeg"@[0] == 'j' && "jpeg"@[1] == 'p' && "jpeg"@[2] == 'e'
            && "jpeg"@[3] == 'g',
        "gif"@.len() == 3 && "gif"@[0] == 'g' && "gif"@[1] == 'i' && "gif"@[2] == 'f',
        "bmp"@.len() == 3 && "bmp"@[0] == 'b' && "bmp"@[1] == 'm' && "bmp"@[2] == 'p',
        "ico"@.len() == 3 && "ico"@[0] == 'i' && "ico"@[1] == 'c' && "ico"@[2] == 'o',
        "webp"@.len() == 4 && "webp"@[0] == 'w' && "webp"@[1] == 'e' && "webp"@[2] == 'b'
            && "webp"@[3] == 'p',
        "svg"@.len() == 3 && "svg"@[0] == 's' && "svg"@[1] == 'v' && "svg"@[2] == 'g',
        "gitignore"@.len() == 9 && "gitignore"@[0] == 'g' && "gitignore"@[1] == 'i'
            && "gitignore"@[2] == 't' && "gitignore"@[3] == 'i' && "gitignore"@[4] == 'g'
            && "gitignore"@[5] == 'n' && "gitignore"@[6] == 'o' && "gitignore"@[7] == 'r'
            && "gitignore"@[8] == 'e',
        "gitattributes"@.len() == 13 && "gitattributes"@[0] == 'g' && "gitattributes"@[1] == 'i'
            && "gitattributes"@[2] == 't' && "gitattributes"@[3] == 'a'
            && "gitattributes"@[4] == 't' && "gitattributes"@[5] == 't'
            && "gitattributes"@[6] == 'r' && "gitattributes"@[7] == 'i'
            && "gitattributes"@[8] == 'b' && "gitattributes"@[9] == 'u'
            && "gitattributes"@[10] == 't' && "gitattributes"@[11] == 'e'
            && "gitattributes"@[12] == 's',
        "gitmodules"@.len() == 10 && "gitmodules"@[0] == 'g' && "gitmodules"@[1] == 'i'
            && "gitmodules"@[2] == 't' && "gitmodules"@[3] == 'm' && "gitmodules"@[4] == 'o'
            && "gitmodules"@[5] == 'd' && "gitmodules"@[6] == 'u' && "gitmodules"@[7] == 'l'
            && "gitmodules"@[8] == 'e' && "gitmodules"@[9] == 's',
{
    reveal_strlit("rs");
    reveal_strlit("js");
    reveal_strlit("ts");
    reveal_strlit("jsx");
    reveal_strlit("tsx");
    reveal_strlit("py");
    reveal_strlit("rb");
    reveal_strlit("go");
    reveal_strlit("java");
    reveal_strlit("c");
    reveal_strlit("h");
    reveal_strlit("cpp");
    reveal_strlit("cc");
    reveal_strlit("cxx");
    reveal_strlit("hpp");
    reveal_strlit("cs");
    reveal_strlit("swift");
    reveal_strlit("kt");
    reveal_strlit("kts");
    reveal_strlit("php");
    reveal_strlit("lua");
    reveal_strlit("zig");
    reveal_strlit("hs");
    reveal_strlit("ex");
    reveal_strlit("exs");
    reveal_strlit("erl");
    reveal_strlit("scala");
    reveal_strlit("clj");
    reveal_strlit("cljs");
    reveal_strlit("r");
    reveal_strlit("jl");
    reveal_strlit("pl");
    reveal_strlit("pm");
    reveal_strlit("sh");
    reveal_strlit("bash");
    reveal_strlit("zsh");
    reveal_strlit("fish");
    reveal_strlit("ps1");
    reveal_strlit("vim");
    reveal_strlit("el");
    reveal_strlit("html");
    reveal_strlit("htm");
    reveal_strlit("css");
    reveal_strlit("scss");
    reveal_strlit("sass");
    reveal_strlit("less");
    reveal_strlit("vue");
    reveal_strlit("svelte");
    reveal_strlit("astro");
    reveal_strlit("wasm");
    reveal_strlit("json");
    reveal_strlit("yaml");
    reveal_strlit("yml");
    reveal_strlit("toml");
    reveal_strlit("xml");
    reveal_strlit("csv");
    reveal_strlit("sql");
    reveal_strlit("graphql");
    reveal_strlit("gql");
    reveal_strlit("proto");
    reveal_strlit("md");
    reveal_strlit("markdown");
    reveal_strlit("txt");
    reveal_strlit("pdf");
    reveal_strlit("doc");
    reveal_strlit("docx");
    reveal_strlit("rst");
    reveal_strlit("lock");
    reveal_strlit("dockerfile");
    reveal_strlit("nix");
    reveal_strlit("cmake");
    reveal_strlit("png");
    reveal_strlit("jpg");
    reveal_strlit("jpeg");
    reveal_strlit("gif");
    reveal_strlit("bmp");
    reveal_strlit("ico");
    reveal_strlit("webp");
    reveal_strlit("svg");
    reveal_strlit("gitignore");
    reveal_strlit("gitattributes");
    reveal_strlit("gitmodules");
}

/// The extensions that are known.
pub open spec fn known_extensions() -> Seq<Seq<char>> {
    seq![
        "rs"@,
        "js"@,
        "ts"@,
        "jsx"@,
        "tsx"@,
        "py"@,
        "rb"@,
        "go"@,
        "java"@,
        "c"@,
        "h"@,
        "cpp"@,
        "cc"@,
        "cxx"@,
        "hpp"@,
        "cs"@,
        "swift"@,
        "kt"@,
        "kts"@,
        "php"@,
        "lua"@,
        "zig"@,
        "hs"@,
        "ex"@,
        "exs"@,
        "erl"@,
        "scala"@,
        "clj"@,
        "cljs"@,
        "r"@,
        "jl"@,
        "pl"@,
        "pm"@,
        "sh"@,
        "bash"@,
        "zsh"@,
        "fish"@,
        "ps1"@,
        "vim"@,
        "el"@,
        "html"@,
        "htm"@,
        "css"@,
        "scss"@,
        "sass"@,
        "less"@,
        "vue"@,
        "svelte"@,
        "astro"@,
        "wasm"@,
        "json"@,
        "yaml"@,
        "yml"@,
        "toml"@,
        "xml"@,
        "csv"@,
        "sql"@,
        "graphql"@,
        "gql"@,
        "proto"@,
        "md"@,
        "markdown"@,
        "txt"@,
        "pdf"@,
        "doc"@,
        "docx"@,
        "rst"@,
        "lock"@,
        "dockerfile"@,
        "nix"@,
        "cmake"@,
        "png"@,
        "jpg"@,
        "jpeg"@,
        "gif"@,
        "bmp"@,
        "ico"@,
        "webp"@,
        "svg"@,
        "gitignore"@,
        "gitattributes"@,
        "gitmodules"@,
    ]
}

/// A file of no known kind has the generic icon.
pub proof fn unknown_files_have_generic_icon(ext: Seq<char>)
    requires
        !known_extensions().contains(ext),
    ensures
        icon_of(ext) == "\u{f15b}"@,
{
    let known = known_extensions();
    assert(known[0] == "rs"@);
    assert(known[1] == "js"@);
    assert(known[2] == "ts"@);
    assert(known[3] == "jsx"@);
    assert(known[4] == "tsx"@);
    assert(known[5] == "py"@);
    assert(known[6] == "rb"@);
    assert(known[7] == "go"@);
    assert(known[8] == "java"@);
    assert(known[9] == "c"@);
    assert(known[10] == "h"@);
    assert(known[11] == "cpp"@);
    assert(known[12] == "cc"@);
    assert(known[13] == "cxx"@);
    assert(known[14] == "hpp"@);
    assert(known[15] == "cs"@);
    assert(known[16] == "swift"@);
    assert(known[17] == "kt"@);
    assert(known[18] == "kts"@);
    assert(known[19] == "php"@);
    assert(known[20] == "lua"@);
    assert(known[21] == "zig"@);
    assert(known[22] == "hs"@);
    assert(known[23] == "ex"@);
    assert(known[24] == "exs"@);
    assert(known[25] == "erl"@);
    assert(known[26] == "scala"@);
    assert(known[27] == "clj"@);
    assert(known[28] == "cljs"@);
    assert(known[29] == "r"@);
    assert(known[30] == "jl"@);
    assert(known[31] == "pl"@);
    assert(known[32] == "pm"@);
    assert(known[33] == "sh"@);
    assert(known[34] == "bash"@);
    assert(known[35] == "zsh"@);
    assert(known[36] == "fish"@);
    assert(known[37] == "ps1"@);
    assert(known[38] == "vim"@);
    assert(known[39] == "el"@);
    assert(known[40] == "html"@);
    assert(known[41] == "htm"@);
    assert(known[42] == "css"@);
    assert(known[43] == "scss"@);
    assert(known[44] == "sass"@);
    assert(known[45] == "less"@);
    assert(known[46] == "vue"@);
    assert(known[47] == "svelte"@);
    assert(known[48] == "astro"@);
    assert(known[49] == "wasm"@);
    assert(known[50] == "json"@);
    assert(known[51] == "yaml"@);
    assert(known[52] == "yml"@);
    assert(known[53] == "toml"@);
    assert(known[54] == "xml"@);
    assert(known[55] == "csv"@);
    assert(known[56] == "sql"@);
    assert(known[57] == "graphql"@);
    assert(known[58] == "gql"@);
    assert(known[59] == "proto"@);
    assert(known[60] == "md"@);
    assert(known[61] == "markdown"@);
    assert(known[62] == "txt"@);
    assert(known[63] == "pdf"@);
    assert(known[64] == "doc"@);
    assert(known[65] == "docx"@);
    assert(known[66] == "rst"@);
    assert(known[67] == "lock"@);
    assert(known[68] == "dockerfile"@);
    assert(known[69] == "nix"@);
    assert(known[70] == "cmake"@);
    assert(known[71] == "png"@);
    assert(known[72] == "jpg"@);
    assert(known[73] == "jpeg"@);
    assert(known[74] == "gif"@);
    assert(known[75] == "bmp"@);
    assert(known[76] == "ico"@);
    assert(known[77] == "webp"@);
    assert(known[78] == "svg"@);
    assert(known[79] == "gitignore"@);
    assert(known[80] == "gitattributes"@);
    assert(known[81] == "gitmodules"@);
}

/// Each known extension has the icon of its kind of files.
pub proof fn every_known_extension_has_its_icon()
    ensures
        icon_of("rs"@) == "\u{e7a8}"@,
        icon_of("js"@) == "\u{e74e}"@,
        icon_of("ts"@) == "\u{e628}"@,
        icon_of("jsx"@) == "\u{e7ba}"@,
        icon_of("tsx"@) == "\u{e7ba}"@,
        icon_of("py"@) == "\u{e73c}"@,
        icon_of("rb"@) == "\u{e791}"@,
        icon_of("go"@) == "\u{e626}"@,
        icon_of("java"@) == "\u{e738}"@,
        icon_of("c"@) == "\u{e61e}"@,
        icon_of("h"@) == "\u{e61e}"@,
        icon_of("cpp"@) == "\u{e61d}"@,
        icon_of("cc"@) == "\u{e61d}"@,
        icon_of("cxx"@) == "\u{e61d}"@,
        icon_of("hpp"@) == "\u{e61d}"@,
        icon_of("cs"@) == "\u{f031b}"@,
        icon_of("swift"@) == "\u{e755}"@,
        icon_of("kt"@) == "\u{e634}"@,
        icon_of("kts"@) == "\u{e634}"@,
        icon_of("php"@) == "\u{e73d}"@,
        icon_of("lua"@) == "\u{e620}"@,
        icon_of("zig"@) == "\u{e6a9}"@,
        icon_of("hs"@) == "\u{e777}"@,
        icon_of("ex"@) == "\u{e62d}"@,
        icon_of("exs"@) == "\u{e62d}"@,
        icon_of("erl"@) == "\u{e7b1}"@,
        icon_of("scala"@) == "\u{e737}"@,
        icon_of("clj"@) == "\u{e768}"@,
        icon_of("cljs"@) == "\u{e768}"@,
        icon_of("r"@) == "\u{f07d4}"@,
        icon_of("jl"@) == "\u{e624}"@,
        icon_of("pl"@) == "\u{e769}"@,
        icon_of("pm"@) == "\u{e769}"@,
        icon_of("sh"@) == "\u{e795}"@,
        icon_of("bash"@) == "\u{e795}"@,
        icon_of("zsh"@) == "\u{e795}"@,
        icon_of("fish"@) == "\u{f489}"@,
        icon_of("ps1"@) == "\u{e70f}"@,
        icon_of("vim"@) == "\u{e62b}"@,
        icon_of("el"@) == "\u{e779}"@,
        icon_of("html"@) == "\u{e736}"@,
        icon_of("htm"@) == "\u{e736}"@,
        icon_of("css"@) == "\u{e749}"@,
        icon_of("scss"@) == "\u{e74b}"@,
        icon_of("sass"@) == "\u{e74b}"@,
        icon_of("less"@) == "\u{e758}"@,
        icon_of("vue"@) == "\u{e6a0}"@,
        icon_of("svelte"@) == "\u{e697}"@,
        icon_of("astro"@) == "\u{e6b3}"@,
        icon_of("wasm"@) == "\u{e6a1}"@,
        icon_of("json"@) == "\u{e60b}"@,
        icon_of("yaml"@) == "\u{e6a8}"@,
        icon_of("yml"@) == "\u{e6a8}"@,
        icon_of("toml"@) == "\u{e6b2}"@,
        icon_of("xml"@) == "\u{f05c0}"@,
        icon_of("csv"@) == "\u{f0219}"@,
        icon_of("sql"@) == "\u{e706}"@,
        icon_of("graphql"@) == "\u{e662}"@,
        icon_of("gql"@) == "\u{e662}"@,
        icon_of("proto"@) == "\u{e6a5}"@,
        icon_of("md"@) == "\u{e73e}"@,
        icon_of("markdown"@) == "\u{e73e}"@,
        icon_of("txt"@) == "\u{f0219}"@,
        icon_of("pdf"@) == "\u{f0226}"@,
        icon_of("doc"@) == "\u{f0219}"@,
        icon_of("docx"@) == "\u{f0219}"@,
        icon_of("rst"@) == "\u{f0219}"@,
        icon_of("lock"@) == "\u{f023}"@,
        icon_of("dockerfile"@) == "\u{e7b0}"@,
        icon_of("nix"@) == "\u{f313}"@,
        icon_of("cmake"@) == "\u{e615}"@,
        icon_of("png"@) == "\u{f03e}"@,
        icon_of("jpg"@) == "\u{f03e}"@,
        icon_of("jpeg"@) == "\u{f03e}"@,
        icon_of("gif"@) == "\u{f03e}"@,
        icon_of("bmp"@) == "\u{f03e}"@,
        icon_of("ico"@) == "\u{f03e}"@,
        icon_of("webp"@) == "\u{f03e}"@,
        icon_of("svg"@) == "\u{f0721}"@,
        icon_of("gitignore"@) == "\u{e702}"@,
        icon_of("gitattributes"@) == "\u{e702}"@,
        icon_of("gitmodules"@) == "\u{e702}"@,
{
    extensions_are_spelled();
}

}
