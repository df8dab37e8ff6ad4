use vstd::prelude::*;

verus! {

/// Unicode `White_Space` characters, the set that `str::trim` removes.
pub open spec fn is_white_space(c: char) -> bool {
    ('\u{9}' <= c && c <= '\u{d}') || c == ' ' || c == '\u{85}' || c == '\u{a0}'
        || c == '\u{1680}' || ('\u{2000}' <= c && c <= '\u{200a}') || c == '\u{2028}'
        || c == '\u{2029}' || c == '\u{202f}' || c == '\u{205f}' || c == '\u{3000}'
}

/// Position of the first `c` in `s` at or after `from`, or `s.len()` when there is none.
pub open spec fn find_from(s: Seq<char>, c: char, from: int) -> int
    decreases s.len() - from,
{
    if from < 0 || from >= s.len() {
        s.len() as int
    } else if s[from] == c {
        from
    } else {
        find_from(s, c, from + 1)
    }
}

pub open spec fn trim_start(s: Seq<char>) -> Seq<char>
    decreases s.len(),
{
    if s.len() > 0 && is_white_space(s[0]) {
        trim_start(s.subrange(1, s.len() as int))
    } else {
        s
    }
}

pub open spec fn trim_end(s: Seq<char>) -> Seq<char>
    decreases s.len(),
{
    if s.len() > 0 && is_white_space(s.last()) {
        trim_end(s.drop_last())
    } else {
        s
    }
}

pub open spec fn trim(s: Seq<char>) -> Seq<char> {
    trim_end(trim_start(s))
}

/// The language name without its parenthesized version suffix: the text
/// before the first `(`, trimmed; the whole name when there is no `(`.
pub open spec fn base_language(lang: Seq<char>) -> Seq<char> {
    let p = find_from(lang, '(', 0);
    if p < lang.len() {
        trim(lang.subrange(0, p))
    } else {
        lang
    }
}

/// The source file name of a known base language.
pub open spec fn known_file_name(b: Seq<char>) -> Option<Seq<char>> {
    if b == "C++"@ || b == "C++14"@ || b == "C++17"@ || b == "C++20"@ {
        Some("Main.cpp"@)
    } else if b == "Bash"@ {
        Some("Main.sh"@)
    } else if b == "C"@ {
        Some("Main.c"@)
    } else if b == "C#"@ {
        Some("Main.cs"@)
    } else if b == "Clojure"@ {
        Some("Main.clj"@)
    } else if b == "Common Lisp"@ {
        Some("Main.lisp"@)
    } else if b == "D"@ {
        Some("Main.d"@)
    } else if b == "Fortran"@ {
        Some("Main.f08"@)
    } else if b == "Go"@ {
        Some("Main.go"@)
    } else if b == "Haskell"@ {
        Some("Main.hs"@)
    } else if b == "JavaScript"@ {
        Some("Main.js"@)
    } else if b == "Java"@ {
        Some("Main.java"@)
    } else if b == "OCaml"@ {
        Some("Main.ml"@)
    } else if b == "Pascal"@ {
        Some("Main.pas"@)
    } else if b == "Perl"@ {
        Some("Main.pl"@)
    } else if b == "PHP"@ {
        Some("Main.php"@)
    } else if b == "Python"@ || b == "Python3"@ || b == "PyPy2"@ || b == "PyPy3"@ {
        Some("Main.py"@)
    } else if b == "Ruby"@ {
        Some("Main.rb"@)
    } else if b == "Scala"@ {
        Some("Main.scala"@)
    } else if b == "Scheme"@ {
        Some("Main.scm"@)
    } else if b == "Visual Basic"@ {
        Some("Main.vb"@)
    } else if b == "Objective-C"@ {
        Some("Main.m"@)
    } else if b == "Swift"@ {
        Some("Main.swift"@)
    } else if b == "Rust"@ {
        Some("Main.rs"@)
    } else if b == "Sed"@ {
        Some("Main.sed"@)
    } else if b == "Awk"@ {
        Some("Main.awk"@)
    } else if b == "Brainfuck"@ {
        Some("Main.bf"@)
    } else if b == "Standard ML"@ {
        Some("Main.sml"@)
    } else if b == "Crystal"@ {
        Some("Main.cr"@)
    } else if b == "F#"@ {
        Some("Main.fs"@)
    } else if b == "Unlambda"@ {
        Some("Main.unl"@)
    } else if b == "Lua"@ || b == "LuaJIT"@ {
        Some("Main.lua"@)
    } else if b == "MoonScript"@ {
        Some("Main.moon"@)
    } else if b == "Ceylon"@ {
        Some("Main.ceylon"@)
    } else if b == "Julia"@ {
        Some("Main.jl"@)
    } else if b == "Octave"@ {
        Some("Main.m"@)
    } else if b == "Nim"@ {
        Some("Main.nim"@)
    } else if b == "TypeScript"@ {
        Some("Main.ts"@)
    } else if b == "Perl6"@ {
        Some("Main.p6"@)
    } else if b == "Kotlin"@ {
        Some("Main.kt"@)
    } else if b == "COBOL"@ {
        Some("Main.cob"@)
    } else {
        None
    }
}

/// The file name that an unknown language falls back to.
pub open spec fn fallback_file_name() -> Seq<char> {
    "Main.txt"@
}

/// The source file name for a language as the judge reports it.
pub open spec fn file_name_for(lang: Seq<char>) -> Seq<char> {
    match known_file_name(base_language(lang)) {
        Some(n) => n,
        None => fallback_file_name(),
    }
}

/// Index of the first `(` in `s`, or its length when there is none.
fn find_open_paren(s: &str) -> (r: usize)
    ensures
        r == find_from(s@, '(', 0),
{
    let n = s.unicode_len();
    let mut i: usize = 0;
    while i < n
        invariant
            n == s@.len(),
            i <= n,
            find_from(s@, '(', 0) == find_from(s@, '(', i as int),
        decreases n - i,
    {
        if s.get_char(i) == '(' {
            return i;
        }
        i = i + 1;
    }
    i
}

fn char_is_white_space(c: char) -> (r: bool)
    ensures
        r == is_white_space(c),
{
    ('\u{9}' <= c && c <= '\u{d}') || c == ' ' || c == '\u{85}' || c == '\u{a0}'
        || c == '\u{1680}' || ('\u{2000}' <= c && c <= '\u{200a}') || c == '\u{2028}'
        || c == '\u{2029}' || c == '\u{202f}' || c == '\u{205f}' || c == '\u{3000}'
}

proof fn lemma_trim_start_step(s: Seq<char>, i: int)
    requires
        0 <= i < s.len(),
        is_white_space(s[i]),
    ensures
        trim_start(s.subrange(i, s.len() as int)) == trim_start(s.subrange(i + 1, s.len() as int)),
{
    let t = s.subrange(i, s.len() as int);
    assert(t.subrange(1, t.len() as int) =~= s.subrange(i + 1, s.len() as int));
}

proof fn lemma_trim_end_step(s: Seq<char>, j: int)
    requires
        0 < j <= s.len(),
        is_white_space(s[j - 1]),
    ensures
        trim_end(s.subrange(0, j)) == trim_end(s.subrange(0, j - 1)),
{
    let t = s.subrange(0, j);
    assert(t.drop_last() =~= s.subrange(0, j - 1));
}

/// The part of `s[0..end]` left once white space is trimmed from both ends.
fn trimmed_prefix(s: &str, end: usize) -> (r: String)
    requires
        end <= s@.len(),
    ensures
        r@ == trim(s@.subrange(0, end as int)),
{
    let mut i: usize = 0;
    while i < end && char_is_white_space(s.get_char(i))
        invariant
            end <= s@.len(),
            i <= end,
            trim_start(s@.subrange(0, end as int)) == trim_start(s@.subrange(i as int, end as int)),
        decreases end - i,
    {
        proof {
            lemma_trim_start_step(s@.subrange(0, end as int), i as int);
            assert(s@.subrange(0, end as int).subrange(i as int, end as int)
                =~= s@.subrange(i as int, end as int));
            assert(s@.subrange(0, end as int).subrange(i + 1, end as int)
                =~= s@.subrange(i + 1, end as int));
        }
        i = i + 1;
    }
    proof {
        assert(s@.subrange(0, end as int).subrange(0, end as int) =~= s@.subrange(0, end as int));
        if i < end {
            assert(!is_white_space(s@.subrange(i as int, end as int)[0]));
        }
    }
    let mut j: usize = end;
    while j > i && char_is_white_space(s.get_char(j - 1))
        invariant
            end <= s@.len(),
            i <= j <= end,
            trim_start(s@.subrange(0, end as int)) == s@.subrange(i as int, end as int),
            trim_end(s@.subrange(i as int, end as int)) == trim_end(s@.subrange(i as int, j as int)),
        decreases j - i,
    {
        proof {
            lemma_trim_end_step(s@.subrange(i as int, end as int), (j - i) as int);
            assert(s@.subrange(i as int, end as int).subrange(0, (j - i) as int)
                =~= s@.subrange(i as int, j as int));
            assert(s@.subrange(i as int, end as int).subrange(0, (j - i - 1) as int)
                =~= s@.subrange(i as int, j - 1));
        }
        j = j - 1;
    }
    let r = s.substring_char(i, j);
    String::from_str(r)
}

fn is_text(b: &String, lit: &str) -> (r: bool)
    ensures
        r == (b@ == lit@),
{
    *b == String::from_str(lit)
}

/// The file name of a base language (no version suffix) in the table of
/// known languages, or `None` for a language the table does not hold.
fn known_base_file_name(b: &String) -> (r: Option<String>)
    ensures
        r matches Some(n) ==> known_file_name(b@) == Some(n@),
        r is None ==> known_file_name(b@) is None,
{
    let name = if is_text(b, "C++") || is_text(b, "C++14") || is_text(b, "C++17") || is_text(b, "C++20") {
        "Main.cpp"
    } else if is_text(b, "Bash") {
        "Main.sh"
    } else if is_text(b, "C") {
        "Main.c"
    } else if is_text(b, "C#") {
        "Main.cs"
    } else if is_text(b, "Clojure") {
        "Main.clj"
    } else if is_text(b, "Common Lisp") {
        "Main.lisp"
    } else if is_text(b, "D") {
        "Main.d"
    } else if is_text(b, "Fortran") {
        "Main.f08"
    } else if is_text(b, "Go") {
        "Main.go"
    } else if is_text(b, "Haskell") {
        "Main.hs"
    } else if is_text(b, "JavaScript") {
        "Main.js"
    } else if is_text(b, "Java") {
        "Main.java"
    } else if is_text(b, "OCaml") {
        "Main.ml"
    } else if is_text(b, "Pascal") {
        "Main.pas"
    } else if is_text(b, "Perl") {
        "Main.pl"
    } else if is_text(b, "PHP") {
        "Main.php"
    } else if is_text(b, "Python") || is_text(b, "Python3") || is_text(b, "PyPy2") || is_text(b, "PyPy3") {
        "Main.py"
    } else if is_text(b, "Ruby") {
        "Main.rb"
    } else if is_text(b, "Scala") {
        "Main.scala"
    } else if is_text(b, "Scheme") {
        "Main.scm"
    } else if is_text(b, "Visual Basic") {
        "Main.vb"
    } else if is_text(b, "Objective-C") {
        "Main.m"
    } else if is_text(b, "Swift") {
        "Main.swift"
    } else if is_text(b, "Rust") {
        "Main.rs"
    } else if is_text(b, "Sed") {
        "Main.sed"
    } else if is_text(b, "Awk") {
        "Main.awk"
    } else if is_text(b, "Brainfuck") {
        "Main.bf"
    } else if is_text(b, "Standard ML") {
        "Main.sml"
    } else if is_text(b, "Crystal") {
        "Main.cr"
    } else if is_text(b, "F#") {
        "Main.fs"
    } else if is_text(b, "Unlambda") {
        "Main.unl"
    } else if is_text(b, "Lua") || is_text(b, "LuaJIT") {
        "Main.lua"
    } else if is_text(b, "MoonScript") {
        "Main.moon"
    } else if is_text(b, "Ceylon") {
        "Main.ceylon"
    } else if is_text(b, "Julia") {
        "Main.jl"
    } else if is_text(b, "Octave") {
        "Main.m"
    } else if is_text(b, "Nim") {
        "Main.nim"
    } else if is_text(b, "TypeScript") {
        "Main.ts"
    } else if is_text(b, "Perl6") {
        "Main.p6"
    } else if is_text(b, "Kotlin") {
        "Main.kt"
    } else if is_text(b, "COBOL") {
        "Main.cob"
    } else {
        return None;
    };
    Some(String::from_str(name))
}

/// The language name without its parenthesized version suffix
/// (`"C++ (GCC 9.2.1)"` gives `"C++"`).
pub fn base_language_of(language: &str) -> (r: String)
    ensures
        r@ == base_language(language@),
{
    let p = find_open_paren(language);
    if p < language.unicode_len() {
        trimmed_prefix(language, p)
    } else {
        String::from_str(language)
    }
}

/// The source file name for a language in the table of known languages,
/// or `None` when the language is not known.
pub fn known_language_file_name(language: &str) -> (r: Option<String>)
    ensures
        r matches Some(n) ==> known_file_name(base_language(language@)) == Some(n@),
        r is None ==> known_file_name(base_language(language@)) is None,
{
    let b = base_language_of(language);
    known_base_file_name(&b)
}

/// The source file name for a language as the judge reports it; an unknown
/// language gets `Main.txt`.
pub fn language_to_file_name(language: &str) -> (r: String)
    ensures
        r@ == file_name_for(language@),
{
    match known_language_file_name(language) {
        Some(n) => n,
        None => String::from_str("Main.txt"),
    }
}

} // verus!
