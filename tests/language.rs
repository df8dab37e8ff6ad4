use ac_garden::language::{base_language_of, known_language_file_name, language_to_file_name};

#[test]
fn cpp14_maps_to_cpp() {
    assert_eq!(language_to_file_name("C++14"), "Main.cpp");
}

#[test]
fn python3_maps_to_py() {
    assert_eq!(language_to_file_name("Python3"), "Main.py");
}

#[test]
fn pypy_with_version_maps_to_py() {
    assert_eq!(language_to_file_name("PyPy3 (7.3.0)"), "Main.py");
}

#[test]
fn brainfuck_maps_to_bf() {
    assert_eq!(language_to_file_name("Brainfuck"), "Main.bf");
}

#[test]
fn unknown_language_falls_back() {
    assert_eq!(language_to_file_name("Zig"), "Main.txt");
    assert_eq!(known_language_file_name("Zig"), None);
}

#[test]
fn compiler_suffix_is_stripped() {
    assert_eq!(base_language_of("C++ (GCC 9.2.1)"), "C++");
    assert_eq!(language_to_file_name("C++ (GCC 9.2.1)"), "Main.cpp");
    assert_eq!(language_to_file_name("Rust (1.42.0)"), "Main.rs");
}

#[test]
fn whitespace_around_base_is_trimmed() {
    assert_eq!(base_language_of("  Go\t(1.14.1)"), "Go");
    assert_eq!(language_to_file_name("  Go\t(1.14.1)"), "Main.go");
}

#[test]
fn no_paren_keeps_name_untrimmed() {
    assert_eq!(base_language_of(" Go "), " Go ");
    assert_eq!(language_to_file_name(" Go "), "Main.txt");
}

#[test]
fn more_table_entries() {
    assert_eq!(language_to_file_name("Common Lisp (SBCL 2.0.3)"), "Main.lisp");
    assert_eq!(language_to_file_name("Objective-C"), "Main.m");
    assert_eq!(language_to_file_name("Octave (5.2.0)"), "Main.m");
    assert_eq!(language_to_file_name("LuaJIT (2.1.0)"), "Main.lua");
    assert_eq!(language_to_file_name("COBOL"), "Main.cob");
    assert_eq!(known_language_file_name("Kotlin (1.3.71)"), Some("Main.kt".to_string()));
    assert_eq!(language_to_file_name(""), "Main.txt");
    assert_eq!(language_to_file_name("("), "Main.txt");
}
