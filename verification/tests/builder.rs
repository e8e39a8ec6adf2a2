use wandbox::error::{NO_DEFAULT_COMPILER, UNKNOWN_TARGET};
use wandbox::{
    CompilationBuilder, CompilationResult, Compiler, Reply, Status, Wandbox, WandboxError,
};

fn compiler(name: &str, language: &str) -> Compiler {
    Compiler {
        compiler_option_raw: false,
        display_compile_command: String::new(),
        runtime_option_raw: false,
        version: String::from("1.0"),
        language: String::from(language),
        name: String::from(name),
    }
}

fn catalog() -> Wandbox {
    Wandbox::new(
        vec![
            compiler("gcc-6.3.0", "C++"),
            compiler("gcc-head", "C++"),
            compiler("python-3.8", "Python"),
        ],
        None,
        None,
    )
}

fn answer(program_all: &str) -> Reply {
    let mut result = CompilationResult::default();
    result.status = String::from("0");
    result.program_all = String::from(program_all);
    Reply::Read { result }
}

#[test]
fn compilation_builder_lang() {
    let wbox = catalog();

    let mut builder = CompilationBuilder::new();
    builder.target("c++");
    builder.options_str(vec!["-Wall", "-Werror"]);
    builder.code("#include<iostream>\nint main()\n{\nstd::cout<<\"test\";\n}");
    assert!(builder.build(&wbox).is_ok());

    let request = builder.request();
    assert_eq!(request.lang, "c++");
    assert_eq!(request.compiler, "gcc-6.3.0");
    assert_eq!(request.compiler_options_raw, "-Wall\n-Werror");
    assert_eq!(request.code, "#include<iostream>\nint main()\n{\nstd::cout<<\"test\";\n}");

    let res = answer("test").into_result().expect("Failed to lookup");
    assert_eq!(res.program_all, "test");
}

#[test]
fn compilation_builder_compiler() {
    let wbox = catalog();

    let mut builder = CompilationBuilder::new();
    builder.target("gcc-6.3.0");
    builder.options_str(vec!["-Wall", "-Werror"]);
    builder.code("#include<iostream>\nint main()\n{\nstd::cout<<\"test\";\n}");
    assert!(builder.build(&wbox).is_ok());

    let request = builder.request();
    assert_eq!(request.lang, "c++");
    assert_eq!(request.compiler, "gcc-6.3.0");
    assert_eq!(builder.lang(), "c++");

    let res = answer("test").into_result().expect("Failed to lookup");
    assert_eq!(res.program_all, "test");
}

#[test]
fn new_builder_is_empty() {
    let request = CompilationBuilder::new().request();
    assert_eq!(request.lang, "");
    assert_eq!(request.compiler, "");
    assert_eq!(request.code, "");
    assert_eq!(request.stdin, "");
    assert_eq!(request.compiler_options_raw, "");
    assert!(!request.save);
}

#[test]
fn default_builder_is_new_builder() {
    let request = CompilationBuilder::default().request();
    assert_eq!(request.lang, "");
    assert_eq!(request.compiler, "");
    assert_eq!(request.code, "");
    assert_eq!(request.stdin, "");
    assert_eq!(request.compiler_options_raw, "");
    assert!(!request.save);
    assert_eq!(CompilationBuilder::default().lang(), "");
}

#[test]
fn later_setting_replaces_earlier() {
    let mut builder = CompilationBuilder::new();
    builder.code("first");
    builder.code("second");
    builder.stdin("in");
    builder.save(true);
    builder.save(false);
    let request = builder.request();
    assert_eq!(request.code, "second");
    assert_eq!(request.stdin, "in");
    assert!(!request.save);
}

#[test]
fn compiler_of_second_language_resolves_to_it() {
    let wbox = catalog();
    let mut builder = CompilationBuilder::new();
    builder.target("python-3.8");
    assert!(builder.build(&wbox).is_ok());
    assert_eq!(builder.lang(), "python");
    assert_eq!(builder.request().compiler, "python-3.8");
}

#[test]
fn setters_trim_white_space() {
    let wbox = catalog();
    let mut builder = CompilationBuilder::new();
    builder.target(" \t python\n");
    builder.code("\n\n  print(1)  \r\n");
    builder.stdin("\u{a0}\u{2003}4 2\u{3000} ");
    builder.save(true);
    assert!(builder.build(&wbox).is_ok());
    let request = builder.request();
    assert_eq!(request.lang, "python");
    assert_eq!(request.compiler, "python-3.8");
    assert_eq!(request.code, "print(1)");
    assert_eq!(request.stdin, "4 2");
    assert!(request.save);
}

#[test]
fn white_space_alone_trims_to_nothing() {
    let mut builder = CompilationBuilder::new();
    builder.code("  \n\t ");
    builder.stdin("");
    let request = builder.request();
    assert_eq!(request.code, "");
    assert_eq!(request.stdin, "");
}

#[test]
fn inner_white_space_is_kept() {
    let mut builder = CompilationBuilder::new();
    builder.code(" a  b\nc ");
    assert_eq!(builder.request().code, "a  b\nc");
}

#[test]
fn options_are_joined_by_line_feeds() {
    let wbox = catalog();
    let mut builder = CompilationBuilder::new();
    builder.target("gcc-head");
    builder.options(vec![String::from("-O2"), String::from(" -g "), String::from("-Wall")]);
    assert!(builder.build(&wbox).is_ok());
    assert_eq!(builder.request().compiler_options_raw, "-O2\n -g \n-Wall");

    builder.options(vec![String::from("-O3")]);
    assert_eq!(builder.request().compiler_options_raw, "-O2\n -g \n-Wall");
    assert!(builder.build(&wbox).is_ok());
    assert_eq!(builder.request().compiler_options_raw, "-O3");

    builder.options_str(Vec::new());
    assert!(builder.build(&wbox).is_ok());
    assert_eq!(builder.request().compiler_options_raw, "");

    builder.options_str(vec!["", ""]);
    assert!(builder.build(&wbox).is_ok());
    assert_eq!(builder.request().compiler_options_raw, "\n");
}

#[test]
fn language_is_preferred_to_compiler_of_the_same_name() {
    let wbox = Wandbox::new(
        vec![compiler("zig", "Rust"), compiler("zig-0.9", "Zig"), compiler("zig-head", "Zig")],
        None,
        None,
    );
    assert!(wbox.is_valid_language("zig"));
    assert!(wbox.is_valid_compiler_str("zig"));
    let mut builder = CompilationBuilder::new();
    builder.target("zig");
    assert!(builder.build(&wbox).is_ok());
    let request = builder.request();
    assert_eq!(request.lang, "zig");
    assert_eq!(request.compiler, "zig-0.9");
}

#[test]
fn unknown_target_fails_and_keeps_the_selection() {
    let wbox = catalog();
    let mut builder = CompilationBuilder::new();
    builder.target("python");
    builder.options_str(vec!["-a"]);
    assert!(builder.build(&wbox).is_ok());

    builder.target("cobol");
    builder.options_str(vec!["-b", "-c"]);
    let failed: Result<(), WandboxError> = builder.build(&wbox);
    let e = failed.unwrap_err();
    assert_eq!(e.to_string(), "Unable to find compiler or language for target");
    assert_eq!(e.description(), UNKNOWN_TARGET);
    let request = builder.request();
    assert_eq!(request.lang, "python");
    assert_eq!(request.compiler, "python-3.8");
    assert_eq!(request.compiler_options_raw, "-b\n-c");
}

#[test]
fn unset_target_fails() {
    let wbox = catalog();
    let mut builder = CompilationBuilder::new();
    let e = builder.build(&wbox).unwrap_err();
    assert_eq!(e.to_string(), UNKNOWN_TARGET);
    let request = builder.request();
    assert_eq!(request.lang, "");
    assert_eq!(request.compiler, "");
}

#[test]
fn target_is_matched_as_written() {
    let wbox = catalog();
    let mut builder = CompilationBuilder::new();
    builder.target("C++");
    assert_eq!(builder.build(&wbox).unwrap_err().to_string(), UNKNOWN_TARGET);
    builder.target("GCC-HEAD");
    assert_eq!(builder.build(&wbox).unwrap_err().to_string(), UNKNOWN_TARGET);
}

#[test]
fn language_without_compilers_fails() {
    let wbox = Wandbox::new(
        vec![compiler("gcc-head", "C++"), compiler("python-3.8", "Python")],
        Some(vec![String::from("python-3.8")]),
        None,
    );
    let mut builder = CompilationBuilder::new();
    builder.target("c++");
    assert!(builder.build(&wbox).is_ok());
    builder.target("python");
    let e = builder.build(&wbox).unwrap_err();
    assert_eq!(e.to_string(), "Unable to determine default compiler for input language");
    assert_eq!(e.description(), NO_DEFAULT_COMPILER);
    let request = builder.request();
    assert_eq!(request.lang, "c++");
    assert_eq!(request.compiler, "gcc-head");
}

#[test]
fn excluded_target_is_not_found() {
    let wbox = Wandbox::new(
        vec![compiler("gcc-head", "C++"), compiler("python-3.8", "Python")],
        Some(vec![String::from("gcc-head")]),
        Some(vec![String::from("python")]),
    );
    let mut builder = CompilationBuilder::new();
    builder.target("gcc-head");
    assert_eq!(builder.build(&wbox).unwrap_err().to_string(), UNKNOWN_TARGET);
    builder.target("python");
    assert_eq!(builder.build(&wbox).unwrap_err().to_string(), UNKNOWN_TARGET);
    builder.target("python-3.8");
    assert_eq!(builder.build(&wbox).unwrap_err().to_string(), UNKNOWN_TARGET);
}

#[test]
fn error_keeps_its_message() {
    let e = WandboxError::new("connection refused");
    assert_eq!(e.description(), "connection refused");
    assert_eq!(e.to_string(), "connection refused");
    assert_eq!(WandboxError::new("").to_string(), "");
}

#[test]
fn unreadable_reply_names_the_status() {
    let e = WandboxError::unreadable_reply("502 Bad Gateway");
    assert_eq!(
        e.to_string(),
        "Wandbox replied with: 502 Bad Gateway\nThis could mean WandBox is experiencing an outage, or a network connection error has occured"
    );
}

#[test]
fn reply_becomes_result_or_error() {
    let failed = Reply::Failed { cause: String::from("dns error") };
    assert_eq!(failed.into_result().err().unwrap().to_string(), "dns error");

    let unreadable = Reply::Unreadable { status: Status::new(200).unwrap() };
    assert_eq!(
        unreadable.into_result().err().unwrap().to_string(),
        "Wandbox replied with: 200 OK\nThis could mean WandBox is experiencing an outage, or a network connection error has occured"
    );

    let mut result = CompilationResult::default();
    result.status = String::from("1");
    result.compiler_stderr = String::from("error: expected ';'");
    result.url = String::from("https://wandbox.org/permlink/abc");
    let read = Reply::Read { result }.into_result().ok().unwrap();
    assert_eq!(read.status, "1");
    assert_eq!(read.compiler_stderr, "error: expected ';'");
    assert_eq!(read.url, "https://wandbox.org/permlink/abc");
    assert_eq!(read.program_all, "");
}

#[test]
fn unreadable_reply_carries_the_status_line() {
    let unreadable = Reply::Unreadable { status: Status::new(502).unwrap() };
    assert_eq!(
        unreadable.into_result().err().unwrap().description(),
        "Wandbox replied with: 502 Bad Gateway\nThis could mean WandBox is experiencing an outage, or a network connection error has occured"
    );
}

#[test]
fn status_line_is_code_and_reason() {
    assert_eq!(Status::new(200).unwrap().line(), "200 OK");
    assert_eq!(Status::new(404).unwrap().line(), "404 Not Found");
    assert_eq!(Status::new(100).unwrap().line(), "100 Continue");
    assert_eq!(Status::new(599).unwrap().line(), "599 <unknown status code>");
    assert_eq!(Status::new(999).unwrap().line(), "999 <unknown status code>");
}

#[test]
fn status_code_has_three_digits() {
    assert!(Status::new(0).is_none());
    assert!(Status::new(99).is_none());
    assert!(Status::new(1000).is_none());
    assert!(Status::new(u16::MAX).is_none());
    assert_eq!(Status::new(100).map(|s| s.code()), Some(100));
    assert_eq!(Status::new(999).map(|s| s.code()), Some(999));
    assert_eq!(Status::new(503).map(|s| s.code()), Some(503));
}

#[test]
fn default_result_is_empty() {
    let r = CompilationResult::default();
    assert_eq!(r.status, "");
    assert_eq!(r.signal, "");
    assert_eq!(r.compiler_stdout, "");
    assert_eq!(r.compiler_stderr, "");
    assert_eq!(r.compiler_all, "");
    assert_eq!(r.program_stdout, "");
    assert_eq!(r.program_stderr, "");
    assert_eq!(r.program_all, "");
    assert_eq!(r.permlink, "");
    assert_eq!(r.url, "");
}

#[test]
fn result_describes_itself() {
    let mut r = CompilationResult::default();
    r.status = String::from("0");
    r.signal = String::from("Killed");
    r.compiler_all = String::from("warning: unused");
    r.program_all = String::from("42");
    assert_eq!(r.describe(), "[0 Killed] warning: unused: 42");
    assert_eq!(CompilationResult::default().describe(), "[ ] : ");
}
