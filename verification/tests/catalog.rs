use wandbox::cache::load;
use wandbox::{Compiler, Language, Wandbox};

fn compiler(name: &str, language: &str) -> Compiler {
    Compiler {
        compiler_option_raw: false,
        display_compile_command: format!("{} prog.src", name),
        runtime_option_raw: true,
        version: String::from("1.0"),
        language: String::from(language),
        name: String::from(name),
    }
}

fn listing() -> Vec<Compiler> {
    vec![
        compiler("gcc-6.3.0", "C++"),
        compiler("gcc-head", "C++"),
        compiler("python-3.8", "Python"),
    ]
}

fn names(compilers: &[Compiler]) -> Vec<String> {
    compilers.iter().map(|c| c.name.clone()).collect()
}

fn group_names(groups: &[Language]) -> Vec<String> {
    groups.iter().map(|g| g.name.clone()).collect()
}

fn set(names: &[&str]) -> Option<Vec<String>> {
    Some(names.iter().map(|s| s.to_string()).collect())
}

#[test]
fn is_valid_language() {
    let wbox = Wandbox::new(listing(), None, None);
    for v in wbox.get_languages() {
        assert!(wbox.is_valid_language(&v.name));
        assert!(wbox.get_default_compiler(&v.name).is_some());
    }
}

#[test]
fn get_default_controller() {
    let wbox = Wandbox::new(listing(), None, None);
    for v in wbox.get_languages() {
        assert!(wbox.get_default_compiler(&v.name).is_some());
    }
}

#[test]
fn is_valid_compiler_str() {
    let wbox = Wandbox::new(listing(), None, None);
    assert!(wbox.is_valid_compiler_str("gcc-head"));
}

#[test]
fn ignore_broken_compiler() {
    let wbox = Wandbox::new(listing(), set(&["gcc-head"]), None);
    assert!(!wbox.is_valid_compiler_str("gcc-head"));
}

#[test]
fn fixture_round_trip() {
    let wbox = Wandbox::new(listing(), None, None);
    let mut keys = group_names(&wbox.get_languages());
    keys.sort();
    assert_eq!(keys, vec!["c++", "python"]);
    assert_eq!(wbox.get_default_compiler("c++"), Some(String::from("gcc-6.3.0")));
    assert!(wbox.is_valid_compiler_str("gcc-head"));

    let rebuilt = Wandbox::new(listing(), set(&["gcc-head"]), None);
    assert!(!rebuilt.is_valid_compiler_str("gcc-head"));
    assert!(rebuilt.is_valid_language("c++"));
    assert_eq!(rebuilt.get_default_compiler("c++"), Some(String::from("gcc-6.3.0")));
}

#[test]
fn language_names_are_lowered() {
    let wbox = Wandbox::new(vec![compiler("gcc-head", "C++")], None, None);
    let groups = wbox.get_languages();
    assert_eq!(groups.len(), 1);
    assert_eq!(groups[0].name, "c++");
    assert_eq!(groups[0].compilers.len(), 1);
    assert_eq!(groups[0].compilers[0].language, "c++");
    assert_eq!(groups[0].compilers[0].name, "gcc-head");
    assert!(wbox.is_valid_language("c++"));
    assert!(!wbox.is_valid_language("C++"));
    assert!(wbox.get_compilers("C++").is_none());
}

#[test]
fn only_ascii_letters_are_lowered() {
    let wbox = Wandbox::new(vec![compiler("x", "\u{c4}B-Z@[`{0")], None, None);
    let groups = wbox.get_languages();
    assert_eq!(groups[0].name, "\u{c4}b-z@[`{0");
    assert_eq!(groups[0].compilers[0].language, "\u{c4}b-z@[`{0");
}

#[test]
fn load_groups_in_listing_order() {
    let cache = load(vec![
        compiler("ghc-9", "Haskell"),
        compiler("gcc-6.3.0", "C++"),
        compiler("ghc-8", "haskell"),
        compiler("clang-head", "c++"),
        compiler("gcc-head", "C++"),
    ]);
    assert_eq!(group_names(&cache), vec!["haskell", "c++"]);
    assert_eq!(names(&cache[0].compilers), vec!["ghc-9", "ghc-8"]);
    assert_eq!(names(&cache[1].compilers), vec!["gcc-6.3.0", "clang-head", "gcc-head"]);
    assert_eq!(cache[0].compilers[0].language, "Haskell");
    assert_eq!(cache[1].compilers[1].language, "c++");
    assert_eq!(cache[1].compilers[2].language, "C++");
}

#[test]
fn load_keeps_every_field() {
    let cache = load(vec![Compiler {
        compiler_option_raw: true,
        display_compile_command: String::from("rustc prog.rs"),
        runtime_option_raw: false,
        version: String::from("1.82.0"),
        language: String::from("Rust"),
        name: String::from("rust-1.82.0"),
    }]);
    assert_eq!(cache.len(), 1);
    let c = &cache[0].compilers[0];
    assert!(c.compiler_option_raw);
    assert!(!c.runtime_option_raw);
    assert_eq!(c.display_compile_command, "rustc prog.rs");
    assert_eq!(c.version, "1.82.0");
    assert_eq!(c.language, "Rust");
    assert_eq!(c.name, "rust-1.82.0");
}

#[test]
fn empty_listing_gives_empty_catalog() {
    assert!(load(Vec::new()).is_empty());
    let wbox = Wandbox::new(Vec::new(), None, None);
    assert!(wbox.get_languages().is_empty());
    assert!(!wbox.is_valid_language("c++"));
    assert!(!wbox.is_valid_language(""));
    assert!(!wbox.is_valid_compiler_str("gcc-head"));
    assert!(wbox.get_compilers("c++").is_none());
    assert!(wbox.get_compiler_language_str("gcc-head").is_none());
    assert!(wbox.get_default_compiler("c++").is_none());
    assert!(wbox.try_default_compiler("c++").is_none());
}

#[test]
fn get_compilers_copies_the_group() {
    let wbox = Wandbox::new(listing(), None, None);
    let list = wbox.get_compilers("c++").unwrap();
    assert_eq!(names(&list), vec!["gcc-6.3.0", "gcc-head"]);
    for c in &list {
        assert_eq!(c.language, "c++");
        assert_eq!(c.version, "1.0");
        assert!(c.runtime_option_raw);
        assert!(!c.compiler_option_raw);
    }
    assert_eq!(list[1].display_compile_command, "gcc-head prog.src");
    let list = wbox.get_compilers("python").unwrap();
    assert_eq!(names(&list), vec!["python-3.8"]);
    assert!(wbox.get_compilers("rust").is_none());
}

#[test]
fn default_compiler_is_listed_for_its_language() {
    let wbox = Wandbox::new(listing(), None, set(&["python"]));
    for group in wbox.get_languages() {
        let default = wbox.get_default_compiler(&group.name).unwrap();
        let list = wbox.get_compilers(&group.name).unwrap();
        assert!(list.iter().any(|c| c.name == default));
        assert_eq!(list[0].name, default);
    }
}

#[test]
fn excluded_compiler_is_unknown() {
    let wbox = Wandbox::new(listing(), set(&["gcc-6.3.0", "python-3.8"]), None);
    assert!(!wbox.is_valid_compiler_str("gcc-6.3.0"));
    assert!(wbox.get_compiler_language_str("gcc-6.3.0").is_none());
    assert!(!wbox.is_valid_compiler_str("python-3.8"));
    assert!(wbox.get_compiler_language_str("python-3.8").is_none());
    assert!(wbox.is_valid_compiler_str("gcc-head"));
    assert_eq!(wbox.get_compiler_language_str("gcc-head"), Some(String::from("c++")));
    assert_eq!(wbox.get_default_compiler("c++"), Some(String::from("gcc-head")));
}

#[test]
fn excluded_language_is_unknown() {
    let wbox = Wandbox::new(listing(), None, set(&["c++"]));
    assert!(!wbox.is_valid_language("c++"));
    assert!(wbox.get_compilers("c++").is_none());
    assert!(wbox.get_default_compiler("c++").is_none());
    assert!(!wbox.is_valid_compiler_str("gcc-head"));
    assert!(wbox.is_valid_language("python"));
    assert_eq!(group_names(&wbox.get_languages()), vec!["python"]);
}

#[test]
fn languages_are_excluded_by_their_lower_case_name() {
    let wbox = Wandbox::new(listing(), None, set(&["C++", "Python"]));
    assert!(!wbox.is_valid_language("C++"));
    assert!(wbox.get_compilers("C++").is_none());
    assert!(wbox.is_valid_language("c++"));
    assert!(wbox.is_valid_language("python"));
}

#[test]
fn emptied_group_stays_without_default() {
    let wbox = Wandbox::new(listing(), set(&["python-3.8"]), None);
    assert!(wbox.is_valid_language("python"));
    assert_eq!(wbox.get_compilers("python").map(|list| list.len()), Some(0));
    assert_eq!(wbox.try_default_compiler("python"), None);
    assert_eq!(wbox.try_default_compiler("c++"), Some(String::from("gcc-6.3.0")));
    assert_eq!(wbox.try_default_compiler("rust"), None);
    assert_eq!(group_names(&wbox.get_languages()), vec!["c++", "python"]);
}

#[test]
fn empty_exclusions_change_nothing() {
    let wbox = Wandbox::new(listing(), set(&[]), set(&[]));
    assert_eq!(group_names(&wbox.get_languages()), vec!["c++", "python"]);
    assert_eq!(names(&wbox.get_compilers("c++").unwrap()), vec!["gcc-6.3.0", "gcc-head"]);
}

#[test]
fn repeated_exclusions_count_once() {
    let wbox = Wandbox::new(listing(), set(&["gcc-head", "gcc-head", "nothing"]), None);
    assert_eq!(names(&wbox.get_compilers("c++").unwrap()), vec!["gcc-6.3.0"]);
    assert_eq!(names(&wbox.get_compilers("python").unwrap()), vec!["python-3.8"]);
}

#[test]
fn compiler_language_is_the_first_group_that_lists_it() {
    let wbox = Wandbox::new(
        vec![compiler("a", "One"), compiler("shared", "Two"), compiler("shared", "One")],
        None,
        None,
    );
    assert_eq!(wbox.get_compiler_language_str("shared"), Some(String::from("one")));
    assert_eq!(wbox.get_compiler_language_str("a"), Some(String::from("one")));
    assert_eq!(wbox.get_compiler_language_str("b"), None);
    let wbox = Wandbox::new(
        vec![compiler("shared", "Two"), compiler("shared", "One")],
        None,
        None,
    );
    assert_eq!(wbox.get_compiler_language_str("shared"), Some(String::from("two")));
}

#[test]
fn names_are_compared_exactly() {
    let wbox = Wandbox::new(listing(), None, None);
    assert!(!wbox.is_valid_compiler_str("gcc"));
    assert!(!wbox.is_valid_compiler_str("gcc-head "));
    assert!(!wbox.is_valid_compiler_str("GCC-HEAD"));
    assert!(!wbox.is_valid_compiler_str(""));
    assert!(!wbox.is_valid_language("c+"));
    assert!(!wbox.is_valid_language("c++ "));
    assert!(!wbox.is_valid_language("gcc-head"));
}

#[test]
fn remove_compiler_keeps_the_others_in_order() {
    let mut group = Language {
        name: String::from("c++"),
        compilers: vec![
            compiler("a", "c++"),
            compiler("b", "c++"),
            compiler("a", "c++"),
            compiler("c", "c++"),
        ],
    };
    group.remove_compiler("a");
    assert_eq!(group.name, "c++");
    assert_eq!(names(&group.compilers), vec!["b", "c"]);
    group.remove_compiler("x");
    assert_eq!(names(&group.compilers), vec!["b", "c"]);
    group.remove_compiler("c");
    group.remove_compiler("b");
    assert!(group.compilers.is_empty());
}

#[test]
fn clones_are_equal_field_by_field() {
    let c = Compiler {
        compiler_option_raw: true,
        display_compile_command: String::from("gcc prog.c"),
        runtime_option_raw: false,
        version: String::from("6.3.0"),
        language: String::from("C"),
        name: String::from("gcc-6.3.0-c"),
    };
    let d = c.clone();
    assert_eq!(d.compiler_option_raw, c.compiler_option_raw);
    assert_eq!(d.display_compile_command, c.display_compile_command);
    assert_eq!(d.runtime_option_raw, c.runtime_option_raw);
    assert_eq!(d.version, c.version);
    assert_eq!(d.language, c.language);
    assert_eq!(d.name, c.name);
    let group = Language { name: String::from("c"), compilers: vec![c, d] };
    let copy = group.clone();
    assert_eq!(copy.name, "c");
    assert_eq!(names(&copy.compilers), vec!["gcc-6.3.0-c", "gcc-6.3.0-c"]);
}

#[test]
fn equality_goes_by_every_field() {
    let a = compiler("gcc-head", "c++");
    assert!(a == a.clone());
    assert!(a != compiler("gcc-head", "C++"));
    assert!(a != compiler("gcc-6.3.0", "c++"));
    let mut b = a.clone();
    b.compiler_option_raw = true;
    assert!(a != b);
    let mut b = a.clone();
    b.runtime_option_raw = false;
    assert!(a != b);
    let mut b = a.clone();
    b.version = String::from("2.0");
    assert!(a != b);
    let mut b = a.clone();
    b.display_compile_command = String::new();
    assert!(a != b);

    let group = Language { name: String::from("c++"), compilers: vec![a.clone(), b.clone()] };
    assert_eq!(group, group.clone());
    assert_ne!(group, Language { name: String::from("c"), compilers: vec![a.clone(), b.clone()] });
    assert_ne!(group, Language { name: String::from("c++"), compilers: vec![a.clone()] });
    assert_ne!(
        group,
        Language { name: String::from("c++"), compilers: vec![b.clone(), a.clone()] }
    );
    assert_eq!(
        Wandbox::new(vec![compiler("gcc-head", "C++")], None, None).get_languages(),
        vec![Language { name: String::from("c++"), compilers: vec![a] }]
    );
}

#[test]
fn compiler_describes_itself() {
    let c = Compiler {
        compiler_option_raw: true,
        display_compile_command: String::from("gcc prog.c"),
        runtime_option_raw: false,
        version: String::from("6.3.0"),
        language: String::from("c"),
        name: String::from("gcc-6.3.0-c"),
    };
    assert_eq!(c.describe(), "[gcc-6.3.0-c 6.3.0] : c");
}
