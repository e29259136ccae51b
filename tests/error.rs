use std::cmp::Ordering;

use navda::config::join_path;
use navda::error::indent_str;
use navda::{compare_errors, AvError, ClientState, Config, Indentable, SourceLocation, Traceable, TraceableError, XdgBaseDir};

#[test]
fn derive() {
    struct Error;

    impl AvError for Error {
        fn code(&self) -> String {
            "TEST_DERIVE_ERROR".to_string()
        }

        fn title(&self) -> String {
            "Test Error".to_string()
        }
    }

    let test: Error = Error;
    println!("{}: {}", test.code(), test.title());
    assert_eq!(test.title(), "Test Error");
    assert_eq!(test.body(), "");
}

#[test]
fn locatable() {
    struct Locatable(Traceable);

    impl AvError for Locatable {
        fn code(&self) -> String {
            "TEST_DERIVE_ERROR".to_string()
        }

        fn title(&self) -> String {
            "Test Error".to_string()
        }
    }

    impl TraceableError for Locatable {
        fn location(&self) -> &Traceable {
            &self.0
        }

        fn description(&self) -> String {
            "Test Traceable thing!".into()
        }
    }

    let test: Locatable = Locatable(Traceable { path: "src/core/error.rs".to_string(), line: 203, column: 20 });
    println!("{}", TraceableError::body(&test));
    assert_eq!(TraceableError::body(&test), "Test Traceable thing!\nat src/core/error.rs:203:20\n");
}

#[test]
fn traceable_positions() {
    let t = Traceable::new("a.jsonc".to_string(), (3, 7));
    assert_eq!(t.to_string(), "a.jsonc:3:7");
    let i = t.at_index(4);
    assert_eq!((i.line, i.column), (3, 12));
    let l = t.at_loc((10, 0));
    assert_eq!(l.to_string(), "a.jsonc:10:0");
    assert_eq!(l.path, "a.jsonc");
}

#[test]
fn compare_by_file_line_column() {
    let a = Traceable::new("f".to_string(), (2, 5));
    let b = Traceable::new("f".to_string(), (2, 9));
    let c = Traceable::new("f".to_string(), (1, 50));
    let d = Traceable::new("g".to_string(), (2, 5));
    assert_eq!(compare_errors(&a, &b), Some(Ordering::Less));
    assert_eq!(compare_errors(&a, &c), Some(Ordering::Greater));
    assert_eq!(compare_errors(&a, &a.clone()), Some(Ordering::Equal));
    assert_eq!(compare_errors(&a, &d), None);
}

#[test]
fn indent_every_line() {
    assert_eq!("a\nb".indent(1), "  a\n  b");
    assert_eq!(String::from("x").indent(2), "    x");
    assert_eq!("".indent(1), "  ");
    assert_eq!(indent_str("\n", 1), " \n ");
}

#[test]
fn config_path_in_base_directory() {
    assert_eq!(Config::path("/home/u/.config"), "/home/u/.config/avdan/Compositor.jsonc");
    assert_eq!(Config::path("/cfg/"), "/cfg/avdan/Compositor.jsonc");
    assert_eq!(join_path("", "x"), "x");
}

#[test]
fn xdg_base_dirs_resolve() {
    assert_eq!(XdgBaseDir::Config.env_variable(), "XDG_CONFIG_HOME");
    assert_eq!(XdgBaseDir::Data.home_relative(), ".local/share");
    assert_eq!(XdgBaseDir::Config.resolve(Some("/xdg"), true, "/home/u"), "/xdg");
    assert_eq!(XdgBaseDir::Config.resolve(Some("/xdg"), false, "/home/u"), "/home/u/.config");
    assert_eq!(XdgBaseDir::State.resolve(None, false, "/home/u"), "/home/u/.local/state");
}

#[test]
fn client_state_default() {
    assert_eq!(ClientState::default(), ClientState { id: 0 });
}

#[test]
fn combine_picks_key_or_value() {
    let p = "c.jsonc".to_string();
    let kv = SourceLocation::KeyValue((4, 2), (4, 9));
    assert_eq!(Traceable::combine(&p, &kv, Some(true)).to_string(), "c.jsonc:4:2");
    assert_eq!(Traceable::combine(&p, &kv, Some(false)).to_string(), "c.jsonc:4:9");
    assert_eq!(Traceable::combine(&p, &SourceLocation::Value((8, 1)), None).to_string(), "c.jsonc:8:1");
}
