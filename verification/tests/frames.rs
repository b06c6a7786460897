use witcher::backtrace::{new, pick_path, simple_path, simplify, simplify_all, Frame, RawFrame};
use witcher::error::type_label;
use witcher::text::{contains, decimal_of, join_lines, same_text, starts_with};

fn frame(symbol: &str, filename: &str) -> Frame {
    Frame { symbol: symbol.to_string(), filename: filename.to_string(), lineno: None, column: None }
}

#[test]
fn test_simple_path() {
    let cwd = "/home/user/project";
    assert_eq!("foo", simple_path(Some("/home/user/project/foo"), Some(cwd)));
    assert_eq!("foobar", simple_path(Some("/home/user/project/foobar"), Some(cwd)));
    assert_eq!(
        "/rustc/123/src/libstd/foobar",
        simple_path(Some("/rustc/123/src/libstd/foobar"), Some(cwd))
    );
    assert_eq!("<unknown>", simple_path(None, Some(cwd)));
}

#[test]
fn simple_path_goes_by_components() {
    let cwd = "/home/user/project";
    assert_eq!("src/main.rs", simple_path(Some("/home/user/project/src/main.rs"), Some(cwd)));
    assert_eq!("/home/user/project2/src/main.rs", simple_path(Some("/home/user/project2/src/main.rs"), Some(cwd)));
    assert_eq!("", simple_path(Some("/home/user/project"), Some(cwd)));
    assert_eq!("src/main.rs", simple_path(Some("src/main.rs"), Some(cwd)));
    assert_eq!("/home/user/project/foo", simple_path(Some("/home/user/project/foo"), None));
    assert_eq!("<unknown>", simple_path(None, None));
}

#[test]
fn pick_path_takes_what_stripping_gave() {
    assert_eq!("b", pick_path(Some("/a/b"), Some("b".to_string())));
    assert_eq!("/a/b", pick_path(Some("/a/b"), None));
    assert_eq!("<unknown>", pick_path(None, None));
    assert_eq!("<unknown>", pick_path(None, Some("b".to_string())));
}

#[test]
fn dependency_frames() {
    // symbol prefixes
    assert!(frame("std::rt::lang_start", "src/main.rs").is_dependency());
    assert!(frame("core::ops::function::FnOnce::call_once", "src/main.rs").is_dependency());
    assert!(frame("witcher::error::Error::raw", "src/main.rs").is_dependency());
    assert!(frame("<witcher::error::Error as core::fmt::Debug>::fmt", "src/main.rs").is_dependency());
    assert!(frame("witcher::backtrace::new", "src/main.rs").is_dependency());
    assert!(frame("backtrace::backtrace::trace", "x").is_dependency());
    assert!(frame("_rust_begin_unwind", "x").is_dependency());
    assert!(frame("color_traceback::x", "x").is_dependency());
    assert!(frame("__rust_maybe_catch_panic", "x").is_dependency());
    assert!(frame("___rust_maybe_catch_panic", "x").is_dependency());
    assert!(frame("__pthread_body", "x").is_dependency());
    assert!(frame("_main", "x").is_dependency());
    assert!(frame("main", "x").is_dependency());
    assert!(frame("mainly", "x").is_dependency());
    assert!(frame("__scrt_common_main_seh", "x").is_dependency());
    assert!(frame("BaseThreadInitThunk", "x").is_dependency());
    assert!(frame("_start", "x").is_dependency());
    assert!(frame("__libc_start_main", "x").is_dependency());
    assert!(frame("start_thread", "x").is_dependency());
    assert!(frame("__GI__clone", "x").is_dependency());
    // symbol fragment
    assert!(frame("<core::result::Result<T,E> as witcher::wrapper::Wrapper<T,E>>::wrap", "x").is_dependency());
    // file prefixes
    assert!(frame("app::run", "/rustc/123/src/libstd/foobar").is_dependency());
    assert!(frame("app::run", "src/libstd/rt.rs").is_dependency());
    assert!(frame("app::run", "src/libpanic_unwind/lib.rs").is_dependency());
    assert!(frame("app::run", "src/libtest/lib.rs").is_dependency());
    // file fragment
    assert!(frame("app::run", "/home/u/.cargo/registry/src/github.com-1ecc/x/lib.rs").is_dependency());
    // the caller's own
    assert!(!frame("app::run", "src/run.rs").is_dependency());
    assert!(!frame("app::main", "src/main.rs").is_dependency());
    assert!(!frame("my::std::thing", "x/src/libstd/rt.rs").is_dependency());
    assert!(!frame("witcher::wrapper::x", "a/rustc/b").is_dependency());
    assert!(!frame("<unknown>", "<unknown>").is_dependency());
    assert!(!frame("", "").is_dependency());
    assert!(!frame("st", "/rustc").is_dependency());
}

#[test]
fn simplify_fills_in_the_sentinels() {
    let raw = RawFrame { symbol: None, filename: None, lineno: None, column: Some(3) };
    let f = simplify(&raw, Some("/w"));
    assert_eq!("<unknown>", f.symbol);
    assert_eq!("<unknown>", f.filename);
    assert_eq!(None, f.lineno);
    assert_eq!(Some(3), f.column);

    let raw = RawFrame {
        symbol: Some("app::run".to_string()),
        filename: Some("/w/src/run.rs".to_string()),
        lineno: Some(12),
        column: None,
    };
    let f = simplify(&raw, Some("/w"));
    assert_eq!("app::run", f.symbol);
    assert_eq!("src/run.rs", f.filename);
    assert_eq!(Some(12), f.lineno);
    assert_eq!(None, f.column);
    let f = simplify(&raw, Some("/elsewhere"));
    assert_eq!("/w/src/run.rs", f.filename);
}

#[test]
fn simplify_all_keeps_the_order() {
    let raw = vec![
        RawFrame { symbol: Some("a".to_string()), filename: Some("/w/a.rs".to_string()), lineno: Some(1), column: Some(2) },
        RawFrame { symbol: None, filename: None, lineno: None, column: None },
        RawFrame { symbol: Some("c".to_string()), filename: Some("/x/c.rs".to_string()), lineno: None, column: None },
    ];
    let frames = simplify_all(&raw, Some("/w"));
    assert_eq!(3, frames.len());
    assert_eq!("a", frames[0].symbol);
    assert_eq!("a.rs", frames[0].filename);
    assert_eq!("<unknown>", frames[1].symbol);
    assert_eq!("<unknown>", frames[1].filename);
    assert_eq!("c", frames[2].symbol);
    assert_eq!("/x/c.rs", frames[2].filename);
    assert!(simplify_all(&Vec::new(), None).is_empty());
}

#[test]
fn capture_gives_whole_frames() {
    let frames = new(None);
    assert!(!frames.is_empty());
    assert!(frames.iter().all(|f| !f.symbol.is_empty() && !f.filename.is_empty()));
    assert!(frames.iter().all(|f| f.lineno.is_some() || f.filename != ""));
}

#[test]
fn labels() {
    assert_eq!("witcher::Error", type_label("witcher::error::Error"));
    assert_eq!("witcher::Error", type_label("&witcher::error::Error"));
    assert_eq!("witcher::Error", type_label("&&witcher::error::Error"));
    assert_eq!("std::error::Error", type_label("dyn std::error::Error"));
    assert_eq!("std::error::Error", type_label("&dyn std::error::Error"));
    assert_eq!("std::error::Error", type_label("dyn dyn std::error::Error"));
    assert_eq!("alloc::boxed::Box", type_label("alloc::boxed::Box<dyn std::error::Error>"));
    assert_eq!("std::io::error::Error", type_label("std::io::error::Error"));
    assert_eq!("a::B", type_label("a::B<c::D<e::F>>"));
    assert_eq!("", type_label(""));
    assert_eq!("", type_label("<T>"));
    assert_eq!("", type_label("&"));
    assert_eq!("dyn", type_label("dyn"));
    assert_eq!("mut T", type_label("&mut T"));
    assert_eq!("witcher::error::Errors", type_label("witcher::error::Errors"));
    assert_eq!("witcher::Error", type_label("witcher::error::Error<T>"));
    assert_eq!("é::ü", type_label("&é::ü<ö>"));
}

#[test]
fn text_helpers() {
    assert!(starts_with("std::rt", "std::"));
    assert!(starts_with("std::", "std::"));
    assert!(starts_with("abc", ""));
    assert!(starts_with("", ""));
    assert!(!starts_with("std:", "std::"));
    assert!(!starts_with("xstd::", "std::"));
    assert!(contains("a/.cargo/b", "/.cargo/"));
    assert!(contains("abc", "c"));
    assert!(contains("abc", "abc"));
    assert!(contains("abc", ""));
    assert!(contains("", ""));
    assert!(!contains("abc", "abcd"));
    assert!(!contains("abc", "ac"));
    assert!(!contains("", "a"));
    assert!(contains("ééü", "éü"));
    assert!(same_text("abc", "abc"));
    assert!(same_text("", ""));
    assert!(!same_text("abc", "abd"));
    assert!(!same_text("abc", "ab"));
    assert!(!same_text("ab", "abc"));
    assert_eq!("0", decimal_of(0));
    assert_eq!("7", decimal_of(7));
    assert_eq!("10", decimal_of(10));
    assert_eq!("4294967295", decimal_of(u32::MAX));
    assert_eq!("1203", decimal_of(1203));
    assert_eq!("", join_lines(&Vec::new()));
    assert_eq!("a", join_lines(&vec!["a".to_string()]));
    assert_eq!("a\nb\n\nc", join_lines(&vec!["a".to_string(), "b".to_string(), "".to_string(), "c".to_string()]));
    assert_eq!("\n", join_lines(&vec!["".to_string(), "".to_string()]));
}
