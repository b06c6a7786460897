use std::any::TypeId;
use witcher::backtrace::Frame;
use witcher::error::{Cause, Error, External, Link, TypeTag};
use witcher::term::Colorized;

fn tag<T: 'static>() -> TypeTag {
    TypeTag::Foreign(TypeId::of::<T>())
}

struct TestError;

const TEST_ERROR: &str = "witcher::error::tests::TestError";

fn plain() -> Colorized {
    Colorized { colorized: false }
}

fn test_error(msg: &str, inner: Option<External>) -> External {
    External::new(TypeId::of::<TestError>(), TEST_ERROR, msg, inner)
}

fn frame(symbol: &str, filename: &str, lineno: Option<u32>, column: Option<u32>) -> Frame {
    Frame { symbol: symbol.to_string(), filename: filename.to_string(), lineno, column }
}

#[test]
fn test_output_levels() {
    // Terse
    assert_eq!("wrapped", Error::wrapr(test_error("cause", None), "wrapped", None).to_string());

    // Summarized
    assert_eq!(
        " error: wrapped\n cause: witcher::error::tests::TestError: cause",
        Error::wrapr(test_error("cause", None), "wrapped", None).summarized(&plain())
    );

    // Full, up to the first frame
    let err = Error::around(
        Cause::Foreign(test_error("cause", None)),
        "wrapped",
        vec![frame("app::run", "src/run.rs", Some(3), Some(9))],
    );
    assert_eq!(
        " error: wrapped\n cause: witcher::error::tests::TestError: cause\n",
        err.full(&plain(), false).split("symbol").next().unwrap()
    );
    let err = Error::wrapr(test_error("cause", Some(test_error("cause2", None))), "wrapped", None);
    assert_eq!(
        " error: wrapped\n cause: witcher::error::tests::TestError: cause\n cause: cause2\n",
        err.full(&plain(), true).split("symbol").next().unwrap()
    );
}

#[test]
fn test_chained_cause() {
    let err = test_error("cause 1", Some(test_error("cause 2", Some(test_error("cause 3", None)))));
    assert_eq!(
        " error: wrapped\n cause: witcher::error::tests::TestError: cause 1\n cause: cause 2\n cause: cause 3",
        Error::wrapr(err, "wrapped", None).summarized(&plain())
    );
}

#[test]
fn test_ext_and_last() {
    let err = test_error("cause 1", Some(test_error("cause 2", Some(test_error("cause 3", None)))));
    assert_eq!("foo", Error::wrapr(test_error("cause 1", None), "foo", None).to_string());
    assert_eq!("cause 1", Error::wrapr(test_error("cause 1", None), "foo", None).ext().to_string());
    assert_eq!("cause 3", Error::wrapr(err, "foo", None).last().to_string());
}

#[test]
fn test_assist_methods() {
    assert!(Error::raw("", None).is(TypeTag::Chain));
    assert!(Error::raw("", None).downcast_ref(TypeTag::Chain).is_some());
    assert!(Error::raw("", None).downcast_mut(TypeTag::Chain).is_some());
}

#[test]
fn test_bail() {
    assert_eq!("oh no!", Error::new::<()>("oh no!", None).unwrap_err().to_string());
    assert_eq!("foo: oh no!", Error::new::<()>(&format!("foo: {}", "oh no!"), None).unwrap_err().to_string());
}

#[test]
fn test_err() {
    assert_eq!("oh no!", Error::raw("oh no!", None).to_string());
    assert_eq!("foo: oh no!", Error::raw(&format!("foo: {}", "oh no!"), None).to_string());
}

fn io_error(msg: &str) -> External {
    External::new(TypeId::of::<std::io::Error>(), "std::io::error::Error", msg, None)
}

#[test]
fn test_wrap() {
    let simple = || Error::wrap::<(), External>(io_error("oh no!"), "simple_wrap", None);
    let formatted = || Error::wrap::<(), External>(io_error("oh no!"), &format!("foo: {}", "simple_wrap"), None);
    assert_eq!("simple_wrap", simple().unwrap_err().to_string());
    assert_eq!(
        " error: simple_wrap\n cause: std::io::error::Error: oh no!",
        simple().unwrap_err().summarized(&plain())
    );
    assert_eq!("foo: simple_wrap", formatted().unwrap_err().to_string());
    assert_eq!(
        " error: foo: simple_wrap\n cause: std::io::error::Error: oh no!",
        formatted().unwrap_err().summarized(&plain())
    );
}

#[test]
fn scenario_three_nodes() {
    let root = Error::raw("root", None);
    let ctx1 = Error::wrapr(root, "ctx1", None);
    let ctx2 = Error::wrapr(ctx1, "ctx2", None);
    assert_eq!("ctx2", ctx2.to_string());
    assert_eq!(" error: ctx2\n error: ctx1\n error: root", ctx2.summarized(&plain()));
    match ctx2.last() {
        Link::Node(node) => assert_eq!("root", node.to_string()),
        Link::Foreign(_) => panic!("the innermost link is a chain node"),
    }
    assert_eq!("root", ctx2.last().to_string());
    // without an external cause the anchor is the outermost node
    assert_eq!("ctx2", ctx2.ext().to_string());
    assert!(ctx2.ext().is(TypeTag::Chain));
}

#[test]
fn scenario_foreign_two_levels() {
    let foreign = test_error("cause1", Some(test_error("cause2", None)));
    let err = Error::wrapr(foreign, "wrapped", None);
    let label = err.label();
    assert_eq!(TEST_ERROR, label);
    assert_eq!(
        format!(" error: wrapped\n cause: {}: cause1\n cause: cause2", label),
        err.summarized(&plain())
    );
}

#[test]
fn summarized_puts_foreign_errors_behind_all_nodes() {
    let inner = Error::wrapr(io_error("disk full"), "saving", None);
    let outer = Error::wrapr(inner, "closing", None);
    assert_eq!("closing", outer.to_string());
    assert_eq!(
        " error: closing\n error: saving\n cause: std::io::error::Error: disk full",
        outer.summarized(&plain())
    );
    assert_eq!("witcher::Error", outer.label());
    assert_eq!("disk full", outer.ext().to_string());
    assert_eq!("disk full", outer.last().to_string());
    assert!(outer.ext().is(tag::<std::io::Error>()));
    assert!(!outer.ext().is(TypeTag::Chain));
    assert!(!outer.ext().is(tag::<TestError>()));
    assert!(outer.is(TypeTag::Chain));
    assert!(!outer.is(tag::<std::io::Error>()));
}

#[test]
fn full_shows_contributed_frames() {
    let inner_frames = vec![
        frame("app::load", "src/load.rs", Some(10), Some(5)),
        frame("std::rt::lang_start", "/rustc/abc/library/std/src/rt.rs", Some(1), None),
        frame("app::run", "src/run.rs", Some(20), None),
        frame("app::main", "src/main.rs", None, Some(7)),
    ];
    let outer_frames = vec![
        frame("core::ops::function::FnOnce::call_once", "<unknown>", None, None),
        frame("app::run", "src/run.rs", Some(22), Some(9)),
        frame("app::main", "src/main.rs", Some(3), Some(1)),
    ];
    let inner = Error::origin("root", inner_frames);
    let outer = Error::around(Cause::Node(inner), "ctx", outer_frames);

    // filtered: the outermost node shows its caller frames, the inner one
    // only what it has more than its wrapper
    assert_eq!(
        " error: ctx\n\
         symbol: app::run\n    at: src/run.rs:22:9\n\
         symbol: app::main\n    at: src/main.rs:3:1\n \
         error: root\n\
         symbol: app::load\n    at: src/load.rs:10:5",
        outer.full(&plain(), false)
    );

    // complete stack: every frame of every node
    assert_eq!(
        " error: ctx\n\
         symbol: core::ops::function::FnOnce::call_once\n    at: <unknown>\n\
         symbol: app::run\n    at: src/run.rs:22:9\n\
         symbol: app::main\n    at: src/main.rs:3:1\n \
         error: root\n\
         symbol: app::load\n    at: src/load.rs:10:5\n\
         symbol: std::rt::lang_start\n    at: /rustc/abc/library/std/src/rt.rs:1\n\
         symbol: app::run\n    at: src/run.rs:20\n\
         symbol: app::main\n    at: src/main.rs",
        outer.full(&plain(), true)
    );
}

#[test]
fn full_without_frames_is_summarized() {
    let err = Error::around(Cause::Foreign(test_error("a", Some(test_error("b", None)))), "top", Vec::new());
    assert_eq!(err.summarized(&plain()), err.full(&plain(), false));
    assert_eq!(err.summarized(&plain()), err.full(&plain(), true));
}

#[test]
fn inner_node_with_fewer_frames_than_its_wrapper_shows_none() {
    let inner = Error::origin("root", vec![frame("app::a", "a.rs", Some(1), Some(1))]);
    let outer = Error::around(
        Cause::Node(inner),
        "ctx",
        vec![frame("app::b", "b.rs", Some(2), Some(2)), frame("app::c", "c.rs", Some(3), Some(3))],
    );
    assert_eq!(
        " error: ctx\nsymbol: app::b\n    at: b.rs:2:2\nsymbol: app::c\n    at: c.rs:3:3\n error: root",
        outer.full(&plain(), false)
    );
}

#[test]
fn colour_wraps_messages_and_symbols() {
    let paint = Colorized { colorized: true };
    let err = Error::around(
        Cause::Foreign(test_error("cause", None)),
        "wrapped",
        vec![frame("app::a", "a.rs", Some(4294967295), Some(0))],
    );
    assert_eq!(
        " error: \u{1b}[1;91mwrapped\u{1b}[0m\n cause: \u{1b}[1;91mwitcher::error::tests::TestError\u{1b}[0m: \u{1b}[1;91mcause\u{1b}[0m",
        err.summarized(&paint)
    );
    assert_eq!(
        " error: \u{1b}[1;91mwrapped\u{1b}[0m\n cause: \u{1b}[1;91mwitcher::error::tests::TestError\u{1b}[0m: \u{1b}[1;91mcause\u{1b}[0m\nsymbol: \u{1b}[1;96mapp::a\u{1b}[0m\n    at: a.rs:4294967295:0",
        err.full(&paint, false)
    );
    assert_eq!("wrapped", err.to_string());
}

#[test]
fn capture_fills_the_frames_of_a_node() {
    let err = Error::raw("here", None);
    assert!(!err.frames().is_empty());
    let shown = err.full(&plain(), true);
    assert!(shown.starts_with(" error: here\nsymbol: "));
    assert_eq!(1 + 2 * err.frames().len(), shown.lines().count());
    // the filtered rendering never shows more
    assert!(err.full(&plain(), false).lines().count() <= shown.lines().count());
}
