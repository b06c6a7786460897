use std::any::TypeId;
use witcher::backtrace::Frame;
use witcher::error::{Cause, Error, External, Fault, Link, TypeTag};
use witcher::format::Detail;
use witcher::term::Colorized;

struct Alpha;

struct Beta;

fn tag<T: 'static>() -> TypeTag {
    TypeTag::Foreign(TypeId::of::<T>())
}

fn plain() -> Colorized {
    Colorized { colorized: false }
}

fn frame(symbol: &str) -> Frame {
    Frame { symbol: symbol.to_string(), filename: "src/lib.rs".to_string(), lineno: Some(1), column: Some(2) }
}

#[test]
fn a_type_is_matched_by_its_identity_not_by_its_name() {
    // two types under one name
    let a = External::new(TypeId::of::<Alpha>(), "same::Name", "a", None);
    let b = External::new(TypeId::of::<Beta>(), "same::Name", "b", None);
    assert!(a.is(tag::<Alpha>()));
    assert!(!a.is(tag::<Beta>()));
    assert!(b.is(tag::<Beta>()));
    assert!(!b.is(tag::<Alpha>()));
    assert!(!a.is(TypeTag::Chain));
    assert!(a.downcast_ref(tag::<Alpha>()).is_some());
    assert!(a.downcast_ref(tag::<Beta>()).is_none());
    assert!(a.downcast_ref(TypeTag::Chain).is_none());
    assert_eq!("a", a.downcast_ref(tag::<Alpha>()).unwrap().to_string());
    // one type under two names
    let c = External::new(TypeId::of::<Alpha>(), "other::Name", "c", None);
    assert!(c.is(tag::<Alpha>()));
    assert!(a.type_tag().same(&c.type_tag()));
    assert!(!a.type_tag().same(&b.type_tag()));
    assert!(TypeTag::Chain.same(&TypeTag::Chain));
    assert!(!TypeTag::Chain.same(&tag::<Alpha>()));
    assert!(!tag::<Alpha>().same(&TypeTag::Chain));
}

#[test]
fn every_position_of_a_chain_can_be_asked() {
    let foreign = External::new(
        TypeId::of::<Alpha>(),
        "inspect::Alpha",
        "first",
        Some(External::new(TypeId::of::<Beta>(), "inspect::Beta", "second", None)),
    );
    let inner = Error::around(Cause::Foreign(foreign), "inner", vec![frame("a")]);
    let outer = Error::around(Cause::Node(inner), "outer", vec![frame("b"), frame("c")]);

    // the outermost link
    assert!(outer.is(TypeTag::Chain));
    assert!(!outer.is(tag::<Alpha>()));
    assert_eq!("outer", outer.downcast_ref(TypeTag::Chain).unwrap().to_string());
    assert!(outer.downcast_ref(tag::<Alpha>()).is_none());

    // the first link that is no chain node
    let ext = outer.ext();
    assert!(ext.is(tag::<Alpha>()));
    assert!(!ext.is(tag::<Beta>()));
    assert!(!ext.is(TypeTag::Chain));
    assert_eq!("first", ext.to_string());
    assert!(ext.downcast_ref(tag::<Alpha>()).is_some());
    assert!(ext.downcast_ref(tag::<Beta>()).is_none());

    // the innermost link
    let last = outer.last();
    assert!(last.is(tag::<Beta>()));
    assert!(!last.is(tag::<Alpha>()));
    assert_eq!("second", last.to_string());
    assert!(last.source().is_none());
}

#[test]
fn walking_link_by_link() {
    let foreign = External::new(
        TypeId::of::<Alpha>(),
        "inspect::Alpha",
        "first",
        Some(External::new(TypeId::of::<Beta>(), "inspect::Beta", "second", None)),
    );
    let inner = Error::around(Cause::Foreign(foreign), "inner", Vec::new());
    let outer = Error::around(Cause::Node(inner), "outer", Vec::new());

    let mut texts = vec![outer.to_string()];
    let mut link = outer.source();
    while let Some(next) = link {
        texts.push(next.to_string());
        link = next.source();
    }
    assert_eq!(vec!["outer", "inner", "first", "second"], texts);

    let nodes = outer.nodes();
    assert_eq!(2, nodes.len());
    assert_eq!("outer", nodes[0].to_string());
    assert_eq!("inner", nodes[1].to_string());
    assert_eq!("inner", outer.innermost_node().to_string());
    assert_eq!("inner", outer.inner_node().unwrap().to_string());
    assert!(outer.inner_foreign().is_none());
    assert!(nodes[1].inner_node().is_none());
    let first = nodes[1].inner_foreign().unwrap();
    assert_eq!("first", first.to_string());
    assert_eq!("inspect::Alpha", first.name());
    assert_eq!(TypeId::of::<Alpha>(), first.type_id());
    assert_eq!("second", first.source().unwrap().to_string());
    assert!(first.source().unwrap().source().is_none());
    assert_eq!("second", first.last().to_string());
    assert_eq!("inspect::Beta", first.last().name());
}

#[test]
fn a_single_node_is_its_own_anchor() {
    let only = Error::origin("only", Vec::new());
    assert!(only.source().is_none());
    assert!(only.inner_node().is_none());
    assert!(only.inner_foreign().is_none());
    assert_eq!(1, only.nodes().len());
    match only.ext() {
        Link::Node(node) => assert_eq!("only", node.to_string()),
        Link::Foreign(_) => panic!("there is no foreign error"),
    }
    match only.last() {
        Link::Node(node) => assert_eq!("only", node.to_string()),
        Link::Foreign(_) => panic!("there is no foreign error"),
    }
    assert_eq!("witcher::Error", only.label());
    assert_eq!(" error: only", only.summarized(&plain()));
    assert_eq!(" error: only", only.full(&plain(), false));
}

#[test]
fn labels_follow_the_cause() {
    let foreign = External::new(TypeId::of::<Alpha>(), "&dyn inspect::Alpha<u8>", "x", None);
    let inner = Error::around(Cause::Foreign(foreign), "inner", Vec::new());
    assert_eq!("inspect::Alpha", inner.label());
    let outer = Error::around(Cause::Node(inner), "outer", Vec::new());
    assert_eq!("witcher::Error", outer.label());
    assert_eq!(" error: outer\n error: inner\n cause: inspect::Alpha: x", outer.summarized(&plain()));
}

#[test]
fn frames_are_kept_as_given() {
    let node = Error::origin("n", vec![frame("one"), frame("two")]);
    assert_eq!(2, node.frames().len());
    assert_eq!("one", node.frames()[0].symbol);
    assert_eq!("two", node.frames()[1].symbol);
    assert_eq!(Some(1), node.frames()[1].lineno);
    let wrapped = Error::around(Cause::Node(node), "w", vec![frame("three")]);
    assert_eq!(1, wrapped.frames().len());
    assert_eq!(2, wrapped.inner_node().unwrap().frames().len());
}

#[test]
fn a_copy_renders_alike() {
    let foreign = External::new(
        TypeId::of::<Alpha>(),
        "inspect::Alpha",
        "first",
        Some(External::new(TypeId::of::<Beta>(), "inspect::Beta", "second", None)),
    );
    let inner = Error::around(Cause::Foreign(foreign), "inner", vec![frame("a")]);
    let outer = Error::around(Cause::Node(inner), "outer", vec![frame("b"), frame("c")]);
    let copy = outer.clone();
    assert_eq!(outer.to_string(), copy.to_string());
    assert_eq!(outer.summarized(&plain()), copy.summarized(&plain()));
    assert_eq!(outer.full(&plain(), true), copy.full(&plain(), true));
    assert_eq!(outer.full(&plain(), false), copy.full(&plain(), false));
    assert!(copy.ext().is(tag::<Alpha>()));
    assert!(copy.last().is(tag::<Beta>()));
    let f = frame("z").clone();
    assert_eq!("z", f.symbol);
    assert_eq!(Some(2), f.column);
}

#[test]
fn render_picks_the_level() {
    let err = Error::around(
        Cause::Foreign(External::new(TypeId::of::<Alpha>(), "inspect::Alpha", "x", None)),
        "top",
        vec![frame("std::rt::lang_start"), frame("app::run")],
    );
    assert_eq!("top", err.render(Detail::Terse, &plain()));
    assert_eq!(" error: top\n cause: inspect::Alpha: x", err.render(Detail::Summarized, &plain()));
    assert_eq!(
        " error: top\n cause: inspect::Alpha: x\nsymbol: app::run\n    at: src/lib.rs:1:2",
        err.render(Detail::Full { fullstack: false }, &plain())
    );
    assert_eq!(
        " error: top\n cause: inspect::Alpha: x\nsymbol: std::rt::lang_start\n    at: src/lib.rs:1:2\nsymbol: app::run\n    at: src/lib.rs:1:2",
        err.render(Detail::Full { fullstack: true }, &plain())
    );
    assert_eq!(err.to_string(), err.render(Detail::Terse, &Colorized { colorized: true }));
}

#[test]
fn the_fault_contract_of_the_chain_types() {
    let ext = External::new(TypeId::of::<Alpha>(), "inspect::Alpha", "x", None);
    assert!(ext.tag().same(&tag::<Alpha>()));
    assert_eq!("x", ext.describe());
    let node = Error::origin("n", Vec::new());
    assert!(node.tag().same(&TypeTag::Chain));
    assert_eq!("n", node.describe());
    let cause = ext.into_cause();
    assert!(cause.tag().same(&tag::<Alpha>()));
    assert_eq!("x", cause.describe());
    let wrapped = Error::around(cause.clone().into_cause(), "w", Vec::new());
    assert_eq!("x", wrapped.ext().to_string());
    let cause = node.into_cause();
    assert!(cause.tag().same(&TypeTag::Chain));
    assert_eq!("n", cause.describe());
}

#[test]
fn mutable_access_to_a_node() {
    let mut node = Error::origin("before", Vec::new());
    assert!(node.downcast_mut(tag::<Alpha>()).is_none());
    match node.downcast_mut(TypeTag::Chain) {
        Some(slot) => *slot = Error::origin("after", Vec::new()),
        None => panic!("a chain node is of the chain type"),
    }
    assert_eq!("after", node.to_string());
}
