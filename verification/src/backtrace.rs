//! The frame filter: turns a raw stack trace into simplified frames and tells
//! the caller's frames from those of the runtime and of dependencies.

use crate::text::{chars_of, has_infix, has_prefix, occurs_in, opt_string_view, opt_view};
use vstd::prelude::*;
use vstd::string::StringExecFns;

verus! {

/// One simplified stack entry.
#[derive(Debug)]
pub struct Frame {
    /// Demangled name of the symbol, or `<unknown>`.
    pub symbol: String,
    /// File the symbol occurred in, or `<unknown>`.
    pub filename: String,
    /// Line the symbol occurred on.
    pub lineno: Option<u32>,
    /// Column the symbol occurred on.
    pub column: Option<u32>,
}

/// What a `Frame` holds, as mathematical values.
pub struct FrameModel {
    pub symbol: Seq<char>,
    pub filename: Seq<char>,
    pub lineno: Option<u32>,
    pub column: Option<u32>,
}

impl View for Frame {
    type V = FrameModel;

    open spec fn view(&self) -> FrameModel {
        FrameModel {
            symbol: self.symbol@,
            filename: self.filename@,
            lineno: self.lineno,
            column: self.column,
        }
    }
}

/// One entry of a raw stack trace, as the platform reports it: every part of
/// it may be missing.
#[derive(Debug)]
pub struct RawFrame {
    pub symbol: Option<String>,
    pub filename: Option<String>,
    pub lineno: Option<u32>,
    pub column: Option<u32>,
}

/// The views of a sequence of frames.
pub open spec fn frame_models(frames: Seq<Frame>) -> Seq<FrameModel> {
    frames.map_values(|f: Frame| f@)
}

impl Clone for Frame {
    /// A frame that holds the same.
    fn clone(&self) -> (copy: Frame)
        ensures
            copy@ == self@,
    {
        Frame {
            symbol: self.symbol.clone(),
            filename: self.filename.clone(),
            lineno: self.lineno,
            column: self.column,
        }
    }
}

/// Frames that hold the same as `frames`, in the same order.
pub fn clone_frames(frames: &Vec<Frame>) -> (copy: Vec<Frame>)
    ensures
        frame_models(copy@) == frame_models(frames@),
{
    let mut copy: Vec<Frame> = Vec::new();
    let mut i: usize = 0;
    while i < frames.len()
        invariant
            i <= frames.len(),
            copy.len() == i,
            forall|j: int| 0 <= j < i ==> copy[j]@ == frames[j]@,
        decreases frames.len() - i,
    {
        copy.push(frames[i].clone());
        i += 1;
    }
    proof {
        assert(frame_models(copy@) =~= frame_models(frames@));
    }
    copy
}

/// Symbol prefixes that mark a frame of the runtime or of a dependency.
pub open spec fn dependency_sym_prefixes() -> Seq<Seq<char>> {
    seq![
        "std::"@,
        "core::"@,
        "witcher::error::"@,
        "<witcher::error::"@,
        "witcher::backtrace::"@,
        "backtrace::backtrace::"@,
        "_rust_begin_unwind"@,
        "color_traceback::"@,
        "__rust_"@,
        "___rust_"@,
        "__pthread"@,
        "_main"@,
        "main"@,
        "__scrt_common_main_seh"@,
        "BaseThreadInitThunk"@,
        "_start"@,
        "__libc_start_main"@,
        "start_thread"@,
        "__GI__"@,
    ]
}

/// Symbol fragments that mark a frame of the runtime or of a dependency.
pub open spec fn dependency_sym_contains() -> Seq<Seq<char>> {
    seq!["as witcher::wrapper::Wrapper"@]
}

/// File prefixes that mark a frame of the runtime or of a dependency.
pub open spec fn dependency_file_prefixes() -> Seq<Seq<char>> {
    seq!["/rustc/"@, "src/libstd/"@, "src/libpanic_unwind/"@, "src/libtest/"@]
}

/// File fragments that mark a frame of the runtime or of a dependency.
pub open spec fn dependency_file_contains() -> Seq<Seq<char>> {
    seq!["/.cargo/registry/src/"@]
}

/// Some entry of `table` is a prefix of `text`.
pub open spec fn prefixed_by_any(text: Seq<char>, table: Seq<Seq<char>>) -> bool {
    exists|i: int| 0 <= i < table.len() && (#[trigger] table[i]).is_prefix_of(text)
}

/// Some entry of `table` occurs in `text`.
pub open spec fn holds_any(text: Seq<char>, table: Seq<Seq<char>>) -> bool {
    exists|i: int| 0 <= i < table.len() && occurs_in(#[trigger] table[i], text)
}

/// A frame belongs to the runtime, to this library or to a dependency when
/// its symbol or its file matches one of the four tables.
pub open spec fn is_dependency_frame(f: FrameModel) -> bool {
    ||| prefixed_by_any(f.symbol, dependency_sym_prefixes())
    ||| holds_any(f.symbol, dependency_sym_contains())
    ||| prefixed_by_any(f.filename, dependency_file_prefixes())
    ||| holds_any(f.filename, dependency_file_contains())
}

/// The views of a table of string literals.
pub open spec fn table_views(table: Seq<&'static str>) -> Seq<Seq<char>> {
    table.map_values(|s: &'static str| s@)
}

fn sym_prefix_table() -> (t: Vec<&'static str>)
    ensures
        table_views(t@) == dependency_sym_prefixes(),
{
    let t = vec![
        "std::",
        "core::",
        "witcher::error::",
        "<witcher::error::",
        "witcher::backtrace::",
        "backtrace::backtrace::",
        "_rust_begin_unwind",
        "color_traceback::",
        "__rust_",
        "___rust_",
        "__pthread",
        "_main",
        "main",
        "__scrt_common_main_seh",
        "BaseThreadInitThunk",
        "_start",
        "__libc_start_main",
        "start_thread",
        "__GI__",
    ];
    assert(table_views(t@) =~= dependency_sym_prefixes());
    t
}

fn sym_contains_table() -> (t: Vec<&'static str>)
    ensures
        table_views(t@) == dependency_sym_contains(),
{
    let t = vec!["as witcher::wrapper::Wrapper"];
    assert(table_views(t@) =~= dependency_sym_contains());
    t
}

fn file_prefix_table() -> (t: Vec<&'static str>)
    ensures
        table_views(t@) == dependency_file_prefixes(),
{
    let t = vec!["/rustc/", "src/libstd/", "src/libpanic_unwind/", "src/libtest/"];
    assert(table_views(t@) =~= dependency_file_prefixes());
    t
}

fn file_contains_table() -> (t: Vec<&'static str>)
    ensures
        table_views(t@) == dependency_file_contains(),
{
    let t = vec!["/.cargo/registry/src/"];
    assert(table_views(t@) =~= dependency_file_contains());
    t
}

/// Whether `text` begins with an entry of `table`.
fn any_prefix(text: &Vec<char>, table: &Vec<&'static str>) -> (r: bool)
    ensures
        r == prefixed_by_any(text@, table_views(table@)),
{
    let mut i: usize = 0;
    while i < table.len()
        invariant
            i <= table.len(),
            forall|j: int| 0 <= j < i ==> !(#[trigger] table_views(table@)[j]).is_prefix_of(text@),
        decreases table.len() - i,
    {
        let pat = chars_of(table[i]);
        if has_prefix(text, &pat) {
            assert(table_views(table@)[i as int].is_prefix_of(text@));
            return true;
        }
        i += 1;
    }
    false
}

/// Whether an entry of `table` occurs in `text`.
fn any_infix(text: &Vec<char>, table: &Vec<&'static str>) -> (r: bool)
    ensures
        r == holds_any(text@, table_views(table@)),
{
    let mut i: usize = 0;
    while i < table.len()
        invariant
            i <= table.len(),
            forall|j: int| 0 <= j < i ==> !occurs_in(#[trigger] table_views(table@)[j], text@),
        decreases table.len() - i,
    {
        let pat = chars_of(table[i]);
        if has_infix(text, &pat) {
            assert(occurs_in(table_views(table@)[i as int], text@));
            return true;
        }
        i += 1;
    }
    false
}

impl Frame {
    /// Whether this frame belongs to the runtime, to this library or to a
    /// dependency rather than to the caller's code.
    pub fn is_dependency(&self) -> (r: bool)
        ensures
            r == is_dependency_frame(self@),
    {
        let symbol = chars_of(self.symbol.as_str());
        let filename = chars_of(self.filename.as_str());
        any_prefix(&symbol, &sym_prefix_table()) || any_infix(&symbol, &sym_contains_table())
            || any_prefix(&filename, &file_prefix_table()) || any_infix(
            &filename,
            &file_contains_table(),
        )
    }
}

/// What `std::path::Path::strip_prefix` makes of the path `file` and the base
/// `base`: the rest of `file` behind `base`, or nothing where `base` is not
/// a prefix of `file`, component by component.
pub uninterp spec fn path_strip_prefix(file: Seq<char>, base: Seq<char>) -> Option<Seq<char>>;

/// Calls `std::path::Path::strip_prefix` on `file` with `base`. The contract
/// claims only that the outcome is the one named by `path_strip_prefix`, with
/// a failure turned into `None`.
#[verifier::external_body]
fn strip_prefix(file: &str, base: &str) -> (rel: Option<String>)
    ensures
        match rel {
            Some(r) => path_strip_prefix(file@, base@) == Some(r@),
            None => path_strip_prefix(file@, base@) is None,
        },
{
    std::path::Path::new(file).strip_prefix(base).ok().map(|p| p.display().to_string())
}

/// The simplified form of a file path, given what stripping the working
/// directory from it gave: the relative path where that worked, the path as
/// it is where it did not, and `<unknown>` where there is no path.
pub open spec fn simple_path_of(filename: Option<Seq<char>>, stripped: Option<Seq<char>>) -> Seq<
    char,
> {
    match filename {
        None => "<unknown>"@,
        Some(file) => match stripped {
            Some(rel) => rel,
            None => file,
        },
    }
}

/// What stripping the working directory from a file path gives, where both
/// are known.
pub open spec fn stripped_of(filename: Option<Seq<char>>, cwd: Option<Seq<char>>) -> Option<
    Seq<char>,
> {
    match (filename, cwd) {
        (Some(file), Some(dir)) => path_strip_prefix(file, dir),
        _ => None,
    }
}

/// Picks the simplified path once the working directory has been stripped
/// (`stripped`) or could not be.
pub fn pick_path(filename: Option<&str>, stripped: Option<String>) -> (out: String)
    ensures
        out@ == simple_path_of(opt_view(filename), opt_string_view(stripped)),
{
    match filename {
        Some(file) => match stripped {
            Some(rel) => rel,
            None => String::from_str(file),
        },
        None => String::from_str("<unknown>"),
    }
}

/// A shortened path for display: relative to the working directory `cwd`
/// where `filename` lies inside it, `filename` itself where it does not or
/// where `cwd` is unknown, and `<unknown>` where there is no file name.
pub fn simple_path(filename: Option<&str>, cwd: Option<&str>) -> (out: String)
    ensures
        out@ == simple_path_of(
            opt_view(filename),
            stripped_of(opt_view(filename), opt_view(cwd)),
        ),
{
    let stripped = match (filename, cwd) {
        (Some(file), Some(dir)) => strip_prefix(file, dir),
        _ => None,
    };
    pick_path(filename, stripped)
}

/// The frame that a raw entry becomes when paths are taken relative to `cwd`.
pub open spec fn frame_of(raw: RawFrame, cwd: Option<Seq<char>>) -> FrameModel {
    FrameModel {
        symbol: match raw.symbol {
            Some(name) => name@,
            None => "<unknown>"@,
        },
        filename: simple_path_of(
            opt_string_view(raw.filename),
            stripped_of(opt_string_view(raw.filename), cwd),
        ),
        lineno: raw.lineno,
        column: raw.column,
    }
}

/// Simplifies one raw entry.
pub fn simplify(raw: &RawFrame, cwd: Option<&str>) -> (frame: Frame)
    ensures
        frame@ == frame_of(*raw, opt_view(cwd)),
{
    let symbol = match &raw.symbol {
        Some(name) => String::from_str(name.as_str()),
        None => String::from_str("<unknown>"),
    };
    let filename = match &raw.filename {
        Some(file) => simple_path(Some(file.as_str()), cwd),
        None => simple_path(None, cwd),
    };
    Frame { symbol, filename, lineno: raw.lineno, column: raw.column }
}

/// `frames` is what the raw trace `raw` becomes, entry by entry and in the
/// same order, when paths are taken relative to `cwd`.
pub open spec fn simplified_from(frames: Seq<Frame>, raw: Seq<RawFrame>, cwd: Option<Seq<char>>) -> bool {
    &&& frames.len() == raw.len()
    &&& forall|i: int| 0 <= i < raw.len() ==> (#[trigger] frames[i])@ == frame_of(raw[i], cwd)
}

/// Simplifies a raw trace entry by entry, keeping the order.
pub fn simplify_all(raw: &Vec<RawFrame>, cwd: Option<&str>) -> (frames: Vec<Frame>)
    ensures
        simplified_from(frames@, raw@, opt_view(cwd)),
{
    let mut frames: Vec<Frame> = Vec::new();
    let mut i: usize = 0;
    while i < raw.len()
        invariant
            i <= raw.len(),
            frames.len() == i,
            forall|j: int| 0 <= j < i ==> (#[trigger] frames[j])@ == frame_of(raw[j], opt_view(cwd)),
        decreases raw.len() - i,
    {
        frames.push(simplify(&raw[i], cwd));
        i += 1;
    }
    frames
}

/// Captures the stack of the calling thread with `backtrace::Backtrace::new`
/// and hands out one entry per resolved symbol, most recent call first. What
/// comes back depends on the running program, so nothing is claimed of it.
#[verifier::external_body]
fn capture() -> Vec<RawFrame> {
    let trace = ::backtrace::Backtrace::new();
    trace.frames().iter().flat_map(|frame| frame.symbols()).map(|sym| RawFrame {
        symbol: sym.name().map(|name| format!("{:#}", name)),
        filename: sym.filename().map(|path| path.display().to_string()),
        lineno: sym.lineno(),
        column: sym.colno(),
    }).collect()
}

/// The simplified frames of the stack at the point of call, with file paths
/// taken relative to `cwd`: whatever trace the platform reports, entry by
/// entry and in its order, which is that of the calls from the most recent
/// one outwards.
pub fn new(cwd: Option<&str>) -> (frames: Vec<Frame>)
    ensures
        exists|raw: Seq<RawFrame>| #[trigger] simplified_from(frames@, raw, opt_view(cwd)),
{
    let raw = capture();
    simplify_all(&raw, cwd)
}

/// Lets a result be dropped on purpose.
pub trait Omit {
    /// Consumes nothing and ignores the result.
    fn omit(&self);
}

impl Omit for Result<(), std::fmt::Error> {
    fn omit(&self) {
        match self {
            Ok(_) => (),
            Err(_) => (),
        }
    }
}

} // verus!
