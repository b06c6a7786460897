//! The chain formatter: the renderings of a chain at three levels of
//! detail, and what holds of them.

use crate::backtrace::{frame_models, is_dependency_frame, Frame, FrameModel};
use crate::error::{
    from_node, origin_model, wrapped_all, wrapped_model, ChainModel, Error, External, ForeignModel,
    NodeModel,
};
use crate::term::{painted, Colorized, Hue};
use crate::text::{decimal, decimal_of, join_lines, joined, lemma_views_push, views};
use vstd::prelude::*;
use vstd::string::StringExecFns;

verus! {

/// The line that shows one chain node.
pub open spec fn error_line(colorized: bool, node: NodeModel) -> Seq<char> {
    " error: "@ + painted(colorized, Hue::Red, node.msg)
}

/// The lines that show the chain nodes, outermost first.
pub open spec fn error_lines(colorized: bool, nodes: Seq<NodeModel>) -> Seq<Seq<char>> {
    Seq::new(nodes.len(), |i: int| error_line(colorized, nodes[i]))
}

/// The line that shows the `i`-th foreign error behind a node labelled
/// `label`: the first external cause carries the label, its nested causes
/// do not.
pub open spec fn cause_line(
    colorized: bool,
    label: Seq<char>,
    foreign: Seq<ForeignModel>,
    i: int,
) -> Seq<char> {
    if i == 0 {
        " cause: "@ + painted(colorized, Hue::Red, label) + ": "@ + painted(
            colorized,
            Hue::Red,
            foreign[i].text,
        )
    } else {
        " cause: "@ + painted(colorized, Hue::Red, foreign[i].text)
    }
}

/// The lines that show the foreign errors behind a node labelled `label`.
pub open spec fn cause_lines(colorized: bool, label: Seq<char>, foreign: Seq<ForeignModel>) -> Seq<
    Seq<char>,
> {
    Seq::new(foreign.len(), |i: int| cause_line(colorized, label, foreign, i))
}

/// The lines of the summarized rendering: one per chain node, outermost
/// first, then one per foreign error.
pub open spec fn summarized_lines(chain: ChainModel, colorized: bool) -> Seq<Seq<char>> {
    error_lines(colorized, chain.nodes) + cause_lines(
        colorized,
        chain.nodes.last().label,
        chain.foreign,
    )
}

/// The summarized rendering of a chain.
pub open spec fn summarized_text(chain: ChainModel, colorized: bool) -> Seq<char> {
    joined(summarized_lines(chain, colorized))
}

/// The terse rendering of a chain: the message of its outermost node.
pub open spec fn terse_text(chain: ChainModel) -> Seq<char> {
    chain.nodes[0].msg
}

/// Where a frame stands in its file: `:line`, then `:column`, each where
/// it is known, and no column without a line.
pub open spec fn position(frame: FrameModel) -> Seq<char> {
    match frame.lineno {
        Some(line) => ":"@ + decimal(line as nat) + (match frame.column {
            Some(column) => ":"@ + decimal(column as nat),
            None => Seq::empty(),
        }),
        None => Seq::empty(),
    }
}

/// The two lines that show one frame.
pub open spec fn frame_lines(colorized: bool, frame: FrameModel) -> Seq<Seq<char>> {
    seq![
        "symbol: "@ + painted(colorized, Hue::Cyan, frame.symbol),
        "    at: "@ + frame.filename + position(frame),
    ]
}

/// The lines that show a sequence of frames.
pub open spec fn frames_lines(colorized: bool, frames: Seq<FrameModel>) -> Seq<Seq<char>>
    decreases frames.len(),
{
    if frames.len() == 0 {
        Seq::empty()
    } else {
        frames_lines(colorized, frames.drop_last()) + frame_lines(colorized, frames.last())
    }
}

/// The test that keeps the caller's frames.
pub open spec fn is_caller() -> spec_fn(FrameModel) -> bool {
    |f: FrameModel| !is_dependency_frame(f)
}

/// The frames of `frames` that belong to the caller's code.
pub open spec fn caller_frames(frames: Seq<FrameModel>) -> Seq<FrameModel> {
    frames.filter(is_caller())
}

/// The frames that a node contributes to the full rendering. With
/// `fullstack` these are all its frames. Without, they are its caller
/// frames, cut down, where another node wraps it, to as many leading frames
/// as it has more than the wrapping node: the rest it shares with that
/// node.
pub open spec fn contributed(
    own: Seq<FrameModel>,
    wrapper: Option<Seq<FrameModel>>,
    fullstack: bool,
) -> Seq<FrameModel> {
    if fullstack {
        own
    } else {
        let kept = caller_frames(own);
        match wrapper {
            Some(outer) => {
                let shared = caller_frames(outer).len();
                if kept.len() >= shared {
                    kept.take(kept.len() - shared)
                } else {
                    Seq::empty()
                }
            },
            None => kept,
        }
    }
}

/// The frames of the node that wraps the `i`-th node of a chain.
pub open spec fn wrapper_frames(chain: ChainModel, i: int) -> Option<Seq<FrameModel>> {
    if i > 0 {
        Some(chain.nodes[i - 1].frames)
    } else {
        None
    }
}

/// The lines of the full rendering that belong to the `i`-th node: its
/// message, behind the innermost node the foreign errors, and its
/// contributed frames.
pub open spec fn node_lines(chain: ChainModel, i: int, colorized: bool, fullstack: bool) -> Seq<
    Seq<char>,
> {
    seq![error_line(colorized, chain.nodes[i])] + (if i == chain.nodes.len() - 1 {
        cause_lines(colorized, chain.nodes[i].label, chain.foreign)
    } else {
        Seq::empty()
    }) + frames_lines(
        colorized,
        contributed(chain.nodes[i].frames, wrapper_frames(chain, i), fullstack),
    )
}

/// The lines of the full rendering for the first `k` nodes.
pub open spec fn full_lines_upto(chain: ChainModel, k: int, colorized: bool, fullstack: bool) -> Seq<
    Seq<char>,
>
    decreases k,
{
    if k <= 0 {
        Seq::empty()
    } else {
        full_lines_upto(chain, k - 1, colorized, fullstack) + node_lines(
            chain,
            k - 1,
            colorized,
            fullstack,
        )
    }
}

/// The lines of the full rendering.
pub open spec fn full_lines(chain: ChainModel, colorized: bool, fullstack: bool) -> Seq<Seq<char>> {
    full_lines_upto(chain, chain.nodes.len() as int, colorized, fullstack)
}

/// The full rendering of a chain.
pub open spec fn full_text(chain: ChainModel, colorized: bool, fullstack: bool) -> Seq<char> {
    joined(full_lines(chain, colorized, fullstack))
}

/// The views of a sequence of borrowed frames.
pub open spec fn ref_models(frames: Seq<&Frame>) -> Seq<FrameModel> {
    frames.map_values(|f: &Frame| f@)
}

/// Borrows every frame of `frames`.
fn all_frames(frames: &Vec<Frame>) -> (out: Vec<&Frame>)
    ensures
        ref_models(out@) == frame_models(frames@),
{
    let mut out: Vec<&Frame> = Vec::new();
    let mut i: usize = 0;
    while i < frames.len()
        invariant
            i <= frames.len(),
            out.len() == i,
            forall|j: int| 0 <= j < i ==> out[j] == frames[j],
        decreases frames.len() - i,
    {
        out.push(&frames[i]);
        i += 1;
    }
    proof {
        assert(ref_models(out@) =~= frame_models(frames@));
    }
    out
}

/// Borrows the frames of `frames` that belong to the caller's code.
fn only_callers(frames: &Vec<Frame>) -> (out: Vec<&Frame>)
    ensures
        ref_models(out@) == caller_frames(frame_models(frames@)),
{
    let mut out: Vec<&Frame> = Vec::new();
    let mut i: usize = 0;
    let ghost all = frame_models(frames@);
    proof {
        assert(all.take(0) =~= Seq::<FrameModel>::empty());
        reveal(Seq::filter);
        assert(ref_models(out@) =~= caller_frames(all.take(0)));
    }
    while i < frames.len()
        invariant
            i <= frames.len(),
            all == frame_models(frames@),
            ref_models(out@) == caller_frames(all.take(i as int)),
        decreases frames.len() - i,
    {
        let ghost before = out@;
        let frame = &frames[i];
        proof {
            assert(all.take(i + 1) =~= all.take(i as int).push(frame@));
            all.take(i as int).lemma_filter_push(frame@, is_caller());
        }
        if !frame.is_dependency() {
            out.push(frame);
            proof {
                assert(ref_models(out@) =~= ref_models(before).push(frame@));
            }
        }
        i += 1;
    }
    proof {
        assert(all.take(frames.len() as int) =~= all);
    }
    out
}

/// Writes the two lines of one frame.
fn write_frame(frame: &Frame, lines: &mut Vec<String>, paint: &Colorized)
    ensures
        views(final(lines)@) == views(old(lines)@) + frame_lines(paint.colorized, frame@),
{
    let ghost before = lines@;
    let mut first = String::from_str("symbol: ");
    first.append(paint.cyan(frame.symbol.as_str()).as_str());
    let mut second = String::from_str("    at: ");
    second.append(frame.filename.as_str());
    match frame.lineno {
        Some(line) => {
            second.append(":");
            second.append(decimal_of(line).as_str());
            match frame.column {
                Some(column) => {
                    second.append(":");
                    second.append(decimal_of(column).as_str());
                },
                None => {},
            }
        },
        None => {},
    }
    proof {
        assert(second@ =~= "    at: "@ + frame@.filename + position(frame@));
        lemma_views_push(before, first);
        lemma_views_push(before.push(first), second);
        assert(views(before.push(first).push(second)) =~= views(before) + frame_lines(
            paint.colorized,
            frame@,
        ));
    }
    lines.push(first);
    lines.push(second);
}

/// Writes the lines of the first `count` frames of `frames`.
fn write_leading(frames: &Vec<&Frame>, count: usize, lines: &mut Vec<String>, paint: &Colorized)
    requires
        count <= frames.len(),
    ensures
        views(final(lines)@) == views(old(lines)@) + frames_lines(
            paint.colorized,
            ref_models(frames@).take(count as int),
        ),
{
    let ghost all = ref_models(frames@);
    let mut i: usize = 0;
    proof {
        assert(all.take(0) =~= Seq::<FrameModel>::empty());
        assert(views(lines@) + Seq::<Seq<char>>::empty() =~= views(lines@));
    }
    while i < count
        invariant
            i <= count <= frames.len(),
            all == ref_models(frames@),
            views(lines@) == views(old(lines)@) + frames_lines(paint.colorized, all.take(i as int)),
        decreases count - i,
    {
        write_frame(frames[i], lines, paint);
        proof {
            let upto = all.take(i + 1);
            assert(upto.drop_last() =~= all.take(i as int));
            assert(upto.last() == frames[i as int]@);
            assert(views(lines@) =~= views(old(lines)@) + frames_lines(paint.colorized, upto));
        }
        i += 1;
    }
}

impl Error {
    /// Writes the lines that show the foreign errors behind this node: none
    /// where it wraps a chain node or nothing.
    pub fn write_std(&self, lines: &mut Vec<String>, paint: &Colorized)
        ensures
            views(final(lines)@) == views(old(lines)@) + cause_lines(
                paint.colorized,
                self@.nodes[0].label,
                if self@.nodes.len() == 1 {
                    self@.foreign
                } else {
                    Seq::empty()
                },
            ),
    {
        let ghost before = views(lines@);
        let ghost label = self@.nodes[0].label;
        let ghost c = paint.colorized;
        match self.inner_foreign() {
            Some(ext) => {
                let ghost foreign = self@.foreign;
                let mut line = String::from_str(" cause: ");
                line.append(paint.red(self.label().as_str()).as_str());
                line.append(": ");
                line.append(paint.red(ext.to_string().as_str()).as_str());
                proof {
                    ext.lemma_nonempty();
                    assert(line@ =~= cause_line(c, label, foreign, 0));
                    lemma_views_push(lines@, line);
                    assert(foreign.skip(0) =~= foreign);
                    assert(before.push(line@) =~= before + cause_lines(c, label, foreign).take(1));
                }
                lines.push(line);
                let mut cur: &External = ext;
                let ghost mut k: int = 0;
                loop
                    invariant
                        0 <= k < foreign.len(),
                        c == paint.colorized,
                        cur@ == foreign.skip(k),
                        views(lines@) == before + cause_lines(c, label, foreign).take(k + 1),
                    ensures
                        views(lines@) == before + cause_lines(c, label, foreign),
                    decreases foreign.len() - k,
                {
                    match cur.source() {
                        Some(nested) => {
                            let mut line = String::from_str(" cause: ");
                            line.append(paint.red(nested.to_string().as_str()).as_str());
                            proof {
                                nested.lemma_nonempty();
                                assert(foreign.skip(k).skip(1) =~= foreign.skip(k + 1));
                                assert(nested@[0] == foreign[k + 1]);
                                assert(line@ =~= cause_line(c, label, foreign, k + 1));
                                lemma_views_push(lines@, line);
                                assert(views(lines@).push(line@) =~= before + cause_lines(
                                    c,
                                    label,
                                    foreign,
                                ).take(k + 2));
                                k = k + 1;
                            }
                            lines.push(line);
                            cur = nested;
                        },
                        None => {
                            proof {
                                assert(cause_lines(c, label, foreign).take(k + 1) =~= cause_lines(
                                    c,
                                    label,
                                    foreign,
                                ));
                            }
                            break ;
                        },
                    }
                }
            },
            None => {
                proof {
                    let none = if self@.nodes.len() == 1 {
                        self@.foreign
                    } else {
                        Seq::empty()
                    };
                    assert(cause_lines(c, label, none) =~= Seq::<Seq<char>>::empty());
                    assert(before + Seq::<Seq<char>>::empty() =~= before);
                }
            },
        }
    }

    /// Writes the lines that show the frames which this node contributes:
    /// all of them with `fullstack`, else its caller frames without those
    /// that it shares with `parent`, the node that wraps it.
    pub fn write_frames(
        &self,
        lines: &mut Vec<String>,
        parent: Option<&Error>,
        fullstack: bool,
        paint: &Colorized,
    )
        ensures
            views(final(lines)@) == views(old(lines)@) + frames_lines(
                paint.colorized,
                contributed(
                    self@.nodes[0].frames,
                    match parent {
                        Some(outer) => Some(outer@.nodes[0].frames),
                        None => None,
                    },
                    fullstack,
                ),
            ),
    {
        if fullstack {
            let frames = all_frames(self.frames());
            proof {
                assert(ref_models(frames@).take(frames.len() as int) =~= ref_models(frames@));
            }
            write_leading(&frames, frames.len(), lines, paint);
        } else {
            let frames = only_callers(self.frames());
            let count = match parent {
                Some(outer) => {
                    let shared = only_callers(outer.frames()).len();
                    if frames.len() >= shared {
                        frames.len() - shared
                    } else {
                        0
                    }
                },
                None => frames.len(),
            };
            proof {
                let kept = ref_models(frames@);
                assert(kept.take(kept.len() as int) =~= kept);
                assert(kept.take(0) =~= Seq::<FrameModel>::empty());
            }
            write_leading(&frames, count, lines, paint);
        }
    }

    /// Writes the line that shows this node.
    fn write_msg(&self, lines: &mut Vec<String>, paint: &Colorized)
        ensures
            views(final(lines)@) == views(old(lines)@).push(
                error_line(paint.colorized, self@.nodes[0]),
            ),
    {
        let mut line = String::from_str(" error: ");
        line.append(paint.red(self.to_string().as_str()).as_str());
        proof {
            lemma_views_push(lines@, line);
        }
        lines.push(line);
    }

    /// The summarized rendering: a line ` error: ` and the message for each
    /// chain node from the outermost inwards, then a line ` cause: ` for
    /// each foreign error, the first of them with the label of the node
    /// that wraps it.
    pub fn summarized(&self, paint: &Colorized) -> (out: String)
        ensures
            out@ == summarized_text(self@, paint.colorized),
    {
        let all = self.nodes();
        let mut lines: Vec<String> = Vec::new();
        let ghost c = paint.colorized;
        let ghost chain = self@;
        let mut i: usize = 0;
        proof {
            assert(views(lines@) =~= error_lines(c, chain.nodes).take(0));
        }
        while i < all.len()
            invariant
                i <= all.len(),
                all.len() == chain.nodes.len(),
                c == paint.colorized,
                forall|j: int| 0 <= j < all.len() ==> (#[trigger] all[j])@ == from_node(chain, j),
                views(lines@) == error_lines(c, chain.nodes).take(i as int),
            decreases all.len() - i,
        {
            all[i].write_msg(&mut lines, paint);
            proof {
                assert(views(lines@) =~= error_lines(c, chain.nodes).take(i + 1));
            }
            i += 1;
        }
        let innermost = all[all.len() - 1];
        innermost.write_std(&mut lines, paint);
        proof {
            let n = chain.nodes.len() as int;
            assert(error_lines(c, chain.nodes).take(n) =~= error_lines(c, chain.nodes));
            assert(innermost@ == from_node(chain, n - 1));
            assert(innermost@.nodes[0] == chain.nodes.last());
        }
        join_lines(&lines)
    }

    /// The full rendering: for each chain node from the outermost inwards
    /// its line ` error: `, behind the innermost node the lines ` cause: `
    /// of the foreign errors, and the lines of the frames that the node
    /// contributes.
    pub fn full(&self, paint: &Colorized, fullstack: bool) -> (out: String)
        ensures
            out@ == full_text(self@, paint.colorized, fullstack),
    {
        let all = self.nodes();
        let mut lines: Vec<String> = Vec::new();
        let ghost c = paint.colorized;
        let ghost chain = self@;
        let mut i: usize = 0;
        proof {
            assert(views(lines@) =~= full_lines_upto(chain, 0, c, fullstack));
        }
        while i < all.len()
            invariant
                i <= all.len(),
                all.len() == chain.nodes.len(),
                c == paint.colorized,
                forall|j: int| 0 <= j < all.len() ==> (#[trigger] all[j])@ == from_node(chain, j),
                views(lines@) == full_lines_upto(chain, i as int, c, fullstack),
            decreases all.len() - i,
        {
            let node = all[i];
            let ghost start = views(lines@);
            proof {
                assert(node@ == from_node(chain, i as int));
                assert(node@.nodes[0] == chain.nodes[i as int]);
            }
            node.write_msg(&mut lines, paint);
            if i + 1 == all.len() {
                node.write_std(&mut lines, paint);
            }
            let ghost middle = views(lines@);
            proof {
                let causes = if i == chain.nodes.len() - 1 {
                    cause_lines(c, chain.nodes[i as int].label, chain.foreign)
                } else {
                    Seq::empty()
                };
                assert(middle =~= start + seq![error_line(c, chain.nodes[i as int])] + causes);
            }
            let parent = if i > 0 {
                proof {
                    assert(all[i - 1]@ == from_node(chain, i - 1));
                    assert(all[i - 1]@.nodes[0] == chain.nodes[i - 1]);
                }
                Some(all[i - 1])
            } else {
                None
            };
            node.write_frames(&mut lines, parent, fullstack, paint);
            proof {
                assert(views(lines@) =~= start + node_lines(chain, i as int, c, fullstack));
            }
            i += 1;
        }
        join_lines(&lines)
    }
}

/// The three levels of detail of a rendering.
#[derive(Clone, Copy, Debug)]
pub enum Detail {
    /// The message of the outermost node alone.
    Terse,
    /// A line for each chain node and for each foreign error.
    Summarized,
    /// As `Summarized`, with the frames that each node contributes; with
    /// `fullstack`, with every frame of every node.
    Full { fullstack: bool },
}

/// The rendering of a chain at a level of detail.
pub open spec fn rendered(chain: ChainModel, detail: Detail, colorized: bool) -> Seq<char> {
    match detail {
        Detail::Terse => terse_text(chain),
        Detail::Summarized => summarized_text(chain, colorized),
        Detail::Full { fullstack } => full_text(chain, colorized, fullstack),
    }
}

impl Error {
    /// Renders the chain at the level of detail `detail`.
    pub fn render(&self, detail: Detail, paint: &Colorized) -> (out: String)
        ensures
            out@ == rendered(self@, detail, paint.colorized),
    {
        match detail {
            Detail::Terse => self.to_string(),
            Detail::Summarized => self.summarized(paint),
            Detail::Full { fullstack } => self.full(paint, fullstack),
        }
    }
}

/// The terse rendering of a chain is the message of its outermost node
/// alone: that of an origin is the origin's message, and that of a chain
/// built by any number of wraps around any cause, be it a chain node or a
/// foreign error, is the message of the last wrap.
pub proof fn lemma_terse_is_outermost_message(
    msg: Seq<char>,
    frames: Seq<FrameModel>,
    base: ChainModel,
    wraps: Seq<(Seq<char>, Seq<FrameModel>)>,
)
    ensures
        terse_text(origin_model(msg, frames)) == msg,
        wraps.len() > 0 ==> terse_text(wrapped_all(base, wraps)) == wraps.last().0,
        terse_text(wrapped_model(base, msg, frames)) == msg,
{
}

/// The summarized rendering holds one line for each chain node, in order
/// from the outermost inwards, each made of ` error: ` and the node's
/// message, and right behind them one line for each foreign error, each
/// beginning with ` cause: ` and none with ` error: `.
pub proof fn lemma_summarized_shape(chain: ChainModel, colorized: bool)
    requires
        chain.nodes.len() >= 1,
    ensures
        summarized_lines(chain, colorized).len() == chain.nodes.len() + chain.foreign.len(),
        forall|i: int|
            0 <= i < chain.nodes.len() ==> #[trigger] summarized_lines(chain, colorized)[i]
                == " error: "@ + painted(colorized, Hue::Red, chain.nodes[i].msg),
        forall|i: int|
            0 <= i < chain.nodes.len() ==> " error: "@.is_prefix_of(
                #[trigger] summarized_lines(chain, colorized)[i],
            ),
        forall|j: int|
            chain.nodes.len() <= j < chain.nodes.len() + chain.foreign.len() ==> " cause: "@.is_prefix_of(
                #[trigger] summarized_lines(chain, colorized)[j],
            ) && !" error: "@.is_prefix_of(summarized_lines(chain, colorized)[j]),
{
    let lines = summarized_lines(chain, colorized);
    let n = chain.nodes.len() as int;
    reveal_strlit(" error: ");
    reveal_strlit(" cause: ");
    assert forall|i: int| 0 <= i < n implies " error: "@.is_prefix_of(#[trigger] lines[i]) by {
        let line = " error: "@ + painted(colorized, Hue::Red, chain.nodes[i].msg);
        assert(lines[i] == line);
        assert(line.subrange(0, " error: "@.len() as int) =~= " error: "@);
    }
    assert forall|j: int| n <= j < n + chain.foreign.len() implies " cause: "@.is_prefix_of(
        #[trigger] lines[j],
    ) && !" error: "@.is_prefix_of(lines[j]) by {
        let line = cause_line(colorized, chain.nodes.last().label, chain.foreign, j - n);
        assert(lines[j] == line);
        assert(line.subrange(0, " cause: "@.len() as int) =~= " cause: "@);
        assert(line[1] == 'c');
        assert(" error: "@[1] == 'e');
        if " error: "@.is_prefix_of(line) {
            assert(line.subrange(0, " error: "@.len() as int)[1] == line[1]);
        }
    }
}

/// The frame filter hides no frame for good: a frame that the tables mark
/// as belonging to the runtime or a dependency is left out of what a node
/// contributes to the filtered rendering, and kept in what it contributes
/// with the complete stack; a frame of the caller's code is kept in the
/// filtered rendering of a node that nothing wraps.
pub proof fn lemma_dependency_frames_filtered(
    own: Seq<FrameModel>,
    wrapper: Option<Seq<FrameModel>>,
    frame: FrameModel,
)
    requires
        own.contains(frame),
    ensures
        contributed(own, wrapper, true).contains(frame),
        is_dependency_frame(frame) ==> !contributed(own, wrapper, false).contains(frame),
        !is_dependency_frame(frame) ==> contributed(own, None, false).contains(frame),
{
    let kept = caller_frames(own);
    let shown = contributed(own, wrapper, false);
    if is_dependency_frame(frame) && shown.contains(frame) {
        let i = choose|i: int| 0 <= i < shown.len() && shown[i] == frame;
        assert(kept[i] == frame);
        own.lemma_filter_pred(is_caller(), i);
    }
    if !is_dependency_frame(frame) {
        let k = choose|k: int| 0 <= k < own.len() && own[k] == frame;
        own.lemma_filter_contains(is_caller(), k);
    }
}

/// No node of the chain contributes a frame to the full rendering.
pub open spec fn contributes_none(chain: ChainModel, fullstack: bool) -> bool {
    forall|i: int|
        0 <= i < chain.nodes.len() ==> (#[trigger] contributed(
            chain.nodes[i].frames,
            wrapper_frames(chain, i),
            fullstack,
        )).len() == 0
}

/// The lines of a node that contributes no frame are its line ` error: `
/// and, behind the innermost node, the lines ` cause: `.
proof fn lemma_node_lines_without_frames(chain: ChainModel, i: int, colorized: bool, fullstack: bool)
    requires
        0 <= i < chain.nodes.len(),
        contributed(chain.nodes[i].frames, wrapper_frames(chain, i), fullstack).len() == 0,
    ensures
        node_lines(chain, i, colorized, fullstack) == seq![error_line(colorized, chain.nodes[i])] + (
        if i == chain.nodes.len() - 1 {
            cause_lines(colorized, chain.nodes[i].label, chain.foreign)
        } else {
            Seq::empty()
        }),
{
    let shown = contributed(chain.nodes[i].frames, wrapper_frames(chain, i), fullstack);
    assert(frames_lines(colorized, shown) =~= Seq::<Seq<char>>::empty());
    let head = seq![error_line(colorized, chain.nodes[i])] + (if i == chain.nodes.len() - 1 {
        cause_lines(colorized, chain.nodes[i].label, chain.foreign)
    } else {
        Seq::empty()
    });
    assert(head + Seq::<Seq<char>>::empty() =~= head);
}

/// The first `k` nodes of a chain whose nodes contribute no frames take up
/// the same lines in the full rendering as in the summarized one.
proof fn lemma_full_upto_without_frames(chain: ChainModel, k: int, colorized: bool, fullstack: bool)
    requires
        0 <= k <= chain.nodes.len(),
        chain.nodes.len() >= 1,
        contributes_none(chain, fullstack),
    ensures
        k < chain.nodes.len() ==> full_lines_upto(chain, k, colorized, fullstack) == error_lines(
            colorized,
            chain.nodes,
        ).take(k),
        k == chain.nodes.len() ==> full_lines_upto(chain, k, colorized, fullstack)
            == summarized_lines(chain, colorized),
    decreases k,
{
    let errors = error_lines(colorized, chain.nodes);
    let n = chain.nodes.len() as int;
    if k == 0 {
        assert(full_lines_upto(chain, k, colorized, fullstack) =~= errors.take(0));
    } else {
        lemma_full_upto_without_frames(chain, k - 1, colorized, fullstack);
        assert(contributed(
            chain.nodes[k - 1].frames,
            wrapper_frames(chain, k - 1),
            fullstack,
        ).len() == 0);
        lemma_node_lines_without_frames(chain, k - 1, colorized, fullstack);
        let before = full_lines_upto(chain, k - 1, colorized, fullstack);
        let own = node_lines(chain, k - 1, colorized, fullstack);
        assert(before == errors.take(k - 1));
        assert(full_lines_upto(chain, k, colorized, fullstack) == before + own);
        assert(errors.take(k - 1) + seq![errors[k - 1]] =~= errors.take(k));
        if k == n {
            let causes = cause_lines(colorized, chain.nodes.last().label, chain.foreign);
            assert(errors.take(n) =~= errors);
            assert(own == seq![errors[k - 1]] + causes);
            assert(before + (seq![errors[k - 1]] + causes) =~= errors.take(k) + causes);
        } else {
            assert(own =~= seq![errors[k - 1]]);
        }
    }
}

/// The full rendering is the summarized rendering with frames added: where
/// no node contributes a frame, the two are the same text.
pub proof fn lemma_full_without_frames_is_summarized(
    chain: ChainModel,
    colorized: bool,
    fullstack: bool,
)
    requires
        chain.nodes.len() >= 1,
        contributes_none(chain, fullstack),
    ensures
        full_text(chain, colorized, fullstack) == summarized_text(chain, colorized),
{
    lemma_full_upto_without_frames(chain, chain.nodes.len() as int, colorized, fullstack);
}

} // verus!
