//! The error chain: its nodes, the foreign errors they may wrap, the walks
//! over a chain, and the inspection of the concrete type behind a link.

use crate::backtrace::{clone_frames, frame_models, Frame, FrameModel};
use crate::text::{before_first, chars_of, find_first, same_text, skip_leading, without_leading};
use std::any::TypeId;
use vstd::prelude::*;
use vstd::string::StringExecFns;

verus! {

/// `std::any::TypeId`, the identity of a type; a value of it is only ever
/// compared with another.
#[verifier::external_type_specification]
#[verifier::external_body]
pub struct ExTypeId(TypeId);

/// Compares two `TypeId`s with their `==`, which holds exactly of two
/// identities of the same type.
#[verifier::external_body]
fn same_type_id(a: &TypeId, b: &TypeId) -> (r: bool)
    ensures
        r == (*a == *b),
{
    a == b
}

/// The label of a chain node.
pub open spec fn chain_label() -> Seq<char> {
    "witcher::Error"@
}

/// The full path under which the chain node's type is known.
pub open spec fn long_chain_label() -> Seq<char> {
    "witcher::error::Error"@
}

/// The label made of a type's name: reference sigils and a leading `dyn`
/// are dropped, generic parameters are cut off, and the chain node's own
/// path gives way to its short name.
pub open spec fn label_of(name: Seq<char>) -> Seq<char> {
    let bare = before_first(without_leading(without_leading(name, "&"@), "dyn "@), '<');
    if bare == long_chain_label() {
        chain_label()
    } else {
        bare
    }
}

/// The label for the name of a type.
pub fn type_label(name: &str) -> (label: String)
    ensures
        label@ == label_of(name@),
{
    let text = chars_of(name);
    let amp = chars_of("&");
    let dynamic = chars_of("dyn ");
    proof {
        assert(text@.skip(0) =~= text@);
    }
    let a = skip_leading(&text, 0, &amp);
    let b = skip_leading(&text, a, &dynamic);
    let c = find_first(&text, b, '<');
    let bare = name.substring_char(b, c);
    if same_text(bare, "witcher::error::Error") {
        String::from_str("witcher::Error")
    } else {
        String::from_str(bare)
    }
}

/// The identity of the concrete type behind one link of a chain.
#[derive(Clone, Copy, Debug)]
pub enum TypeTag {
    /// The chain node's own type.
    Chain,
    /// A foreign type, by the identity that the standard library gives it.
    Foreign(TypeId),
}

impl TypeTag {
    /// Whether two tags name the same type.
    pub fn same(&self, other: &TypeTag) -> (r: bool)
        ensures
            r == (*self == *other),
    {
        match (self, other) {
            (TypeTag::Chain, TypeTag::Chain) => true,
            (TypeTag::Foreign(a), TypeTag::Foreign(b)) => same_type_id(a, b),
            _ => false,
        }
    }
}

/// What is known of one foreign error: the identity and the name of its
/// type, and its display text.
pub struct ForeignModel {
    pub type_id: TypeId,
    pub name: Seq<char>,
    pub text: Seq<char>,
}

/// What one chain node holds: its message, the label of what it wraps, and
/// the frames captured where it was made.
pub struct NodeModel {
    pub msg: Seq<char>,
    pub label: Seq<char>,
    pub frames: Seq<FrameModel>,
}

/// A chain as mathematics: its chain nodes from the outermost inwards, and
/// behind them the foreign errors, from the first external cause down to
/// the last nested one.
pub struct ChainModel {
    pub nodes: Seq<NodeModel>,
    pub foreign: Seq<ForeignModel>,
}

/// The label that a node carries which wraps `cause`.
pub open spec fn label_for(cause: ChainModel) -> Seq<char> {
    if cause.nodes.len() == 0 && cause.foreign.len() > 0 {
        label_of(cause.foreign[0].name)
    } else {
        chain_label()
    }
}

/// The chain made of a single node without a cause.
pub open spec fn origin_model(msg: Seq<char>, frames: Seq<FrameModel>) -> ChainModel {
    ChainModel {
        nodes: seq![NodeModel { msg, label: chain_label(), frames }],
        foreign: Seq::empty(),
    }
}

/// The chain made by putting a new outermost node in front of `cause`.
pub open spec fn wrapped_model(cause: ChainModel, msg: Seq<char>, frames: Seq<FrameModel>) -> ChainModel {
    ChainModel {
        nodes: seq![NodeModel { msg, label: label_for(cause), frames }] + cause.nodes,
        foreign: cause.foreign,
    }
}

/// What is left of a chain behind its outermost link.
pub open spec fn rest_of(chain: ChainModel) -> ChainModel {
    if chain.nodes.len() > 0 {
        ChainModel { nodes: chain.nodes.skip(1), foreign: chain.foreign }
    } else {
        ChainModel { nodes: chain.nodes, foreign: chain.foreign.skip(1) }
    }
}

/// Every node of the chain carries the label of what it wraps.
pub open spec fn well_labelled(chain: ChainModel) -> bool {
    forall|i: int|
        0 <= i < chain.nodes.len() ==> (#[trigger] chain.nodes[i]).label == label_for(
            ChainModel { nodes: chain.nodes.skip(i + 1), foreign: chain.foreign },
        )
}

/// The identity of the type behind the outermost link of a chain.
pub open spec fn outer_tag(chain: ChainModel) -> TypeTag {
    if chain.nodes.len() > 0 {
        TypeTag::Chain
    } else {
        TypeTag::Foreign(chain.foreign[0].type_id)
    }
}

/// The display text of the outermost link of a chain.
pub open spec fn outer_text(chain: ChainModel) -> Seq<char> {
    if chain.nodes.len() > 0 {
        chain.nodes[0].msg
    } else {
        chain.foreign[0].text
    }
}

/// A foreign error as the chain keeps it: the identity and name of its
/// concrete type, its display text, and its own nested cause.
#[derive(Debug)]
pub struct External {
    type_id: TypeId,
    name: String,
    text: String,
    source: Option<Box<External>>,
}

/// What a chain node wraps: another chain node or a foreign error.
#[derive(Debug)]
pub enum Cause {
    Node(Error),
    Foreign(External),
}

/// One link of the error chain: a message for the context, the label of the
/// wrapped cause, the frames captured where the node was made, and the cause
/// itself.
#[derive(Debug)]
pub struct Error {
    msg: String,
    label: String,
    backtrace: Vec<Frame>,
    inner: Option<Box<Cause>>,
}

impl External {
    /// The chain of foreign errors that starts with this one.
    pub closed spec fn model(&self) -> Seq<ForeignModel>
        decreases self,
    {
        let own = ForeignModel { type_id: self.type_id, name: self.name@, text: self.text@ };
        match self.source {
            Some(nested) => seq![own] + nested.model(),
            None => seq![own],
        }
    }
}

impl View for External {
    type V = Seq<ForeignModel>;

    open spec fn view(&self) -> Seq<ForeignModel> {
        self.model()
    }
}

impl Error {
    /// The chain that starts with this node.
    pub closed spec fn model(&self) -> ChainModel
        decreases self,
    {
        let own = NodeModel {
            msg: self.msg@,
            label: self.label@,
            frames: frame_models(self.backtrace@),
        };
        match self.inner {
            Some(cause) => match *cause {
                Cause::Node(node) => ChainModel {
                    nodes: seq![own] + node.model().nodes,
                    foreign: node.model().foreign,
                },
                Cause::Foreign(ext) => ChainModel { nodes: seq![own], foreign: ext.model() },
            },
            None => ChainModel { nodes: seq![own], foreign: Seq::empty() },
        }
    }
}

impl Error {
    /// Every node of a chain carries the label of what it wraps.
    #[verifier::type_invariant]
    spec fn labelled(&self) -> bool {
        well_labelled(self.model())
    }
}

impl View for Error {
    type V = ChainModel;

    open spec fn view(&self) -> ChainModel {
        self.model()
    }
}

impl View for Cause {
    type V = ChainModel;

    open spec fn view(&self) -> ChainModel {
        match self {
            Cause::Node(node) => node@,
            Cause::Foreign(ext) => ChainModel { nodes: Seq::empty(), foreign: ext@ },
        }
    }
}

impl External {
    /// A foreign error holds at least itself.
    pub proof fn lemma_nonempty(&self)
        ensures
            self@.len() >= 1,
        decreases self,
    {
        match self.source {
            Some(nested) => {
                nested.lemma_nonempty();
            },
            None => {},
        }
    }

    /// A foreign error of the type identified by `type_id` and named
    /// `name`, with the display text `text` and the nested cause
    /// `source`.
    pub fn new(type_id: TypeId, name: &str, text: &str, source: Option<External>) -> (ext:
        External)
        ensures
            ext@ == seq![ForeignModel { type_id, name: name@, text: text@ }] + (match source {
                Some(nested) => nested@,
                None => Seq::empty(),
            }),
    {
        let ghost own = ForeignModel { type_id, name: name@, text: text@ };
        proof {
            assert(seq![own] + Seq::<ForeignModel>::empty() =~= seq![own]);
        }
        External {
            type_id,
            name: String::from_str(name),
            text: String::from_str(text),
            source: match source {
                Some(nested) => Some(Box::new(nested)),
                None => None,
            },
        }
    }
}

impl Error {
    /// A chain holds at least its outermost node.
    pub proof fn lemma_nonempty(&self)
        ensures
            self@.nodes.len() >= 1,
    {
    }

    /// A node without a cause, with the message `msg` and the frames
    /// `frames`.
    pub fn origin(msg: &str, frames: Vec<Frame>) -> (node: Error)
        ensures
            node@ == origin_model(msg@, frame_models(frames@)),
    {
        proof {
            lemma_well_labelled(msg@, frame_models(frames@), origin_model(msg@, frame_models(frames@)));
        }
        Error {
            msg: String::from_str(msg),
            label: String::from_str("witcher::Error"),
            backtrace: frames,
            inner: None,
        }
    }

    /// A node around `cause`, with the message `msg` and the frames `frames`.
    pub fn around(cause: Cause, msg: &str, frames: Vec<Frame>) -> (node: Error)
        ensures
            node@ == wrapped_model(cause@, msg@, frame_models(frames@)),
    {
        let label = match &cause {
            Cause::Node(node) => {
                proof {
                    node.lemma_nonempty();
                    use_type_invariant(node);
                }
                String::from_str("witcher::Error")
            },
            Cause::Foreign(ext) => {
                proof {
                    ext.lemma_nonempty();
                    assert(well_labelled(cause@));
                }
                type_label(ext.name.as_str())
            },
        };
        proof {
            lemma_well_labelled(msg@, frame_models(frames@), cause@);
        }
        let node = Error {
            msg: String::from_str(msg),
            label,
            backtrace: frames,
            inner: Some(Box::new(cause)),
        };
        proof {
            let want = wrapped_model(cause@, msg@, frame_models(frames@));
            assert(node@.nodes =~= want.nodes);
            assert(node@.foreign =~= want.foreign);
        }
        node
    }
}

/// A reference to one link of a chain: a chain node or a foreign error.
#[derive(Clone, Copy, Debug)]
pub enum Link<'a> {
    Node(&'a Error),
    Foreign(&'a External),
}

impl<'a> View for Link<'a> {
    type V = ChainModel;

    /// The chain from this link inwards.
    open spec fn view(&self) -> ChainModel {
        match self {
            Link::Node(node) => node@,
            Link::Foreign(ext) => ChainModel { nodes: Seq::empty(), foreign: ext@ },
        }
    }
}

/// The chain from its `k`-th node inwards.
pub open spec fn from_node(chain: ChainModel, k: int) -> ChainModel {
    ChainModel { nodes: chain.nodes.skip(k), foreign: chain.foreign }
}

/// The chain that holds only the innermost link of `chain`.
pub open spec fn innermost_of(chain: ChainModel) -> ChainModel {
    if chain.foreign.len() > 0 {
        ChainModel { nodes: Seq::empty(), foreign: seq![chain.foreign.last()] }
    } else {
        ChainModel { nodes: seq![chain.nodes.last()], foreign: Seq::empty() }
    }
}

impl External {
    /// The nested cause of this foreign error.
    pub fn source(&self) -> (r: Option<&External>)
        ensures
            match r {
                Some(nested) => self@.len() > 1 && nested@ == self@.skip(1),
                None => self@.len() == 1,
            },
    {
        match &self.source {
            Some(nested) => {
                proof {
                    nested.lemma_nonempty();
                    assert(self@.skip(1) =~= nested@);
                }
                Some(&**nested)
            },
            None => None,
        }
    }

    /// The last foreign error of the chain that starts here.
    pub fn last(&self) -> (r: &External)
        ensures
            r@ == seq![self@.last()],
    {
        let mut cur: &External = self;
        let ghost mut k: int = 0;
        proof {
            self.lemma_nonempty();
            assert(self@.skip(0) =~= self@);
        }
        loop
            invariant
                0 <= k < self@.len(),
                cur@ == self@.skip(k),
            ensures
                cur@ == seq![self@.last()],
            decreases self@.len() - k,
        {
            match cur.source() {
                Some(nested) => {
                    proof {
                        assert(self@.skip(k).skip(1) =~= self@.skip(k + 1));
                        k = k + 1;
                    }
                    cur = nested;
                },
                None => {
                    proof {
                        assert(self@.skip(k) =~= seq![self@.last()]);
                    }
                    break ;
                },
            }
        }
        cur
    }

    /// The display text of this foreign error.
    pub fn to_string(&self) -> (s: String)
        ensures
            self@.len() >= 1,
            s@ == self@[0].text,
    {
        proof {
            self.lemma_nonempty();
        }
        self.text.clone()
    }

    /// The identity of this foreign error's concrete type.
    pub fn type_tag(&self) -> (tag: TypeTag)
        ensures
            self@.len() >= 1,
            tag == TypeTag::Foreign(self@[0].type_id),
    {
        proof {
            self.lemma_nonempty();
        }
        TypeTag::Foreign(self.type_id)
    }

    /// Whether the concrete type of this foreign error is the one that `tag`
    /// identifies.
    pub fn is(&self, tag: TypeTag) -> (r: bool)
        ensures
            self@.len() >= 1,
            r == (tag == TypeTag::Foreign(self@[0].type_id)),
    {
        self.type_tag().same(&tag)
    }

    /// This foreign error, where its concrete type is the one that `tag`
    /// identifies.
    pub fn downcast_ref(&self, tag: TypeTag) -> (r: Option<&External>)
        ensures
            self@.len() >= 1,
            r == (if tag == TypeTag::Foreign(self@[0].type_id) {
                Some(self)
            } else {
                None
            }),
    {
        if self.is(tag) {
            Some(self)
        } else {
            None
        }
    }
}

impl Error {
    /// The chain node that this node wraps, if it wraps one.
    pub fn inner_node(&self) -> (r: Option<&Error>)
        ensures
            match r {
                Some(node) => self@.nodes.len() > 1 && node@ == from_node(self@, 1),
                None => self@.nodes.len() == 1,
            },
    {
        match &self.inner {
            Some(cause) => match &**cause {
                Cause::Node(node) => {
                    proof {
                        node.lemma_nonempty();
                        assert(self@.nodes.skip(1) =~= node@.nodes);
                    }
                    Some(node)
                },
                Cause::Foreign(_) => None,
            },
            None => None,
        }
    }

    /// The foreign error that this node wraps, if it wraps one.
    pub fn inner_foreign(&self) -> (r: Option<&External>)
        ensures
            match r {
                Some(ext) => self@.nodes.len() == 1 && self@.foreign.len() > 0 && ext@
                    == self@.foreign,
                None => self@.nodes.len() > 1 || self@.foreign.len() == 0,
            },
    {
        match &self.inner {
            Some(cause) => match &**cause {
                Cause::Node(node) => {
                    proof {
                        node.lemma_nonempty();
                    }
                    None
                },
                Cause::Foreign(ext) => {
                    proof {
                        ext.lemma_nonempty();
                    }
                    Some(ext)
                },
            },
            None => None,
        }
    }

    /// The cause of this node.
    pub fn source(&self) -> (r: Option<Link<'_>>)
        ensures
            match r {
                Some(link) => link@ == rest_of(self@) && (link is Node <==> self@.nodes.len() > 1),
                None => self@.nodes.len() == 1 && self@.foreign.len() == 0,
            },
    {
        match self.inner_node() {
            Some(node) => Some(Link::Node(node)),
            None => match self.inner_foreign() {
                Some(ext) => {
                    proof {
                        assert(self@.nodes.skip(1) =~= Seq::<NodeModel>::empty());
                    }
                    Some(Link::Foreign(ext))
                },
                None => None,
            },
        }
    }

    /// The chain nodes from this one inwards, as far as each cause is itself
    /// a chain node.
    pub fn nodes(&self) -> (out: Vec<&Error>)
        ensures
            out.len() == self@.nodes.len(),
            out.len() >= 1,
            out[0] == self,
            forall|i: int| 0 <= i < out.len() ==> (#[trigger] out[i])@ == from_node(self@, i),
    {
        let mut out: Vec<&Error> = Vec::new();
        let mut cur: &Error = self;
        proof {
            assert(self@.nodes.skip(0) =~= self@.nodes);
        }
        loop
            invariant_except_break
                out.len() < self@.nodes.len(),
                cur@ == from_node(self@, out.len() as int),
                out.len() == 0 ==> cur == self,
            invariant
                out.len() > 0 ==> out[0] == self,
                forall|i: int| 0 <= i < out.len() ==> (#[trigger] out[i])@ == from_node(self@, i),
            ensures
                out.len() == self@.nodes.len(),
                out.len() >= 1,
                out[0] == self,
                forall|i: int| 0 <= i < out.len() ==> (#[trigger] out[i])@ == from_node(self@, i),
            decreases self@.nodes.len() - out.len(),
        {
            let ghost k = out.len() as int;
            out.push(cur);
            match cur.inner_node() {
                Some(node) => {
                    proof {
                        assert(self@.nodes.skip(k).skip(1) =~= self@.nodes.skip(k + 1));
                    }
                    cur = node;
                },
                None => {
                    break ;
                },
            }
        }
        out
    }

    /// The innermost chain node of the chain that starts here.
    pub fn innermost_node(&self) -> (r: &Error)
        ensures
            r@ == from_node(self@, self@.nodes.len() - 1),
    {
        let all = self.nodes();
        all[all.len() - 1]
    }

    /// The first external cause of the chain, or this node itself where the
    /// chain has no external cause.
    pub fn ext(&self) -> (r: Link<'_>)
        ensures
            self@.foreign.len() > 0 ==> r is Foreign && r@ == (ChainModel {
                nodes: Seq::empty(),
                foreign: self@.foreign,
            }),
            self@.foreign.len() == 0 ==> r == Link::Node(self),
    {
        match self.innermost_node().inner_foreign() {
            Some(ext) => Link::Foreign(ext),
            None => Link::Node(self),
        }
    }

    /// The last link of the chain, reached through chain nodes and foreign
    /// errors alike; this node itself where it has no cause.
    pub fn last(&self) -> (r: Link<'_>)
        ensures
            r@ == innermost_of(self@),
            r is Foreign <==> self@.foreign.len() > 0,
            self@.nodes.len() == 1 && self@.foreign.len() == 0 ==> r == Link::Node(self),
    {
        let all = self.nodes();
        let node = all[all.len() - 1];
        match node.inner_foreign() {
            Some(ext) => Link::Foreign(ext.last()),
            None => {
                proof {
                    let k = self@.nodes.len() - 1;
                    assert(self@.nodes.skip(k) =~= seq![self@.nodes.last()]);
                    assert(self@.foreign =~= Seq::<ForeignModel>::empty());
                }
                Link::Node(node)
            },
        }
    }

    /// Whether the concrete type of this node is the one that `tag`
    /// identifies, which it is for the chain node's own type alone.
    pub fn is(&self, tag: TypeTag) -> (r: bool)
        ensures
            r == (tag == TypeTag::Chain),
    {
        tag.same(&TypeTag::Chain)
    }

    /// This node, where `tag` identifies the chain node's own type.
    pub fn downcast_ref(&self, tag: TypeTag) -> (r: Option<&Error>)
        ensures
            r == (if tag == TypeTag::Chain {
                Some(self)
            } else {
                None
            }),
    {
        if self.is(tag) {
            Some(self)
        } else {
            None
        }
    }

    /// The message of this node: the terse rendering of the chain.
    pub fn to_string(&self) -> (s: String)
        ensures
            s@ == self@.nodes[0].msg,
    {
        self.msg.clone()
    }
}

impl<'a> Link<'a> {
    /// A link is a chain node with the chain behind it, or the first of a
    /// run of foreign errors.
    pub proof fn lemma_shape(&self)
        ensures
            self is Node ==> self@.nodes.len() >= 1,
            self is Foreign ==> self@.nodes.len() == 0 && self@.foreign.len() >= 1,
    {
        match self {
            Link::Node(node) => {
                node.lemma_nonempty();
            },
            Link::Foreign(ext) => {
                ext.lemma_nonempty();
            },
        }
    }

    /// The identity of the concrete type behind this link.
    pub fn type_tag(&self) -> (tag: TypeTag)
        ensures
            tag == outer_tag(self@),
    {
        proof {
            self.lemma_shape();
        }
        match self {
            Link::Node(_) => TypeTag::Chain,
            Link::Foreign(ext) => ext.type_tag(),
        }
    }

    /// Whether the concrete type behind this link is the one that `tag`
    /// identifies.
    pub fn is(&self, tag: TypeTag) -> (r: bool)
        ensures
            r == (tag == outer_tag(self@)),
    {
        self.type_tag().same(&tag)
    }

    /// This link as a chain node, where `tag` identifies the chain node's
    /// type and the link is one.
    pub fn downcast_ref(&self, tag: TypeTag) -> (r: Option<Link<'a>>)
        ensures
            r == (if tag == outer_tag(self@) {
                Some(*self)
            } else {
                None
            }),
    {
        if self.is(tag) {
            Some(*self)
        } else {
            None
        }
    }

    /// The display text of this link: the message of a chain node, the text
    /// of a foreign error.
    pub fn to_string(&self) -> (s: String)
        ensures
            s@ == outer_text(self@),
    {
        proof {
            self.lemma_shape();
        }
        match self {
            Link::Node(node) => node.to_string(),
            Link::Foreign(ext) => ext.to_string(),
        }
    }

    /// The cause of this link.
    pub fn source(&self) -> (r: Option<Link<'a>>)
        ensures
            match r {
                Some(next) => next@ == rest_of(self@),
                None => self@.nodes.len() + self@.foreign.len() == 1,
            },
    {
        proof {
            self.lemma_shape();
        }
        match self {
            Link::Node(node) => node.source(),
            Link::Foreign(ext) => match ext.source() {
                Some(nested) => Some(Link::Foreign(nested)),
                None => None,
            },
        }
    }

    /// The position of the first entry of `tags` that identifies the
    /// concrete type behind this link.
    pub fn first_match(&self, tags: &Vec<TypeTag>) -> (r: Option<usize>)
        ensures
            match r {
                Some(i) => i < tags.len() && tags[i as int] == outer_tag(self@) && forall|j: int|
                    0 <= j < i ==> tags[j] != outer_tag(self@),
                None => forall|j: int| 0 <= j < tags.len() ==> tags[j] != outer_tag(self@),
            },
    {
        let own = self.type_tag();
        let mut i: usize = 0;
        while i < tags.len()
            invariant
                i <= tags.len(),
                own == outer_tag(self@),
                forall|j: int| 0 <= j < i ==> tags[j] != outer_tag(self@),
            decreases tags.len() - i,
        {
            if tags[i].same(&own) {
                return Some(i);
            }
            i += 1;
        }
        None
    }
}

/// The minimal error contract: what a value must offer to stand as a cause
/// in a chain, or to be inspected by the retry combinators.
pub trait Fault: Sized {
    /// The chain that starts with this value.
    spec fn chain(&self) -> ChainModel;

    /// The identity of this value's concrete type.
    fn tag(&self) -> (tag: TypeTag)
        ensures
            tag == outer_tag(self.chain()),
    ;

    /// The display text of this value.
    fn describe(&self) -> (s: String)
        ensures
            s@ == outer_text(self.chain()),
    ;

    /// This value as the cause of a chain node.
    fn into_cause(self) -> (cause: Cause)
        ensures
            cause@ == self.chain(),
            cause@.nodes.len() + cause@.foreign.len() > 0,
    ;
}

impl Fault for Error {
    open spec fn chain(&self) -> ChainModel {
        self@
    }

    fn tag(&self) -> (tag: TypeTag) {
        TypeTag::Chain
    }

    fn describe(&self) -> (s: String) {
        self.to_string()
    }

    fn into_cause(self) -> (cause: Cause) {
        Cause::Node(self)
    }
}

impl Fault for External {
    open spec fn chain(&self) -> ChainModel {
        ChainModel { nodes: Seq::empty(), foreign: self@ }
    }

    fn tag(&self) -> (tag: TypeTag) {
        self.type_tag()
    }

    fn describe(&self) -> (s: String) {
        self.to_string()
    }

    fn into_cause(self) -> (cause: Cause) {
        proof {
            self.lemma_nonempty();
        }
        Cause::Foreign(self)
    }
}

impl Fault for Cause {
    open spec fn chain(&self) -> ChainModel {
        self@
    }

    fn tag(&self) -> (tag: TypeTag) {
        match self {
            Cause::Node(node) => node.tag(),
            Cause::Foreign(ext) => ext.tag(),
        }
    }

    fn describe(&self) -> (s: String) {
        match self {
            Cause::Node(node) => node.describe(),
            Cause::Foreign(ext) => ext.describe(),
        }
    }

    fn into_cause(self) -> (cause: Cause) {
        match self {
            Cause::Node(node) => node.into_cause(),
            Cause::Foreign(ext) => ext.into_cause(),
        }
    }
}

impl Error {
    /// A node without a cause, with the message `msg` and the frames of the
    /// stack at the point of call, file paths taken relative to `cwd`.
    pub fn raw(msg: &str, cwd: Option<&str>) -> (node: Error)
        ensures
            node@ == origin_model(msg@, node@.nodes[0].frames),
    {
        Error::origin(msg, crate::backtrace::new(cwd))
    }

    /// A node around `err`, with the message `msg` and the frames of the
    /// stack at the point of call, file paths taken relative to `cwd`.
    pub fn wrapr<E: Fault>(err: E, msg: &str, cwd: Option<&str>) -> (node: Error)
        ensures
            node@ == wrapped_model(err.chain(), msg@, node@.nodes[0].frames),
    {
        Error::around(err.into_cause(), msg, crate::backtrace::new(cwd))
    }

    /// A failure that holds a node without a cause, made as `raw` makes it.
    pub fn new<T>(msg: &str, cwd: Option<&str>) -> (r: Result<T, Error>)
        ensures
            r matches Err(node) && node@ == origin_model(msg@, node@.nodes[0].frames),
    {
        Err(Error::raw(msg, cwd))
    }

    /// A failure that holds a node around `err`, made as `wrapr` makes it.
    pub fn wrap<T, E: Fault>(err: E, msg: &str, cwd: Option<&str>) -> (r: Result<T, Error>)
        ensures
            r matches Err(node) && node@ == wrapped_model(
                err.chain(),
                msg@,
                node@.nodes[0].frames,
            ),
    {
        Err(Error::wrapr(err, msg, cwd))
    }

    /// A node around `err` whose message is the display text of `err`, so
    /// that the chain reads as `err` did.
    pub fn pass<T, E: Fault>(err: E, cwd: Option<&str>) -> (r: Result<T, Error>)
        ensures
            r matches Err(node) && node@ == wrapped_model(
                err.chain(),
                outer_text(err.chain()),
                node@.nodes[0].frames,
            ),
    {
        let msg = err.describe();
        Err(Error::wrapr(err, msg.as_str(), cwd))
    }
}

impl External {
    /// The name of this foreign error's concrete type.
    pub fn name(&self) -> (s: String)
        ensures
            self@.len() >= 1,
            s@ == self@[0].name,
    {
        proof {
            self.lemma_nonempty();
        }
        self.name.clone()
    }

    /// The identity of this foreign error's concrete type.
    pub fn type_id(&self) -> (id: TypeId)
        ensures
            self@.len() >= 1,
            id == self@[0].type_id,
    {
        proof {
            self.lemma_nonempty();
        }
        self.type_id
    }
}

impl Error {
    /// The label of what this node wraps.
    pub fn label(&self) -> (s: String)
        ensures
            s@ == self@.nodes[0].label,
            well_labelled(self@),
    {
        proof {
            use_type_invariant(self);
        }
        self.label.clone()
    }

    /// The frames captured where this node was made.
    pub fn frames(&self) -> (frames: &Vec<Frame>)
        ensures
            frame_models(frames@) == self@.nodes[0].frames,
    {
        &self.backtrace
    }

    /// This node for writing, where `tag` identifies the chain node's own
    /// type.
    pub fn downcast_mut(&mut self, tag: TypeTag) -> (r: Option<&mut Error>)
        ensures
            tag == TypeTag::Chain ==> (r matches Some(node) && *node == *old(self) && *final(self)
                == *final(node)),
            tag != TypeTag::Chain ==> (r is None && *final(self) == *old(self)),
    {
        if tag.same(&TypeTag::Chain) {
            Some(self)
        } else {
            None
        }
    }
}

/// The chain made by wrapping `base` once for each entry of `wraps`, in
/// order: an entry holds the message and the frames of one new node.
pub open spec fn wrapped_all(base: ChainModel, wraps: Seq<(Seq<char>, Seq<FrameModel>)>) -> ChainModel
    decreases wraps.len(),
{
    if wraps.len() == 0 {
        base
    } else {
        wrapped_model(wrapped_all(base, wraps.drop_last()), wraps.last().0, wraps.last().1)
    }
}

/// Wrapping adds one chain node in front and leaves the foreign errors as
/// they are.
pub proof fn lemma_wrapped_all_shape(base: ChainModel, wraps: Seq<(Seq<char>, Seq<FrameModel>)>)
    ensures
        wrapped_all(base, wraps).nodes.len() == base.nodes.len() + wraps.len(),
        wrapped_all(base, wraps).foreign == base.foreign,
    decreases wraps.len(),
{
    if wraps.len() > 0 {
        lemma_wrapped_all_shape(base, wraps.drop_last());
    }
}

/// Every node of a chain made by the constructors carries the label of
/// what it wraps: an origin does, and a wrap keeps it so.
pub proof fn lemma_well_labelled(msg: Seq<char>, frames: Seq<FrameModel>, cause: ChainModel)
    ensures
        well_labelled(origin_model(msg, frames)),
        well_labelled(cause) ==> well_labelled(wrapped_model(cause, msg, frames)),
{
    let origin = origin_model(msg, frames);
    assert forall|i: int| 0 <= i < origin.nodes.len() implies (#[trigger] origin.nodes[i]).label
        == label_for(ChainModel { nodes: origin.nodes.skip(i + 1), foreign: origin.foreign }) by {
        assert(origin.nodes.skip(i + 1) =~= Seq::<NodeModel>::empty());
    }
    if well_labelled(cause) {
        let chain = wrapped_model(cause, msg, frames);
        assert forall|i: int| 0 <= i < chain.nodes.len() implies (#[trigger] chain.nodes[i]).label
            == label_for(ChainModel { nodes: chain.nodes.skip(i + 1), foreign: chain.foreign }) by {
            if i == 0 {
                assert(chain.nodes.skip(1) =~= cause.nodes);
            } else {
                assert(chain.nodes[i] == cause.nodes[i - 1]);
                assert(chain.nodes.skip(i + 1) =~= cause.nodes.skip(i));
            }
        }
    }
}

impl Clone for External {
    /// A foreign error with the same chain.
    fn clone(&self) -> (copy: External)
        ensures
            copy@ == self@,
        decreases self,
    {
        External {
            type_id: self.type_id,
            name: self.name.clone(),
            text: self.text.clone(),
            source: match &self.source {
                Some(nested) => Some(Box::new((**nested).clone())),
                None => None,
            },
        }
    }
}

impl Clone for Cause {
    /// A cause with the same chain.
    fn clone(&self) -> (copy: Cause)
        ensures
            copy@ == self@,
        decreases self, 0nat,
    {
        match self {
            Cause::Node(node) => Cause::Node(node.clone()),
            Cause::Foreign(ext) => Cause::Foreign(ext.clone()),
        }
    }
}

impl Clone for Error {
    /// A node with the same chain.
    fn clone(&self) -> (copy: Error)
        ensures
            copy@ == self@,
        decreases self, 1nat,
    {
        proof {
            use_type_invariant(self);
        }
        let backtrace = clone_frames(&self.backtrace);
        let inner = match &self.inner {
            Some(cause) => Some(Box::new((**cause).clone())),
            None => None,
        };
        let copy = Error { msg: self.msg.clone(), label: self.label.clone(), backtrace, inner };
        proof {
            assert(copy.model().nodes =~= self.model().nodes);
            assert(copy.model().foreign =~= self.model().foreign);
        }
        copy
    }
}

} // verus!
