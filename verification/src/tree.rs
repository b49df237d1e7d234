//! The parse tree that the grammar hands over: rule-tagged nodes, each with the text it
//! matched and its child nodes in source order.

use vstd::prelude::*;

verus! {

/// The rule that a parse-tree node was matched by.
///
/// The first group tags the whole score and the parts that commands are made of; every
/// other rule is one command of the language.
#[derive(Clone, Copy, Debug, PartialEq, Eq, Hash, Structural)]
pub enum Rule {
    /// The whole score; its children are the commands in source order.
    Mml,
    /// A decimal integer, with its sign if it has one.
    Number,
    /// One place in a parameter list; it holds a [`Rule::Number`] or nothing.
    Parameter,
    /// The three numbers of a control change's envelope: low, high and length.
    OnTime,
    /// The run of note letters of a harmony.
    Notes,
    /// The one-character name of a rhythm macro.
    MacroName,
    /// The text inside a comment.
    CommentText,
    /// The end of the score.
    EndOfInput,
    AbcNote,
    MidiNote,
    Rest,
    Length,
    Octave,
    PitchBend,
    Gate,
    Velocity,
    Timing,
    ControlChange,
    MacroDef,
    VoiceSelect,
    OctaveUp,
    OctaveDown,
    VelocityUp,
    VelocityDown,
    RangeComment,
    LineCommentDebug,
    LineComment,
    LoopBegin,
    LoopBreak,
    LoopEnd,
    Harmony,
    RhythmMacroDefine,
    GroupNotes,
    OctaveUpOnce,
    OctaveDownOnce,
    PlayFromHere,
    TieSlur,
}

/// A node of the parse tree.
#[derive(Debug, PartialEq, Eq)]
pub struct ParseNode {
    /// The rule that matched.
    pub rule: Rule,
    /// The text that the node matched.
    pub text: String,
    /// The text that the node's children span, from the start of the first to the end of
    /// the last; empty where the node has no children.
    pub inner: String,
    /// The nodes matched inside this one, in source order.
    pub children: Vec<ParseNode>,
}

/// The mathematical value of a [`ParseNode`].
pub struct Tree {
    pub rule: Rule,
    pub text: Seq<char>,
    pub inner: Seq<char>,
    pub children: Seq<Tree>,
}

/// The values of a run of nodes, in order.
pub open spec fn views(nodes: Seq<ParseNode>) -> Seq<Tree>
    decreases nodes,
{
    Seq::new(
        nodes.len(),
        |i: int|
            if 0 <= i < nodes.len() {
                nodes[i]@
            } else {
                arbitrary()
            },
    )
}

impl View for ParseNode {
    type V = Tree;

    open spec fn view(&self) -> Tree
        decreases self,
    {
        Tree {
            rule: self.rule,
            text: self.text@,
            inner: self.inner@,
            children: views(self.children@),
        }
    }
}

impl Clone for ParseNode {
    fn clone(&self) -> (r: Self)
        ensures
            r@ == self@,
        decreases self,
    {
        let mut children: Vec<ParseNode> = Vec::new();
        let mut i: usize = 0;
        while i < self.children.len()
            invariant
                i <= self.children.len(),
                children@.len() == i,
                forall|k: int| 0 <= k < i ==> (#[trigger] children@[k])@ == self.children@[k]@,
            decreases self.children.len() - i,
        {
            let child = self.children[i].clone();
            children.push(child);
            i += 1;
        }
        proof {
            assert(views(children@) =~= views(self.children@));
        }
        ParseNode { rule: self.rule, text: self.text.clone(), inner: self.inner.clone(), children }
    }
}

impl ParseNode {
    /// A node without children that matched `text`.
    pub fn leaf(rule: Rule, text: &str) -> (r: ParseNode)
        ensures
            r@ == (Tree { rule, text: text@, inner: Seq::empty(), children: Seq::empty() }),
    {
        let r = ParseNode {
            rule,
            text: text.to_owned(),
            inner: String::new(),
            children: Vec::new(),
        };
        proof {
            assert(views(r.children@) =~= Seq::empty());
        }
        r
    }

    /// A node that matched `text`, with `children` spanning `inner` of it.
    pub fn branch(rule: Rule, text: &str, inner: &str, children: Vec<ParseNode>) -> (r: ParseNode)
        ensures
            r@ == (Tree { rule, text: text@, inner: inner@, children: views(children@) }),
    {
        ParseNode { rule, text: text.to_owned(), inner: inner.to_owned(), children }
    }
}

} // verus!
