//! The abstract syntax: one node for each command of a score.

use vstd::prelude::*;

verus! {

/// How a comment was written.
#[derive(Clone, Copy, Debug, PartialEq, Eq, Hash, Structural)]
pub enum CommentKind {
    /// Between `/*` and `*/`.
    RangeComment,
    /// To the end of the line, and shown when debugging.
    LineCommentDebug,
    /// To the end of the line.
    LineComment,
}

/// One command of a score. A field that the score leaves out is `None`: what it
/// then stands for is decided when the score is played, not here.
#[allow(inconsistent_fields)]
#[derive(Debug, PartialEq, Eq)]
pub enum MmlAst {
    /// A note named by its letter.
    Note {
        note: char,
        length: Option<isize>,
        gate: Option<isize>,
        velocity: Option<isize>,
        timing: Option<isize>,
        scale: Option<isize>,
    },
    /// A note named by its absolute pitch number.
    NNote {
        note_no: isize,
        length: Option<isize>,
        gate: Option<isize>,
        velocity: Option<isize>,
        timing: Option<isize>,
    },
    /// Silence.
    Rest(Option<isize>),
    /// The default length of the notes that follow.
    Length(isize),
    /// The octave of the notes that follow.
    Octave(isize),
    /// The amount of pitch bend.
    PitchBend(isize),
    /// The default gate of the notes that follow.
    Gate(isize),
    /// The default velocity, and how far it may vary at random.
    Velocity { value: isize, random: Option<isize> },
    /// The default timing offset, and how far it may vary at random.
    Timing { value: isize, random: Option<isize> },
    /// A control change, with the envelope (low, high, length) if it has one.
    ControlChange { controller: isize, value: isize, on_time: Option<(isize, isize, isize)> },
    /// A macro, kept as it was written.
    Macro(String),
    /// The choice of an instrument.
    VoiceSelect { number: isize, bank_lsb: Option<isize>, bank_msb: Option<isize> },
    /// One octave up, from here on.
    OctaveUp,
    /// One octave down, from here on.
    OctaveDown,
    /// More velocity.
    VelocityUp(Option<isize>),
    /// Less velocity.
    VelocityDown(Option<isize>),
    /// A comment and its text.
    Comment { kind: CommentKind, content: String },
    /// The start of a loop, with the number of rounds if it is given.
    LoopBegin(Option<isize>),
    /// Where the last round of a loop leaves it.
    LoopBreak,
    /// The end of the innermost loop.
    LoopEnd,
    /// Notes that sound together: a set of letters, each once, in the order in which
    /// they were first written.
    Harmony { notes: Vec<char>, length: Option<isize>, gate: Option<isize> },
    /// A name for a command, to be used in rhythms.
    RhythmMacroDefine { name: char, definition: Box<MmlAst> },
    /// Commands that share one length.
    GroupedNotes { notes: Vec<MmlAst>, length: Option<isize> },
    /// One octave up, for the next note only.
    OctaveUpOnce,
    /// One octave down, for the next note only.
    OctaveDownOnce,
    /// Where playing starts.
    PlayFromHere,
    /// A tie or slur into the next note.
    TieSlur,
}

/// The mathematical value of an [`MmlAst`].
#[allow(inconsistent_fields)]
pub enum Ast {
    Note {
        note: char,
        length: Option<isize>,
        gate: Option<isize>,
        velocity: Option<isize>,
        timing: Option<isize>,
        scale: Option<isize>,
    },
    NNote {
        note_no: isize,
        length: Option<isize>,
        gate: Option<isize>,
        velocity: Option<isize>,
        timing: Option<isize>,
    },
    Rest(Option<isize>),
    Length(isize),
    Octave(isize),
    PitchBend(isize),
    Gate(isize),
    Velocity { value: isize, random: Option<isize> },
    Timing { value: isize, random: Option<isize> },
    ControlChange { controller: isize, value: isize, on_time: Option<(isize, isize, isize)> },
    Macro(Seq<char>),
    VoiceSelect { number: isize, bank_lsb: Option<isize>, bank_msb: Option<isize> },
    OctaveUp,
    OctaveDown,
    VelocityUp(Option<isize>),
    VelocityDown(Option<isize>),
    Comment { kind: CommentKind, content: Seq<char> },
    LoopBegin(Option<isize>),
    LoopBreak,
    LoopEnd,
    Harmony { notes: Seq<char>, length: Option<isize>, gate: Option<isize> },
    RhythmMacroDefine { name: char, definition: Box<Ast> },
    GroupedNotes { notes: Seq<Ast>, length: Option<isize> },
    OctaveUpOnce,
    OctaveDownOnce,
    PlayFromHere,
    TieSlur,
}

/// The values of a run of commands, in order.
pub open spec fn ast_views(nodes: Seq<MmlAst>) -> Seq<Ast>
    decreases nodes,
{
    Seq::new(
        nodes.len(),
        |i: int|
            if 0 <= i < nodes.len() {
                ast_view(nodes[i])
            } else {
                arbitrary()
            },
    )
}

/// The value of one command.
pub open spec fn ast_view(node: MmlAst) -> Ast
    decreases node,
{
    match node {
        MmlAst::Note { note, length, gate, velocity, timing, scale } => Ast::Note {
            note,
            length,
            gate,
            velocity,
            timing,
            scale,
        },
        MmlAst::NNote { note_no, length, gate, velocity, timing } => Ast::NNote {
            note_no,
            length,
            gate,
            velocity,
            timing,
        },
        MmlAst::Rest(length) => Ast::Rest(length),
        MmlAst::Length(n) => Ast::Length(n),
        MmlAst::Octave(n) => Ast::Octave(n),
        MmlAst::PitchBend(n) => Ast::PitchBend(n),
        MmlAst::Gate(n) => Ast::Gate(n),
        MmlAst::Velocity { value, random } => Ast::Velocity { value, random },
        MmlAst::Timing { value, random } => Ast::Timing { value, random },
        MmlAst::ControlChange { controller, value, on_time } => Ast::ControlChange {
            controller,
            value,
            on_time,
        },
        MmlAst::Macro(content) => Ast::Macro(content@),
        MmlAst::VoiceSelect { number, bank_lsb, bank_msb } => Ast::VoiceSelect {
            number,
            bank_lsb,
            bank_msb,
        },
        MmlAst::OctaveUp => Ast::OctaveUp,
        MmlAst::OctaveDown => Ast::OctaveDown,
        MmlAst::VelocityUp(n) => Ast::VelocityUp(n),
        MmlAst::VelocityDown(n) => Ast::VelocityDown(n),
        MmlAst::Comment { kind, content } => Ast::Comment { kind, content: content@ },
        MmlAst::LoopBegin(n) => Ast::LoopBegin(n),
        MmlAst::LoopBreak => Ast::LoopBreak,
        MmlAst::LoopEnd => Ast::LoopEnd,
        MmlAst::Harmony { notes, length, gate } => Ast::Harmony { notes: notes@, length, gate },
        MmlAst::RhythmMacroDefine { name, definition } => Ast::RhythmMacroDefine {
            name,
            definition: Box::new(ast_view(*definition)),
        },
        MmlAst::GroupedNotes { notes, length } => Ast::GroupedNotes {
            notes: ast_views(notes@),
            length,
        },
        MmlAst::OctaveUpOnce => Ast::OctaveUpOnce,
        MmlAst::OctaveDownOnce => Ast::OctaveDownOnce,
        MmlAst::PlayFromHere => Ast::PlayFromHere,
        MmlAst::TieSlur => Ast::TieSlur,
    }
}

impl View for MmlAst {
    type V = Ast;

    open spec fn view(&self) -> Ast {
        ast_view(*self)
    }
}

impl Clone for MmlAst {
    fn clone(&self) -> (r: Self)
        ensures
            r@ == self@,
        decreases self,
    {
        match self {
            MmlAst::Note { note, length, gate, velocity, timing, scale } => MmlAst::Note {
                note: *note,
                length: *length,
                gate: *gate,
                velocity: *velocity,
                timing: *timing,
                scale: *scale,
            },
            MmlAst::NNote { note_no, length, gate, velocity, timing } => MmlAst::NNote {
                note_no: *note_no,
                length: *length,
                gate: *gate,
                velocity: *velocity,
                timing: *timing,
            },
            MmlAst::Rest(length) => MmlAst::Rest(*length),
            MmlAst::Length(n) => MmlAst::Length(*n),
            MmlAst::Octave(n) => MmlAst::Octave(*n),
            MmlAst::PitchBend(n) => MmlAst::PitchBend(*n),
            MmlAst::Gate(n) => MmlAst::Gate(*n),
            MmlAst::Velocity { value, random } => MmlAst::Velocity { value: *value, random: *random },
            MmlAst::Timing { value, random } => MmlAst::Timing { value: *value, random: *random },
            MmlAst::ControlChange { controller, value, on_time } => MmlAst::ControlChange {
                controller: *controller,
                value: *value,
                on_time: *on_time,
            },
            MmlAst::Macro(content) => MmlAst::Macro(content.clone()),
            MmlAst::VoiceSelect { number, bank_lsb, bank_msb } => MmlAst::VoiceSelect {
                number: *number,
                bank_lsb: *bank_lsb,
                bank_msb: *bank_msb,
            },
            MmlAst::OctaveUp => MmlAst::OctaveUp,
            MmlAst::OctaveDown => MmlAst::OctaveDown,
            MmlAst::VelocityUp(n) => MmlAst::VelocityUp(*n),
            MmlAst::VelocityDown(n) => MmlAst::VelocityDown(*n),
            MmlAst::Comment { kind, content } => MmlAst::Comment {
                kind: *kind,
                content: content.clone(),
            },
            MmlAst::LoopBegin(n) => MmlAst::LoopBegin(*n),
            MmlAst::LoopBreak => MmlAst::LoopBreak,
            MmlAst::LoopEnd => MmlAst::LoopEnd,
            MmlAst::Harmony { notes, length, gate } => {
                let mut copy: Vec<char> = Vec::new();
                let mut i: usize = 0;
                while i < notes.len()
                    invariant
                        i <= notes.len(),
                        copy@ == notes@.take(i as int),
                    decreases notes.len() - i,
                {
                    copy.push(notes[i]);
                    proof {
                        assert(notes@.take(i as int).push(notes@[i as int]) =~= notes@.take(i + 1));
                    }
                    i += 1;
                }
                proof {
                    assert(notes@.take(i as int) =~= notes@);
                }
                MmlAst::Harmony { notes: copy, length: *length, gate: *gate }
            },
            MmlAst::RhythmMacroDefine { name, definition } => {
                let body = (**definition).clone();
                MmlAst::RhythmMacroDefine { name: *name, definition: Box::new(body) }
            },
            MmlAst::GroupedNotes { notes, length } => {
                let mut copy: Vec<MmlAst> = Vec::new();
                let mut i: usize = 0;
                while i < notes.len()
                    invariant
                        i <= notes.len(),
                        copy@.len() == i,
                        forall|k: int| 0 <= k < i ==> (#[trigger] copy@[k])@ == notes@[k]@,
                        *self == (MmlAst::GroupedNotes { notes: *notes, length: *length }),
                    decreases notes.len() - i,
                {
                    proof {
                        assert(decreases_to!(*self => self->GroupedNotes_notes));
                    }
                    let note = notes[i].clone();
                    copy.push(note);
                    i += 1;
                }
                proof {
                    assert(ast_views(copy@) =~= ast_views(notes@));
                }
                MmlAst::GroupedNotes { notes: copy, length: *length }
            },
            MmlAst::OctaveUpOnce => MmlAst::OctaveUpOnce,
            MmlAst::OctaveDownOnce => MmlAst::OctaveDownOnce,
            MmlAst::PlayFromHere => MmlAst::PlayFromHere,
            MmlAst::TieSlur => MmlAst::TieSlur,
        }
    }
}

} // verus!
