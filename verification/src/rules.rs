//! From parse tree to abstract syntax: what each rule's node converts to.

use crate::ast::{Ast, CommentKind};
use crate::error::ConversionError;
use crate::number::number_of;
use crate::text::first_occurrences;
use crate::tree::{Rule, Tree};
use vstd::prelude::*;

verus! {

/// The number that child `i` writes, where the rule cannot do without it: `missing`
/// if there is no such child.
pub open spec fn required_number(children: Seq<Tree>, i: int, missing: ConversionError) -> Result<
    isize,
    ConversionError,
> {
    if 0 <= i < children.len() {
        match number_of(children[i].text) {
            Some(n) => Ok(n),
            None => Err(ConversionError::InvalidNumber),
        }
    } else {
        Err(missing)
    }
}

/// The number that child `i` writes, where the rule can do without it: `None` if
/// there is no such child.
pub open spec fn optional_number(children: Seq<Tree>, i: int) -> Result<
    Option<isize>,
    ConversionError,
> {
    if 0 <= i < children.len() {
        match number_of(children[i].text) {
            Some(n) => Ok(Some(n)),
            None => Err(ConversionError::InvalidNumber),
        }
    } else {
        Ok(None)
    }
}

/// The number that the first child of `t` writes.
pub open spec fn number_in(t: Tree) -> Result<isize, ConversionError> {
    required_number(t.children, 0, ConversionError::ExpectedNumber)
}

/// The number in place `i` of a note's parameter list: `None` where the list is
/// shorter, and where the place holds no number.
pub open spec fn parameter(children: Seq<Tree>, i: int) -> Option<isize> {
    if 0 <= i < children.len() {
        match number_in(children[i]) {
            Ok(n) => Some(n),
            Err(_) => None,
        }
    } else {
        None
    }
}

/// The note that a node of rule [`Rule::AbcNote`] writes: its letter is the first
/// character of the text; the first child is the length, the next four are gate,
/// velocity, timing and scale.
pub open spec fn note_in(t: Tree) -> Result<Ast, ConversionError> {
    if t.text.len() == 0 {
        Err(ConversionError::ExpectedNoteLetter)
    } else if t.children.len() > 0 && number_in(t.children[0]) is Err {
        Err(number_in(t.children[0])->Err_0)
    } else if t.children.len() > 5 {
        Err(ConversionError::TooManyParameters)
    } else {
        Ok(
            Ast::Note {
                note: t.text[0],
                length: parameter(t.children, 0),
                gate: parameter(t.children, 1),
                velocity: parameter(t.children, 2),
                timing: parameter(t.children, 3),
                scale: parameter(t.children, 4),
            },
        )
    }
}

/// The note that a node of rule [`Rule::MidiNote`] writes: the first child is the
/// note number, the next four are length, gate, velocity and timing.
pub open spec fn numbered_note_in(t: Tree) -> Result<Ast, ConversionError> {
    match required_number(t.children, 0, ConversionError::ExpectedNoteNumber) {
        Err(e) => Err(e),
        Ok(note_no) => if t.children.len() > 5 {
            Err(ConversionError::TooManyParameters)
        } else {
            Ok(
                Ast::NNote {
                    note_no,
                    length: parameter(t.children, 1),
                    gate: parameter(t.children, 2),
                    velocity: parameter(t.children, 3),
                    timing: parameter(t.children, 4),
                },
            )
        },
    }
}

/// A value and, where a second child is there, how far it may vary at random.
pub open spec fn value_and_random_in(t: Tree) -> Result<(isize, Option<isize>), ConversionError> {
    match required_number(t.children, 0, ConversionError::ExpectedValue) {
        Err(e) => Err(e),
        Ok(value) => match optional_number(t.children, 1) {
            Err(e) => Err(e),
            Ok(random) => Ok((value, random)),
        },
    }
}

/// The envelope that the children of a control change's third child write: low, high
/// and length, all three or an error.
pub open spec fn on_time_in(group: Seq<Tree>) -> Result<(isize, isize, isize), ConversionError> {
    match required_number(group, 0, ConversionError::ExpectedLow) {
        Err(e) => Err(e),
        Ok(low) => match required_number(group, 1, ConversionError::ExpectedHigh) {
            Err(e) => Err(e),
            Ok(high) => match required_number(group, 2, ConversionError::ExpectedLength) {
                Err(e) => Err(e),
                Ok(length) => Ok((low, high, length)),
            },
        },
    }
}

/// Controller, value and, where a third child is there, the envelope.
pub open spec fn control_change_in(t: Tree) -> Result<
    (isize, isize, Option<(isize, isize, isize)>),
    ConversionError,
> {
    match required_number(t.children, 0, ConversionError::ExpectedController) {
        Err(e) => Err(e),
        Ok(controller) => match required_number(t.children, 1, ConversionError::ExpectedValue) {
            Err(e) => Err(e),
            Ok(value) => if t.children.len() > 2 {
                match on_time_in(t.children[2].children) {
                    Err(e) => Err(e),
                    Ok(on_time) => Ok((controller, value, Some(on_time))),
                }
            } else {
                Ok((controller, value, None))
            },
        },
    }
}

/// Program number, then the bank's low byte and high byte as far as children are
/// there: the high byte is the third child, so there is none without a low byte.
pub open spec fn voice_select_in(t: Tree) -> Result<
    (isize, Option<isize>, Option<isize>),
    ConversionError,
> {
    match required_number(t.children, 0, ConversionError::ExpectedVoiceNumber) {
        Err(e) => Err(e),
        Ok(number) => match optional_number(t.children, 1) {
            Err(e) => Err(e),
            Ok(bank_lsb) => match optional_number(t.children, 2) {
                Err(e) => Err(e),
                Ok(bank_msb) => Ok((number, bank_lsb, bank_msb)),
            },
        },
    }
}

/// The notes of a harmony, then its length and gate as far as children are there. The
/// notes are a set written in order: the letters of the first child's text, each once,
/// in the order in which they first occur. A gate is the third child, so there is none
/// without a length.
pub open spec fn harmony_in(t: Tree) -> Result<
    (Seq<char>, Option<isize>, Option<isize>),
    ConversionError,
> {
    if t.children.len() == 0 {
        Err(ConversionError::ExpectedNotes)
    } else {
        match optional_number(t.children, 1) {
            Err(e) => Err(e),
            Ok(length) => match optional_number(t.children, 2) {
                Err(e) => Err(e),
                Ok(gate) => Ok((first_occurrences(t.children[0].text), length, gate)),
            },
        }
    }
}

/// Whether the last child of a group is its length.
pub open spec fn has_trailing_length(children: Seq<Tree>) -> bool {
    children.len() > 0 && children.last().rule == Rule::Number
}

/// The rhythm macro that a node of rule [`Rule::RhythmMacroDefine`] writes: its name
/// is the first character of the first child's text, its body the command that the
/// second child converts to. A body that yields no command is an error here: nothing
/// stands in for it.
pub open spec fn rhythm_macro_in(t: Tree) -> Result<Ast, ConversionError>
    decreases t, 0int,
{
    if t.children.len() == 0 || t.children[0].text.len() == 0 {
        Err(ConversionError::ExpectedMacroName)
    } else if t.children.len() == 1 {
        Err(ConversionError::ExpectedMacroDefinition)
    } else {
        match conversion(t.children[1]) {
            Ok(definition) => Ok(
                Ast::RhythmMacroDefine {
                    name: t.children[0].text[0],
                    definition: Box::new(definition),
                },
            ),
            Err(_) => Err(ConversionError::MacroDefinitionFailed),
        }
    }
}

/// The commands of a group and its length. A last child of rule [`Rule::Number`] is
/// the length; every other child is a command of the group, and one that does not
/// convert is left out.
pub open spec fn group_notes_in(t: Tree) -> Result<(Seq<Ast>, Option<isize>), ConversionError>
    decreases t, 0int,
{
    if has_trailing_length(t.children) {
        match number_of(t.children.last().text) {
            Some(n) => Ok((conversions(t.children.drop_last()), Some(n))),
            None => Err(ConversionError::InvalidNumber),
        }
    } else {
        Ok((conversions(t.children), None))
    }
}

/// What a node converts to: the command of its rule, or why there is none.
pub open spec fn conversion(t: Tree) -> Result<Ast, ConversionError>
    decreases t, 1int,
{
    match t.rule {
        Rule::AbcNote => note_in(t),
        Rule::MidiNote => numbered_note_in(t),
        Rule::Rest => Ok(Ast::Rest(None)),
        Rule::Length => match number_in(t) {
            Ok(n) => Ok(Ast::Length(n)),
            Err(e) => Err(e),
        },
        Rule::Octave => match number_in(t) {
            Ok(n) => Ok(Ast::Octave(n)),
            Err(e) => Err(e),
        },
        Rule::PitchBend => match number_in(t) {
            Ok(n) => Ok(Ast::PitchBend(n)),
            Err(e) => Err(e),
        },
        Rule::Gate => match number_in(t) {
            Ok(n) => Ok(Ast::Gate(n)),
            Err(e) => Err(e),
        },
        Rule::Velocity => match value_and_random_in(t) {
            Ok((value, random)) => Ok(Ast::Velocity { value, random }),
            Err(e) => Err(e),
        },
        Rule::Timing => match value_and_random_in(t) {
            Ok((value, random)) => Ok(Ast::Timing { value, random }),
            Err(e) => Err(e),
        },
        Rule::ControlChange => match control_change_in(t) {
            Ok((controller, value, on_time)) => Ok(Ast::ControlChange { controller, value, on_time }),
            Err(e) => Err(e),
        },
        Rule::MacroDef => Ok(Ast::Macro(t.text)),
        Rule::VoiceSelect => match voice_select_in(t) {
            Ok((number, bank_lsb, bank_msb)) => Ok(Ast::VoiceSelect { number, bank_lsb, bank_msb }),
            Err(e) => Err(e),
        },
        Rule::OctaveUp => Ok(Ast::OctaveUp),
        Rule::OctaveDown => Ok(Ast::OctaveDown),
        Rule::VelocityUp => match optional_number(t.children, 0) {
            Ok(n) => Ok(Ast::VelocityUp(n)),
            Err(e) => Err(e),
        },
        Rule::VelocityDown => match optional_number(t.children, 0) {
            Ok(n) => Ok(Ast::VelocityDown(n)),
            Err(e) => Err(e),
        },
        Rule::RangeComment => Ok(Ast::Comment { kind: CommentKind::RangeComment, content: t.inner }),
        Rule::LineCommentDebug => Ok(
            Ast::Comment { kind: CommentKind::LineCommentDebug, content: t.inner },
        ),
        Rule::LineComment => Ok(Ast::Comment { kind: CommentKind::LineComment, content: t.inner }),
        Rule::LoopBegin => match optional_number(t.children, 0) {
            Ok(n) => Ok(Ast::LoopBegin(n)),
            Err(e) => Err(e),
        },
        Rule::LoopBreak => Ok(Ast::LoopBreak),
        Rule::LoopEnd => Ok(Ast::LoopEnd),
        Rule::Harmony => match harmony_in(t) {
            Ok((notes, length, gate)) => Ok(Ast::Harmony { notes, length, gate }),
            Err(e) => Err(e),
        },
        Rule::RhythmMacroDefine => rhythm_macro_in(t),
        Rule::GroupNotes => match group_notes_in(t) {
            Ok((notes, length)) => Ok(Ast::GroupedNotes { notes, length }),
            Err(e) => Err(e),
        },
        Rule::OctaveUpOnce => Ok(Ast::OctaveUpOnce),
        Rule::OctaveDownOnce => Ok(Ast::OctaveDownOnce),
        Rule::PlayFromHere => Ok(Ast::PlayFromHere),
        Rule::TieSlur => Ok(Ast::TieSlur),
        _ => Err(ConversionError::UnknownRule),
    }
}

/// The commands of a run of nodes, in order: each node that converts gives one, and a
/// node that does not gives none.
pub open spec fn conversions(ts: Seq<Tree>) -> Seq<Ast>
    decreases ts, 2int,
{
    if ts.len() == 0 {
        Seq::empty()
    } else {
        match conversion(ts.last()) {
            Ok(a) => conversions(ts.drop_last()).push(a),
            Err(_) => conversions(ts.drop_last()),
        }
    }
}

/// The commands of a score: those of the children of each top-level node, in order.
pub open spec fn score(pairs: Seq<Tree>) -> Seq<Ast>
    decreases pairs.len(),
{
    if pairs.len() == 0 {
        Seq::empty()
    } else {
        score(pairs.drop_last()) + conversions(pairs.last().children)
    }
}

/// The failures met inside a rhythm macro: those of its body, where the macro has a
/// name and a body to convert.
pub open spec fn rhythm_macro_failures(t: Tree) -> Seq<ConversionError>
    decreases t, 0int,
{
    if t.children.len() > 1 && t.children[0].text.len() > 0 {
        failures(t.children[1])
    } else {
        Seq::empty()
    }
}

/// The failures met inside a group: those of its commands, in source order.
pub open spec fn group_failures(t: Tree) -> Seq<ConversionError>
    decreases t, 0int,
{
    if has_trailing_length(t.children) {
        failures_of_all(t.children.drop_last())
    } else {
        failures_of_all(t.children)
    }
}

/// The failures met while the parts of a node are converted. Only a rhythm macro and
/// a group convert nodes of their own.
pub open spec fn failures_inside(t: Tree) -> Seq<ConversionError>
    decreases t, 1int,
{
    match t.rule {
        Rule::RhythmMacroDefine => rhythm_macro_failures(t),
        Rule::GroupNotes => group_failures(t),
        _ => Seq::empty(),
    }
}

/// The failures met while a node is converted, in the order in which they are met:
/// those inside it, and then its own if it yields no command.
pub open spec fn failures(t: Tree) -> Seq<ConversionError>
    decreases t, 2int,
{
    match conversion(t) {
        Ok(_) => failures_inside(t),
        Err(e) => failures_inside(t).push(e),
    }
}

/// The failures met while a run of nodes is converted, node after node.
pub open spec fn failures_of_all(ts: Seq<Tree>) -> Seq<ConversionError>
    decreases ts, 3int,
{
    if ts.len() == 0 {
        Seq::empty()
    } else {
        failures_of_all(ts.drop_last()) + failures(ts.last())
    }
}

/// The failures met while a score is built: those of the children of each top-level
/// node, in source order.
pub open spec fn score_failures(pairs: Seq<Tree>) -> Seq<ConversionError>
    decreases pairs.len(),
{
    if pairs.len() == 0 {
        Seq::empty()
    } else {
        score_failures(pairs.drop_last()) + failures_of_all(pairs.last().children)
    }
}

} // verus!
