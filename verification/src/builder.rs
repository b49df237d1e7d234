//! Building the abstract syntax from a parse tree.

use crate::ast::{ast_views, Ast, CommentKind, MmlAst};
use crate::error::{ConversionError, SyntaxError};
use crate::number::parse_number;
use crate::rules::{
    control_change_in, conversion, conversions, failures, failures_inside, failures_of_all,
    group_failures, group_notes_in, harmony_in, note_in, number_in, numbered_note_in,
    optional_number, parameter, required_number, rhythm_macro_failures, rhythm_macro_in, score,
    score_failures, value_and_random_in, voice_select_in,
};
use crate::text::{distinct_chars, is_set_in_order_of, lemma_first_occurrences};
use crate::tree::{views, ParseNode, Rule};
use vstd::prelude::*;

verus! {

/// Reads child `i` as a number that has to be there.
fn required_number_at(children: &Vec<ParseNode>, i: usize, missing: ConversionError) -> (r: Result<
    isize,
    ConversionError,
>)
    ensures
        r == required_number(views(children@), i as int, missing),
{
    if i < children.len() {
        match parse_number(children[i].text.as_str()) {
            Some(n) => Ok(n),
            None => Err(ConversionError::InvalidNumber),
        }
    } else {
        Err(missing)
    }
}

/// Reads child `i` as a number that may be missing.
fn optional_number_at(children: &Vec<ParseNode>, i: usize) -> (r: Result<
    Option<isize>,
    ConversionError,
>)
    ensures
        r == optional_number(views(children@), i as int),
{
    if i < children.len() {
        match parse_number(children[i].text.as_str()) {
            Some(n) => Ok(Some(n)),
            None => Err(ConversionError::InvalidNumber),
        }
    } else {
        Ok(None)
    }
}

/// Reads the number that the first child of `node` writes.
pub fn extract_number(node: &ParseNode) -> (r: Result<isize, ConversionError>)
    ensures
        r == number_in(node@),
{
    required_number_at(&node.children, 0, ConversionError::ExpectedNumber)
}

/// Reads the number that the first child of `node` writes, if there is a child.
pub fn extract_optional_number(node: &ParseNode) -> (r: Result<Option<isize>, ConversionError>)
    ensures
        r == optional_number(node@.children, 0),
{
    optional_number_at(&node.children, 0)
}

/// Reads place `i` of a note's parameter list.
fn parameter_at(children: &Vec<ParseNode>, i: usize) -> (r: Option<isize>)
    ensures
        r == parameter(views(children@), i as int),
{
    if i < children.len() {
        match extract_number(&children[i]) {
            Ok(n) => Some(n),
            Err(_) => None,
        }
    } else {
        None
    }
}

/// Reads a note: its letter, its length and up to four parameters.
pub fn extract_note(node: &ParseNode) -> (r: Result<MmlAst, ConversionError>)
    ensures
        match r {
            Ok(a) => note_in(node@) == Ok::<Ast, ConversionError>(a@),
            Err(e) => note_in(node@) == Err::<Ast, ConversionError>(e),
        },
{
    let text = node.text.as_str();
    if text.is_empty() {
        return Err(ConversionError::ExpectedNoteLetter);
    }
    let note = text.get_char(0);
    proof {
        assert(node@.children == views(node.children@));
        if node.children.len() > 0 {
            assert(node@.children[0] == node.children@[0]@);
        }
    }
    let length = if node.children.len() > 0 {
        match extract_number(&node.children[0]) {
            Ok(n) => Some(n),
            Err(e) => { return Err(e); },
        }
    } else {
        None
    };
    if node.children.len() > 5 {
        return Err(ConversionError::TooManyParameters);
    }
    Ok(
        MmlAst::Note {
            note,
            length,
            gate: parameter_at(&node.children, 1),
            velocity: parameter_at(&node.children, 2),
            timing: parameter_at(&node.children, 3),
            scale: parameter_at(&node.children, 4),
        },
    )
}

/// Reads a numbered note: its note number and up to four parameters.
pub fn extract_numbered_note(node: &ParseNode) -> (r: Result<MmlAst, ConversionError>)
    ensures
        match r {
            Ok(a) => numbered_note_in(node@) == Ok::<Ast, ConversionError>(a@),
            Err(e) => numbered_note_in(node@) == Err::<Ast, ConversionError>(e),
        },
{
    let note_no = required_number_at(&node.children, 0, ConversionError::ExpectedNoteNumber)?;
    if node.children.len() > 5 {
        return Err(ConversionError::TooManyParameters);
    }
    Ok(
        MmlAst::NNote {
            note_no,
            length: parameter_at(&node.children, 1),
            gate: parameter_at(&node.children, 2),
            velocity: parameter_at(&node.children, 3),
            timing: parameter_at(&node.children, 4),
        },
    )
}

/// Reads a value and, if it is there, its random spread.
pub fn extract_value_and_random(node: &ParseNode) -> (r: Result<
    (isize, Option<isize>),
    ConversionError,
>)
    ensures
        r == value_and_random_in(node@),
{
    let value = required_number_at(&node.children, 0, ConversionError::ExpectedValue)?;
    let random = optional_number_at(&node.children, 1)?;
    Ok((value, random))
}

/// Reads a control change: controller, value and, if it is there, the envelope.
pub fn extract_control_change(node: &ParseNode) -> (r: Result<
    (isize, isize, Option<(isize, isize, isize)>),
    ConversionError,
>)
    ensures
        r == control_change_in(node@),
{
    let controller = required_number_at(&node.children, 0, ConversionError::ExpectedController)?;
    let value = required_number_at(&node.children, 1, ConversionError::ExpectedValue)?;
    let on_time = if node.children.len() > 2 {
        let group = &node.children[2].children;
        let low = required_number_at(group, 0, ConversionError::ExpectedLow)?;
        let high = required_number_at(group, 1, ConversionError::ExpectedHigh)?;
        let length = required_number_at(group, 2, ConversionError::ExpectedLength)?;
        Some((low, high, length))
    } else {
        None
    };
    Ok((controller, value, on_time))
}

/// Reads a voice selection: program number, then bank low byte and high byte.
pub fn extract_voice_select(node: &ParseNode) -> (r: Result<
    (isize, Option<isize>, Option<isize>),
    ConversionError,
>)
    ensures
        r == voice_select_in(node@),
{
    let number = required_number_at(&node.children, 0, ConversionError::ExpectedVoiceNumber)?;
    let bank_lsb = optional_number_at(&node.children, 1)?;
    let bank_msb = optional_number_at(&node.children, 2)?;
    Ok((number, bank_lsb, bank_msb))
}

/// The text inside a comment.
pub fn extract_comment_content(node: &ParseNode) -> (r: String)
    ensures
        r@ == node@.inner,
{
    node.inner.clone()
}

/// Reads a harmony: its notes, then length and gate. The notes are the set of the
/// letters of the first child, each once, in the order in which they first occur.
pub fn extract_harmony(node: &ParseNode) -> (r: Result<
    (Vec<char>, Option<isize>, Option<isize>),
    ConversionError,
>)
    ensures
        match r {
            Ok((notes, length, gate)) => harmony_in(node@) == Ok::<
                (Seq<char>, Option<isize>, Option<isize>),
                ConversionError,
            >((notes@, length, gate)),
            Err(e) => harmony_in(node@) == Err::<
                (Seq<char>, Option<isize>, Option<isize>),
                ConversionError,
            >(e),
        },
        r matches Ok((notes, _, _)) ==> node@.children.len() > 0 && is_set_in_order_of(
            notes@,
            node@.children[0].text,
        ),
{
    if node.children.len() == 0 {
        return Err(ConversionError::ExpectedNotes);
    }
    let notes = distinct_chars(node.children[0].text.as_str());
    let length = optional_number_at(&node.children, 1)?;
    let gate = optional_number_at(&node.children, 2)?;
    Ok((notes, length, gate))
}

/// Reads a rhythm macro: its name and the command it stands for. The failures met
/// in its body are added to `log`.
pub fn extract_rhythm_macro_define(node: &ParseNode, log: &mut Vec<ConversionError>) -> (r: Result<
    MmlAst,
    ConversionError,
>)
    ensures
        match r {
            Ok(a) => rhythm_macro_in(node@) == Ok::<Ast, ConversionError>(a@),
            Err(e) => rhythm_macro_in(node@) == Err::<Ast, ConversionError>(e),
        },
        final(log)@ == old(log)@ + rhythm_macro_failures(node@),
    decreases node, 0int,
{
    proof {
        assert(node@.children == views(node.children@));
        if node.children.len() > 0 {
            assert(node@.children[0] == node.children@[0]@);
        }
        if node.children.len() > 1 {
            assert(node@.children[1] == node.children@[1]@);
        }
    }
    if node.children.len() == 0 {
        return Err(ConversionError::ExpectedMacroName);
    }
    let name_text = node.children[0].text.as_str();
    if name_text.is_empty() {
        return Err(ConversionError::ExpectedMacroName);
    }
    let name = name_text.get_char(0);
    if node.children.len() == 1 {
        return Err(ConversionError::ExpectedMacroDefinition);
    }
    match parse_command_logging(&node.children[1], log) {
        Some(definition) => Ok(MmlAst::RhythmMacroDefine { name, definition: Box::new(definition) }),
        None => Err(ConversionError::MacroDefinitionFailed),
    }
}

/// Converts the first `count` of `children`, leaving out those that do not convert
/// and adding the failures met to `log`.
fn convert_all(children: &Vec<ParseNode>, count: usize, log: &mut Vec<ConversionError>) -> (r: Vec<
    MmlAst,
>)
    requires
        count <= children.len(),
    ensures
        ast_views(r@) == conversions(views(children@).take(count as int)),
        final(log)@ == old(log)@ + failures_of_all(views(children@).take(count as int)),
    decreases children, 3int,
{
    let mut notes: Vec<MmlAst> = Vec::new();
    let mut i: usize = 0;
    while i < count
        invariant
            i <= count <= children.len(),
            ast_views(notes@) == conversions(views(children@).take(i as int)),
            log@ == old(log)@ + failures_of_all(views(children@).take(i as int)),
        decreases count - i,
    {
        let ghost before = notes@;
        let ghost logged = log@;
        let converted = parse_command_logging(&children[i], log);
        proof {
            let ts = views(children@);
            assert(ts.take(i + 1).drop_last() =~= ts.take(i as int));
            assert(ts.take(i + 1).last() == children@[i as int]@);
            assert(log@ =~= old(log)@ + (failures_of_all(ts.take(i as int)) + failures(
                children@[i as int]@,
            )));
        }
        if let Some(note) = converted {
            let ghost value = note@;
            notes.push(note);
            proof {
                assert(ast_views(notes@) =~= ast_views(before).push(value));
            }
        }
        i += 1;
    }
    notes
}

/// Reads a group: its commands and, if the last child is a number, its length. The
/// failures met in its commands are added to `log`.
pub fn extract_group_notes(node: &ParseNode, log: &mut Vec<ConversionError>) -> (r: Result<
    (Vec<MmlAst>, Option<isize>),
    ConversionError,
>)
    ensures
        match r {
            Ok((notes, length)) => group_notes_in(node@) == Ok::<
                (Seq<Ast>, Option<isize>),
                ConversionError,
            >((ast_views(notes@), length)),
            Err(e) => group_notes_in(node@) == Err::<(Seq<Ast>, Option<isize>), ConversionError>(e),
        },
        final(log)@ == old(log)@ + group_failures(node@),
    decreases node, 0int,
{
    let n = node.children.len();
    if n > 0 && node.children[n - 1].rule == Rule::Number {
        let notes = convert_all(&node.children, n - 1, log);
        proof {
            let ts = views(node.children@);
            assert(ts.take(n - 1) =~= ts.drop_last());
        }
        match parse_number(node.children[n - 1].text.as_str()) {
            Some(length) => Ok((notes, Some(length))),
            None => Err(ConversionError::InvalidNumber),
        }
    } else {
        let notes = convert_all(&node.children, n, log);
        proof {
            let ts = views(node.children@);
            assert(ts.take(n as int) =~= ts);
        }
        Ok((notes, None))
    }
}

/// Converts one node to the command of its rule, or says why it yields none. The
/// failures met inside the node are added to `log`.
fn convert_logging(node: &ParseNode, log: &mut Vec<ConversionError>) -> (r: Result<
    MmlAst,
    ConversionError,
>)
    ensures
        match r {
            Ok(a) => conversion(node@) == Ok::<Ast, ConversionError>(a@),
            Err(e) => conversion(node@) == Err::<Ast, ConversionError>(e),
        },
        final(log)@ == old(log)@ + failures_inside(node@),
    decreases node, 1int,
{
    proof {
        assert(log@ + Seq::<ConversionError>::empty() =~= log@);
    }
    match node.rule {
        Rule::AbcNote => extract_note(node),
        Rule::MidiNote => extract_numbered_note(node),
        Rule::Rest => Ok(MmlAst::Rest(None)),
        Rule::Length => {
            let num = extract_number(node)?;
            Ok(MmlAst::Length(num))
        },
        Rule::Octave => {
            let num = extract_number(node)?;
            Ok(MmlAst::Octave(num))
        },
        Rule::PitchBend => {
            let num = extract_number(node)?;
            Ok(MmlAst::PitchBend(num))
        },
        Rule::Gate => {
            let num = extract_number(node)?;
            Ok(MmlAst::Gate(num))
        },
        Rule::Velocity => {
            let (value, random) = extract_value_and_random(node)?;
            Ok(MmlAst::Velocity { value, random })
        },
        Rule::Timing => {
            let (value, random) = extract_value_and_random(node)?;
            Ok(MmlAst::Timing { value, random })
        },
        Rule::ControlChange => {
            let (controller, value, on_time) = extract_control_change(node)?;
            Ok(MmlAst::ControlChange { controller, value, on_time })
        },
        Rule::MacroDef => Ok(MmlAst::Macro(node.text.clone())),
        Rule::VoiceSelect => {
            let (number, bank_lsb, bank_msb) = extract_voice_select(node)?;
            Ok(MmlAst::VoiceSelect { number, bank_lsb, bank_msb })
        },
        Rule::OctaveUp => Ok(MmlAst::OctaveUp),
        Rule::OctaveDown => Ok(MmlAst::OctaveDown),
        Rule::VelocityUp => {
            let num = extract_optional_number(node)?;
            Ok(MmlAst::VelocityUp(num))
        },
        Rule::VelocityDown => {
            let num = extract_optional_number(node)?;
            Ok(MmlAst::VelocityDown(num))
        },
        Rule::RangeComment => {
            let content = extract_comment_content(node);
            Ok(MmlAst::Comment { kind: CommentKind::RangeComment, content })
        },
        Rule::LineCommentDebug => {
            let content = extract_comment_content(node);
            Ok(MmlAst::Comment { kind: CommentKind::LineCommentDebug, content })
        },
        Rule::LineComment => {
            let content = extract_comment_content(node);
            Ok(MmlAst::Comment { kind: CommentKind::LineComment, content })
        },
        Rule::LoopBegin => {
            let num = extract_optional_number(node)?;
            Ok(MmlAst::LoopBegin(num))
        },
        Rule::LoopBreak => Ok(MmlAst::LoopBreak),
        Rule::LoopEnd => Ok(MmlAst::LoopEnd),
        Rule::Harmony => {
            let (notes, length, gate) = extract_harmony(node)?;
            Ok(MmlAst::Harmony { notes, length, gate })
        },
        Rule::RhythmMacroDefine => extract_rhythm_macro_define(node, log),
        Rule::GroupNotes => {
            let (notes, length) = extract_group_notes(node, log)?;
            Ok(MmlAst::GroupedNotes { notes, length })
        },
        Rule::OctaveUpOnce => Ok(MmlAst::OctaveUpOnce),
        Rule::OctaveDownOnce => Ok(MmlAst::OctaveDownOnce),
        Rule::PlayFromHere => Ok(MmlAst::PlayFromHere),
        Rule::TieSlur => Ok(MmlAst::TieSlur),
        _ => Err(ConversionError::UnknownRule),
    }
}

/// Converts one node, with `None` for a node that yields no command. The failures
/// met are added to `log`: those inside the node, and then its own.
fn parse_command_logging(node: &ParseNode, log: &mut Vec<ConversionError>) -> (r: Option<MmlAst>)
    ensures
        match r {
            Some(a) => conversion(node@) == Ok::<Ast, ConversionError>(a@),
            None => conversion(node@) is Err,
        },
        final(log)@ == old(log)@ + failures(node@),
    decreases node, 2int,
{
    match convert_logging(node, log) {
        Ok(ast) => Some(ast),
        Err(e) => {
            log.push(e);
            proof {
                assert(log@ =~= old(log)@ + failures_inside(node@).push(e));
            }
            None
        },
    }
}

/// Whether `r` is what a score builds to, given what the grammar made of it: the
/// grammar's refusal where it refused, else the commands of the score.
pub open spec fn parses_to(
    pairs: Result<Vec<ParseNode>, SyntaxError>,
    r: Result<Vec<MmlAst>, SyntaxError>,
) -> bool {
    match pairs {
        Ok(nodes) => r matches Ok(ast) && ast_views(ast@) == score(views(nodes@)),
        Err(e) => r == Err::<Vec<MmlAst>, SyntaxError>(e),
    }
}

impl MmlAst {
    /// Converts one node of the parse tree to the command of its rule, or says why the
    /// node yields none.
    pub fn convert(node: &ParseNode) -> (r: Result<MmlAst, ConversionError>)
        ensures
            match r {
                Ok(a) => conversion(node@) == Ok::<Ast, ConversionError>(a@),
                Err(e) => conversion(node@) == Err::<Ast, ConversionError>(e),
            },
            r matches Ok(a) ==> (a@ is Harmony ==> node@.children.len() > 0 && is_set_in_order_of(
                a@->Harmony_notes,
                node@.children[0].text,
            )),
    {
        proof {
            if node@.rule == Rule::Harmony && node@.children.len() > 0 {
                lemma_first_occurrences(node@.children[0].text);
            }
        }
        let mut log: Vec<ConversionError> = Vec::new();
        convert_logging(node, &mut log)
    }

    /// Converts one node of the parse tree, with `None` for a node that yields no
    /// command.
    pub fn parse_command(node: &ParseNode) -> (r: Option<MmlAst>)
        ensures
            match r {
                Some(a) => conversion(node@) == Ok::<Ast, ConversionError>(a@),
                None => conversion(node@) is Err,
            },
    {
        let mut log: Vec<ConversionError> = Vec::new();
        parse_command_logging(node, &mut log)
    }

    /// Builds the commands of a score from what the grammar made of it. Where the
    /// grammar refused the score, so does this. Else the result holds, in source order,
    /// the command of each child of each top-level node; a child that yields no
    /// command is left out.
    pub fn parse(pairs: Result<Vec<ParseNode>, SyntaxError>) -> (r: Result<Vec<MmlAst>, SyntaxError>)
        ensures
            parses_to(pairs, r),
    {
        let nodes = match pairs {
            Ok(nodes) => nodes,
            Err(e) => { return Err(e); },
        };
        let mut log: Vec<ConversionError> = Vec::new();
        let mut ast: Vec<MmlAst> = Vec::new();
        let mut i: usize = 0;
        while i < nodes.len()
            invariant
                i <= nodes.len(),
                ast_views(ast@) == score(views(nodes@).take(i as int)),
            decreases nodes.len() - i,
        {
            let ghost before = ast@;
            let mut commands = convert_all(&nodes[i].children, nodes[i].children.len(), &mut log);
            proof {
                let ps = views(nodes@);
                let cs = views(nodes@[i as int].children@);
                assert(cs.take(cs.len() as int) =~= cs);
                assert(ps.take(i + 1).drop_last() =~= ps.take(i as int));
                assert(ps.take(i + 1).last() == nodes@[i as int]@);
            }
            let ghost added = commands@;
            ast.append(&mut commands);
            proof {
                assert(ast_views(ast@) =~= ast_views(before) + ast_views(added));
            }
            i += 1;
        }
        proof {
            assert(views(nodes@).take(i as int) =~= views(nodes@));
        }
        Ok(ast)
    }

    /// The failures met while the score of `pairs` is built, in the order in which
    /// they are met: one for each node that is left out, a node inside a group or a
    /// rhythm macro too. Nodes follow one another in source order, and the failures
    /// inside a node come before the node's own.
    pub fn failures(pairs: &Vec<ParseNode>) -> (r: Vec<ConversionError>)
        ensures
            r@ == score_failures(views(pairs@)),
    {
        let mut log: Vec<ConversionError> = Vec::new();
        let mut i: usize = 0;
        while i < pairs.len()
            invariant
                i <= pairs.len(),
                log@ == score_failures(views(pairs@).take(i as int)),
            decreases pairs.len() - i,
        {
            let _ = convert_all(&pairs[i].children, pairs[i].children.len(), &mut log);
            proof {
                let ps = views(pairs@);
                let cs = views(pairs@[i as int].children@);
                assert(cs.take(cs.len() as int) =~= cs);
                assert(ps.take(i + 1).drop_last() =~= ps.take(i as int));
                assert(ps.take(i + 1).last() == pairs@[i as int]@);
            }
            i += 1;
        }
        proof {
            assert(views(pairs@).take(i as int) =~= views(pairs@));
        }
        log
    }
}

} // verus!
