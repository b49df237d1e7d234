//! What holds of every conversion, stated over the rules and proved from them.

use crate::ast::{ast_views, Ast, CommentKind, MmlAst};
use crate::builder::parses_to;
use crate::error::{ConversionError, SyntaxError};
use crate::number::number_of;
use crate::rules::{
    conversion, conversions, failures, failures_of_all, group_notes_in, harmony_in, note_in,
    numbered_note_in, rhythm_macro_in, score, score_failures, voice_select_in,
};
use crate::text::{first_occurrences, is_set_in_order_of, lemma_first_occurrences};
use crate::tree::{views, ParseNode, Rule, Tree};
use vstd::prelude::*;

verus! {

/// The number that place `i` of a parameter list holds: the one that the first child
/// of child `i` writes. `None` where the list has no place `i`, the place is empty,
/// or what it holds is no number.
pub open spec fn number_at_place(children: Seq<Tree>, i: int) -> Option<isize> {
    if 0 <= i < children.len() && children[i].children.len() > 0 {
        number_of(children[i].children[0].text)
    } else {
        None
    }
}

/// A note that has a letter, at most five places and a number in the first place, if
/// there is one, converts to a `Note`. Its length, gate, velocity, timing and scale
/// are the numbers in places 0 to 4: a field is present exactly where its place is
/// there and holds a number, whatever the other places hold.
pub proof fn lemma_note_fields_follow_places(t: Tree)
    requires
        t.text.len() > 0,
        t.children.len() <= 5,
        t.children.len() > 0 ==> number_at_place(t.children, 0) is Some,
    ensures
        note_in(t) == Ok::<Ast, ConversionError>(
            Ast::Note {
                note: t.text[0],
                length: number_at_place(t.children, 0),
                gate: number_at_place(t.children, 1),
                velocity: number_at_place(t.children, 2),
                timing: number_at_place(t.children, 3),
                scale: number_at_place(t.children, 4),
            },
        ),
        t.rule == Rule::AbcNote ==> conversion(t) == note_in(t),
{
}

/// A numbered note whose first child writes a number, with at most four places after
/// it, converts to an `NNote` with that note number. Its length, gate, velocity and
/// timing are the numbers in places 1 to 4: a field is present exactly where its
/// place is there and holds a number. There is no fifth field.
pub proof fn lemma_numbered_note_fields_follow_places(t: Tree)
    requires
        t.children.len() > 0,
        number_of(t.children[0].text) is Some,
        t.children.len() <= 5,
    ensures
        numbered_note_in(t) == Ok::<Ast, ConversionError>(
            Ast::NNote {
                note_no: number_of(t.children[0].text)->Some_0,
                length: number_at_place(t.children, 1),
                gate: number_at_place(t.children, 2),
                velocity: number_at_place(t.children, 3),
                timing: number_at_place(t.children, 4),
            },
        ),
        t.rule == Rule::MidiNote ==> conversion(t) == numbered_note_in(t),
{
}

/// A rest converts to a rest without a length, whatever its text and its children.
pub proof fn lemma_rest_has_no_length(t: Tree)
    requires
        t.rule == Rule::Rest,
    ensures
        conversion(t) == Ok::<Ast, ConversionError>(Ast::Rest(None)),
{
}

/// A voice selection takes its program number from the first child, the bank's low
/// byte from the second and its high byte from the third, each as far as it is there:
/// with one child both bank fields are absent, with two only the high byte is, and
/// no voice selection has a high byte without a low byte.
pub proof fn lemma_voice_select_banks_in_order(t: Tree)
    requires
        t.children.len() > 0,
        forall|i: int| 0 <= i < t.children.len() && i < 3 ==> number_of(t.children[i].text) is Some,
    ensures
        voice_select_in(t) == Ok::<(isize, Option<isize>, Option<isize>), ConversionError>(
            (
                number_of(t.children[0].text)->Some_0,
                if t.children.len() > 1 {
                    number_of(t.children[1].text)
                } else {
                    None
                },
                if t.children.len() > 2 {
                    number_of(t.children[2].text)
                } else {
                    None
                },
            ),
        ),
        voice_select_in(t)->Ok_0.2 is Some ==> voice_select_in(t)->Ok_0.1 is Some,
        t.rule == Rule::VoiceSelect ==> conversion(t) == Ok::<Ast, ConversionError>(
            Ast::VoiceSelect {
                number: voice_select_in(t)->Ok_0.0,
                bank_lsb: voice_select_in(t)->Ok_0.1,
                bank_msb: voice_select_in(t)->Ok_0.2,
            },
        ),
{
}

/// A harmony takes its notes from the first child's text, its length from the second
/// child and its gate from the third, each as far as it is there: with the letters
/// alone both are absent, with one number only its gate is, and no harmony has a
/// gate without a length. Its notes are a set written in order: no letter stands
/// twice, a letter is a note exactly when it occurs in the text, and the notes stand
/// in the order in which their letters first occur.
pub proof fn lemma_harmony_length_then_gate(t: Tree)
    requires
        t.children.len() > 0,
        forall|i: int|
            1 <= i < t.children.len() && i < 3 ==> number_of(t.children[i].text) is Some,
    ensures
        harmony_in(t) == Ok::<(Seq<char>, Option<isize>, Option<isize>), ConversionError>(
            (
                first_occurrences(t.children[0].text),
                if t.children.len() > 1 {
                    number_of(t.children[1].text)
                } else {
                    None
                },
                if t.children.len() > 2 {
                    number_of(t.children[2].text)
                } else {
                    None
                },
            ),
        ),
        harmony_in(t)->Ok_0.2 is Some ==> harmony_in(t)->Ok_0.1 is Some,
        is_set_in_order_of(harmony_in(t)->Ok_0.0, t.children[0].text),
        t.rule == Rule::Harmony ==> conversion(t) == Ok::<Ast, ConversionError>(
            Ast::Harmony {
                notes: harmony_in(t)->Ok_0.0,
                length: harmony_in(t)->Ok_0.1,
                gate: harmony_in(t)->Ok_0.2,
            },
        ),
{
    lemma_first_occurrences(t.children[0].text);
}

/// The commands of two runs of nodes, one after the other, are the commands of the
/// first followed by those of the second: converting keeps the order, and what one
/// node yields does not depend on its neighbours.
pub proof fn lemma_conversions_of_concatenation(a: Seq<Tree>, b: Seq<Tree>)
    ensures
        conversions(a + b) == conversions(a) + conversions(b),
    decreases b.len(),
{
    if b.len() == 0 {
        assert(a + b =~= a);
        assert(conversions(a) + conversions(b) =~= conversions(a));
    } else {
        lemma_conversions_of_concatenation(a, b.drop_last());
        assert((a + b).drop_last() =~= a + b.drop_last());
        assert((a + b).last() == b.last());
        match conversion(b.last()) {
            Ok(x) => {
                assert((conversions(a) + conversions(b.drop_last())).push(x) =~= conversions(a)
                    + conversions(b.drop_last()).push(x));
            },
            Err(_) => {},
        }
    }
}

/// The commands of a run of nodes are what those of its nodes that convert convert to,
/// in the order of the nodes.
pub proof fn lemma_conversions_keep_what_converts(ts: Seq<Tree>)
    ensures
        conversions(ts) == ts.filter(|t: Tree| conversion(t) is Ok).map_values(
            |t: Tree| conversion(t)->Ok_0,
        ),
    decreases ts.len(),
{
    reveal(Seq::filter);
    let converts = |t: Tree| conversion(t) is Ok;
    let command = |t: Tree| conversion(t)->Ok_0;
    if ts.len() == 0 {
        assert(ts.filter(converts).map_values(command) =~= Seq::<Ast>::empty());
    } else {
        lemma_conversions_keep_what_converts(ts.drop_last());
        let kept = ts.drop_last().filter(converts);
        if converts(ts.last()) {
            assert(kept.push(ts.last()).map_values(command) =~= kept.map_values(command).push(
                command(ts.last()),
            ));
        }
    }
}

/// One node gives one command if it converts, and none if it does not.
pub proof fn lemma_conversions_of_one(t: Tree)
    ensures
        conversions(seq![t]) == match conversion(t) {
            Ok(a) => seq![a],
            Err(_) => Seq::<Ast>::empty(),
        },
        conversions(seq![t]) == command_or_nothing(t),
{
    assert(seq![t].drop_last() =~= Seq::<Tree>::empty());
    assert(conversions(seq![t].drop_last()) =~= Seq::<Ast>::empty());
    match conversion(t) {
        Ok(a) => {
            assert(Seq::<Ast>::empty().push(a) =~= seq![a]);
        },
        Err(_) => {},
    }
}

/// What one node adds to the commands of a run: its command if it converts, nothing
/// if it does not.
pub open spec fn command_or_nothing(t: Tree) -> Seq<Ast> {
    match conversion(t) {
        Ok(a) => seq![a],
        Err(_) => Seq::empty(),
    }
}

/// The commands of three nodes are what the first adds, then what the second adds,
/// then what the third adds.
pub proof fn lemma_conversions_of_three(a: Tree, b: Tree, c: Tree)
    ensures
        conversions(seq![a, b, c]) == command_or_nothing(a) + command_or_nothing(b)
            + command_or_nothing(c),
{
    assert(seq![a, b, c] =~= seq![a] + seq![b] + seq![c]);
    lemma_conversions_of_concatenation(seq![a] + seq![b], seq![c]);
    lemma_conversions_of_concatenation(seq![a], seq![b]);
    lemma_conversions_of_one(a);
    lemma_conversions_of_one(b);
    lemma_conversions_of_one(c);
}

/// A group of three commands of which exactly one, `bad`, does not convert yields a
/// group of the other two, in the order in which they stand, and no error.
pub proof fn lemma_group_leaves_out_what_fails(t: Tree, bad: int)
    requires
        t.children.len() == 3,
        t.children[2].rule != Rule::Number,
        0 <= bad < 3,
        conversion(t.children[0]) is Err <==> bad == 0,
        conversion(t.children[1]) is Err <==> bad == 1,
        conversion(t.children[2]) is Err <==> bad == 2,
    ensures
        group_notes_in(t) == Ok::<(Seq<Ast>, Option<isize>), ConversionError>(
            (
                if bad == 0 {
                    seq![conversion(t.children[1])->Ok_0, conversion(t.children[2])->Ok_0]
                } else if bad == 1 {
                    seq![conversion(t.children[0])->Ok_0, conversion(t.children[2])->Ok_0]
                } else {
                    seq![conversion(t.children[0])->Ok_0, conversion(t.children[1])->Ok_0]
                },
                None,
            ),
        ),
        t.rule == Rule::GroupNotes ==> conversion(t) == Ok::<Ast, ConversionError>(
            Ast::GroupedNotes { notes: group_notes_in(t)->Ok_0.0, length: None },
        ),
{
    let c = t.children;
    let first = command_or_nothing(c[0]);
    let second = command_or_nothing(c[1]);
    let third = command_or_nothing(c[2]);
    assert(c =~= seq![c[0], c[1], c[2]]);
    lemma_conversions_of_three(c[0], c[1], c[2]);
    assert(conversions(c) == first + second + third);
    if bad == 0 {
        assert(first + second + third =~= seq![conversion(c[1])->Ok_0, conversion(c[2])->Ok_0]);
    } else if bad == 1 {
        assert(first + second + third =~= seq![conversion(c[0])->Ok_0, conversion(c[2])->Ok_0]);
    } else {
        assert(first + second + third =~= seq![conversion(c[0])->Ok_0, conversion(c[1])->Ok_0]);
    }
}

/// A group never has more commands than children, and as many only if every child
/// converts.
pub proof fn lemma_conversions_length(ts: Seq<Tree>)
    ensures
        conversions(ts).len() <= ts.len(),
        conversions(ts).len() == ts.len() <==> forall|i: int|
            0 <= i < ts.len() ==> conversion(#[trigger] ts[i]) is Ok,
    decreases ts.len(),
{
    if ts.len() > 0 {
        lemma_conversions_length(ts.drop_last());
        let head = ts.drop_last();
        if conversions(ts).len() == ts.len() {
            assert forall|i: int| 0 <= i < ts.len() implies conversion(#[trigger] ts[i]) is Ok by {
                if i < head.len() {
                    assert(head[i] == ts[i]);
                }
            }
        }
        if forall|i: int| 0 <= i < ts.len() ==> conversion(#[trigger] ts[i]) is Ok {
            assert forall|i: int| 0 <= i < head.len() implies conversion(#[trigger] head[i]) is Ok by {
                assert(head[i] == ts[i]);
            }
            assert(conversion(ts[ts.len() - 1]) is Ok);
        }
    }
}

/// A rhythm macro whose body does not convert does not convert either, and one that
/// converts holds what its body converts to: nothing ever stands in for the body.
pub proof fn lemma_macro_needs_its_body(t: Tree)
    ensures
        t.children.len() > 1 && conversion(t.children[1]) is Err ==> rhythm_macro_in(t) is Err,
        rhythm_macro_in(t) matches Ok(a) ==> {
            &&& t.children.len() > 1
            &&& t.children[0].text.len() > 0
            &&& conversion(t.children[1]) is Ok
            &&& a == Ast::RhythmMacroDefine {
                name: t.children[0].text[0],
                definition: Box::new(conversion(t.children[1])->Ok_0),
            }
        },
        t.rule == Rule::RhythmMacroDefine ==> conversion(t) == rhythm_macro_in(t),
{
}

/// A comment of any of the three kinds keeps the text that its children span, as it
/// is; the rule decides the kind and nothing else.
pub proof fn lemma_comment_keeps_inner_text(t: Tree)
    requires
        t.rule == Rule::RangeComment || t.rule == Rule::LineCommentDebug || t.rule
            == Rule::LineComment,
    ensures
        conversion(t) == Ok::<Ast, ConversionError>(
            Ast::Comment {
                kind: match t.rule {
                    Rule::RangeComment => CommentKind::RangeComment,
                    Rule::LineCommentDebug => CommentKind::LineCommentDebug,
                    _ => CommentKind::LineComment,
                },
                content: t.inner,
            },
        ),
{
}

/// Building twice from parse trees of the same value gives commands of the same
/// value, and a refusal by the grammar stays the same refusal.
pub proof fn lemma_parse_is_deterministic(
    first: Result<Vec<ParseNode>, SyntaxError>,
    second: Result<Vec<ParseNode>, SyntaxError>,
    a: Result<Vec<MmlAst>, SyntaxError>,
    b: Result<Vec<MmlAst>, SyntaxError>,
)
    requires
        parses_to(first, a),
        parses_to(second, b),
        match (first, second) {
            (Ok(x), Ok(y)) => views(x@) == views(y@),
            (Err(x), Err(y)) => x == y,
            _ => false,
        },
    ensures
        match (a, b) {
            (Ok(x), Ok(y)) => ast_views(x@) == ast_views(y@),
            (Err(x), Err(y)) => x == y,
            _ => false,
        },
{
}

/// The commands of a score are those of the children of its top-level nodes, taken
/// as one run.
pub proof fn lemma_score_is_conversions_of_children(pairs: Seq<Tree>)
    ensures
        score(pairs) == conversions(pairs.map_values(|p: Tree| p.children).flatten()),
    decreases pairs.len(),
{
    let children = |p: Tree| p.children;
    let runs = pairs.map_values(children);
    runs.lemma_flatten_and_flatten_alt_are_equivalent();
    if pairs.len() > 0 {
        let head = pairs.drop_last();
        lemma_score_is_conversions_of_children(head);
        head.map_values(children).lemma_flatten_and_flatten_alt_are_equivalent();
        assert(runs.drop_last() =~= head.map_values(children));
        lemma_conversions_of_concatenation(runs.drop_last().flatten_alt(), pairs.last().children);
    }
}

/// The commands of two scores, one after the other, are those of the first followed
/// by those of the second.
pub proof fn lemma_score_of_concatenation(a: Seq<Tree>, b: Seq<Tree>)
    ensures
        score(a + b) == score(a) + score(b),
    decreases b.len(),
{
    if b.len() == 0 {
        assert(a + b =~= a);
        assert(score(a) + score(b) =~= score(a));
    } else {
        lemma_score_of_concatenation(a, b.drop_last());
        assert((a + b).drop_last() =~= a + b.drop_last());
        assert((a + b).last() == b.last());
        assert((score(a) + score(b.drop_last())) + conversions(b.last().children) =~= score(a) + (
        score(b.drop_last()) + conversions(b.last().children)));
    }
}

/// A node that yields no command leaves its failure as the last of those met in it;
/// a node that yields one leaves none of its own.
pub proof fn lemma_failure_of_a_node_left_out(t: Tree)
    ensures
        conversion(t) matches Err(e) ==> failures(t).len() > 0 && failures(t).last() == e,
        failures(t).len() == 0 ==> conversion(t) is Ok,
{
}

/// The failures of two runs of nodes, one after the other, are those of the first
/// followed by those of the second: they stand in source order.
pub proof fn lemma_failures_of_concatenation(a: Seq<Tree>, b: Seq<Tree>)
    ensures
        failures_of_all(a + b) == failures_of_all(a) + failures_of_all(b),
    decreases b.len(),
{
    if b.len() == 0 {
        assert(a + b =~= a);
        assert(failures_of_all(a) + failures_of_all(b) =~= failures_of_all(a));
    } else {
        lemma_failures_of_concatenation(a, b.drop_last());
        assert((a + b).drop_last() =~= a + b.drop_last());
        assert((a + b).last() == b.last());
        assert((failures_of_all(a) + failures_of_all(b.drop_last())) + failures(b.last())
            =~= failures_of_all(a) + (failures_of_all(b.drop_last()) + failures(b.last())));
    }
}

/// Every node of a run that is left out leaves at least one failure, so a run
/// without failures is converted whole.
pub proof fn lemma_nothing_left_out_without_failure(ts: Seq<Tree>)
    ensures
        conversions(ts).len() + failures_of_all(ts).len() >= ts.len(),
        failures_of_all(ts).len() == 0 ==> conversions(ts).len() == ts.len(),
    decreases ts.len(),
{
    lemma_conversions_length(ts);
    if ts.len() > 0 {
        let head = ts.drop_last();
        lemma_nothing_left_out_without_failure(head);
        lemma_failure_of_a_node_left_out(ts.last());
        assert(failures_of_all(ts).len() == failures_of_all(head).len() + failures(
            ts.last(),
        ).len());
        match conversion(ts.last()) {
            Ok(a) => {
                assert(conversions(ts).len() == conversions(head).len() + 1);
            },
            Err(_) => {
                assert(conversions(ts).len() == conversions(head).len());
            },
        }
    }
}

/// A score without failures holds a command for every child of its top-level nodes.
pub proof fn lemma_score_whole_without_failure(pairs: Seq<Tree>)
    ensures
        score_failures(pairs).len() == 0 ==> score(pairs).len() == pairs.map_values(
            |p: Tree| p.children,
        ).flatten().len(),
    decreases pairs.len(),
{
    let children = |p: Tree| p.children;
    let runs = pairs.map_values(children);
    runs.lemma_flatten_and_flatten_alt_are_equivalent();
    if pairs.len() > 0 {
        let head = pairs.drop_last();
        lemma_score_whole_without_failure(head);
        head.map_values(children).lemma_flatten_and_flatten_alt_are_equivalent();
        assert(runs.drop_last() =~= head.map_values(children));
        lemma_nothing_left_out_without_failure(pairs.last().children);
    }
}

} // verus!
