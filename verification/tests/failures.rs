use mml_parser::builder::{
    extract_comment_content, extract_control_change, extract_group_notes, extract_harmony,
    extract_note, extract_number, extract_numbered_note, extract_optional_number,
    extract_rhythm_macro_define, extract_value_and_random, extract_voice_select,
};
use mml_parser::text::distinct_chars;
use mml_parser::{ConversionError, MmlAst, ParseNode, Rule};

fn number(text: &str) -> ParseNode {
    ParseNode::leaf(Rule::Number, text)
}

fn note(letter: &str) -> ParseNode {
    ParseNode::leaf(Rule::AbcNote, letter)
}

fn plain(letter: char) -> MmlAst {
    MmlAst::Note {
        note: letter,
        length: None,
        gate: None,
        velocity: None,
        timing: None,
        scale: None,
    }
}

fn without_number(rule: Rule) -> ParseNode {
    ParseNode::leaf(rule, "")
}

fn group(children: Vec<ParseNode>) -> ParseNode {
    ParseNode::branch(Rule::GroupNotes, "{}", "", children)
}

fn rhythm_macro(children: Vec<ParseNode>) -> ParseNode {
    ParseNode::branch(Rule::RhythmMacroDefine, "$", "", children)
}

fn name(text: &str) -> ParseNode {
    ParseNode::leaf(Rule::MacroName, text)
}

fn score(commands: Vec<ParseNode>) -> Vec<ParseNode> {
    vec![ParseNode::branch(Rule::Mml, "", "", commands)]
}

#[test]
fn a_score_that_converts_whole_has_no_failures() {
    let tree = score(vec![note("c"), group(vec![note("d"), number("4")]), note("e")]);
    assert_eq!(MmlAst::failures(&tree), vec![]);
    assert_eq!(MmlAst::failures(&vec![]), vec![]);
    assert_eq!(MmlAst::failures(&score(vec![])), vec![]);
}

#[test]
fn each_command_left_out_gives_its_failure_in_source_order() {
    let tree = score(vec![
        without_number(Rule::Velocity),
        note("c"),
        without_number(Rule::Octave),
        number("1"),
        ParseNode::leaf(Rule::EndOfInput, ""),
    ]);
    assert_eq!(
        MmlAst::failures(&tree),
        vec![
            ConversionError::ExpectedValue,
            ConversionError::ExpectedNumber,
            ConversionError::UnknownRule,
            ConversionError::UnknownRule,
        ]
    );
    assert_eq!(MmlAst::parse(Ok(tree)), Ok(vec![plain('c')]));
}

#[test]
fn a_command_left_out_of_a_group_gives_its_failure() {
    let tree = score(vec![group(vec![note("c"), without_number(Rule::Octave), note("d")])]);
    assert_eq!(MmlAst::failures(&tree), vec![ConversionError::ExpectedNumber]);
    assert_eq!(
        MmlAst::parse(Ok(tree)),
        Ok(vec![MmlAst::GroupedNotes { notes: vec![plain('c'), plain('d')], length: None }])
    );
}

#[test]
fn failures_of_nested_groups_come_in_source_order() {
    let inner = group(vec![without_number(Rule::Velocity), note("d"), ParseNode::leaf(Rule::AbcNote, "")]);
    let tree = score(vec![
        without_number(Rule::Harmony),
        group(vec![without_number(Rule::Octave), inner, without_number(Rule::VoiceSelect)]),
        without_number(Rule::ControlChange),
    ]);
    assert_eq!(
        MmlAst::failures(&tree),
        vec![
            ConversionError::ExpectedNotes,
            ConversionError::ExpectedNumber,
            ConversionError::ExpectedValue,
            ConversionError::ExpectedNoteLetter,
            ConversionError::ExpectedVoiceNumber,
            ConversionError::ExpectedController,
        ]
    );
}

#[test]
fn a_group_that_fails_gives_the_failures_inside_it_first() {
    let failing = group(vec![note("c"), without_number(Rule::Octave), number("x")]);
    assert_eq!(
        MmlAst::failures(&score(vec![failing])),
        vec![ConversionError::ExpectedNumber, ConversionError::InvalidNumber]
    );
}

#[test]
fn the_length_of_a_group_is_no_command_left_out() {
    let tree = score(vec![group(vec![note("c"), number("4")])]);
    assert_eq!(MmlAst::failures(&tree), vec![]);
    let tree = score(vec![group(vec![number("4"), note("c")])]);
    assert_eq!(MmlAst::failures(&tree), vec![ConversionError::UnknownRule]);
}

#[test]
fn a_rhythm_macro_gives_the_failure_of_its_body_and_then_its_own() {
    let tree = score(vec![rhythm_macro(vec![name("b"), without_number(Rule::Octave)])]);
    assert_eq!(
        MmlAst::failures(&tree),
        vec![ConversionError::ExpectedNumber, ConversionError::MacroDefinitionFailed]
    );
    let deep = rhythm_macro(vec![
        name("o"),
        rhythm_macro(vec![name("i"), without_number(Rule::Velocity)]),
    ]);
    assert_eq!(
        MmlAst::failures(&score(vec![deep])),
        vec![
            ConversionError::ExpectedValue,
            ConversionError::MacroDefinitionFailed,
            ConversionError::MacroDefinitionFailed,
        ]
    );
}

#[test]
fn a_rhythm_macro_without_name_or_body_does_not_look_at_its_body() {
    let unnamed = rhythm_macro(vec![name(""), without_number(Rule::Octave)]);
    assert_eq!(
        MmlAst::failures(&score(vec![unnamed])),
        vec![ConversionError::ExpectedMacroName]
    );
    let bodiless = rhythm_macro(vec![name("b")]);
    assert_eq!(
        MmlAst::failures(&score(vec![bodiless])),
        vec![ConversionError::ExpectedMacroDefinition]
    );
}

#[test]
fn a_rhythm_macro_that_converts_still_gives_the_failures_in_its_body() {
    let body = group(vec![note("c"), without_number(Rule::Octave)]);
    let tree = score(vec![rhythm_macro(vec![name("b"), body])]);
    assert_eq!(MmlAst::failures(&tree), vec![ConversionError::ExpectedNumber]);
    assert_eq!(
        MmlAst::parse(Ok(tree)),
        Ok(vec![MmlAst::RhythmMacroDefine {
            name: 'b',
            definition: Box::new(MmlAst::GroupedNotes { notes: vec![plain('c')], length: None }),
        }])
    );
}

#[test]
fn failures_of_several_top_level_nodes_follow_one_another() {
    let mut tree = score(vec![without_number(Rule::Octave)]);
    tree.extend(score(vec![note("c")]));
    tree.extend(score(vec![without_number(Rule::Velocity)]));
    assert_eq!(
        MmlAst::failures(&tree),
        vec![ConversionError::ExpectedNumber, ConversionError::ExpectedValue]
    );
}

#[test]
fn as_many_commands_and_failures_as_children_where_nothing_nests() {
    let commands = vec![
        note("c"),
        without_number(Rule::Octave),
        ParseNode::leaf(Rule::Rest, "r"),
        without_number(Rule::Length),
        note("d"),
    ];
    let tree = score(commands);
    let failures = MmlAst::failures(&tree);
    let built = MmlAst::parse(Ok(tree)).unwrap();
    assert_eq!(failures.len(), 2);
    assert_eq!(built.len(), 3);
}

#[test]
fn voice_select_is_read_child_by_child() {
    let one = ParseNode::branch(Rule::VoiceSelect, "@5", "5", vec![number("5")]);
    assert_eq!(extract_voice_select(&one), Ok((5, None, None)));
    let two = ParseNode::branch(Rule::VoiceSelect, "@5,6", "5,6", vec![number("5"), number("6")]);
    assert_eq!(extract_voice_select(&two), Ok((5, Some(6), None)));
    let three = ParseNode::branch(
        Rule::VoiceSelect,
        "@5,6,7",
        "5,6,7",
        vec![number("5"), number("6"), number("7")],
    );
    assert_eq!(extract_voice_select(&three), Ok((5, Some(6), Some(7))));
}

#[test]
fn harmony_is_read_child_by_child() {
    let letters = ParseNode::leaf(Rule::Notes, "ceg");
    let alone = ParseNode::branch(Rule::Harmony, "'ceg'", "ceg", vec![letters.clone()]);
    assert_eq!(extract_harmony(&alone), Ok((vec!['c', 'e', 'g'], None, None)));
    let with_length =
        ParseNode::branch(Rule::Harmony, "'ceg'4", "ceg'4", vec![letters.clone(), number("4")]);
    assert_eq!(extract_harmony(&with_length), Ok((vec!['c', 'e', 'g'], Some(4), None)));
    let with_both = ParseNode::branch(
        Rule::Harmony,
        "'ceg'4,80",
        "ceg'4,80",
        vec![letters, number("4"), number("80")],
    );
    assert_eq!(extract_harmony(&with_both), Ok((vec!['c', 'e', 'g'], Some(4), Some(80))));
    let repeated = ParseNode::branch(
        Rule::Harmony,
        "'cegc'",
        "cegc",
        vec![ParseNode::leaf(Rule::Notes, "cegc")],
    );
    assert_eq!(extract_harmony(&repeated), Ok((vec!['c', 'e', 'g'], None, None)));
}

#[test]
fn group_notes_are_read_with_their_failures() {
    let mut log = vec![ConversionError::UnknownRule];
    let node = group(vec![note("c"), without_number(Rule::Octave), note("d")]);
    assert_eq!(extract_group_notes(&node, &mut log), Ok((vec![plain('c'), plain('d')], None)));
    assert_eq!(log, vec![ConversionError::UnknownRule, ConversionError::ExpectedNumber]);
}

#[test]
fn rhythm_macro_is_read_with_its_failures() {
    let mut log = Vec::new();
    let good = rhythm_macro(vec![name("b"), note("c")]);
    assert_eq!(
        extract_rhythm_macro_define(&good, &mut log),
        Ok(MmlAst::RhythmMacroDefine { name: 'b', definition: Box::new(plain('c')) })
    );
    assert_eq!(log, vec![]);
    let bad = rhythm_macro(vec![name("b"), without_number(Rule::Octave)]);
    assert_eq!(
        extract_rhythm_macro_define(&bad, &mut log),
        Err(ConversionError::MacroDefinitionFailed)
    );
    assert_eq!(log, vec![ConversionError::ExpectedNumber]);
}

#[test]
fn comment_content_is_the_inner_text_as_it_is() {
    let node = ParseNode::branch(
        Rule::RangeComment,
        "/* \t a  b \n */",
        " \t a  b \n ",
        vec![ParseNode::leaf(Rule::CommentText, " \t a  b \n ")],
    );
    assert_eq!(extract_comment_content(&node), " \t a  b \n ");
    assert_eq!(extract_comment_content(&ParseNode::leaf(Rule::LineComment, "//")), "");
}

#[test]
fn numbers_are_read_from_the_first_child() {
    let node = ParseNode::branch(Rule::Length, "l8", "8", vec![number("8")]);
    assert_eq!(extract_number(&node), Ok(8));
    assert_eq!(extract_optional_number(&node), Ok(Some(8)));
    let empty = ParseNode::leaf(Rule::Length, "l");
    assert_eq!(extract_number(&empty), Err(ConversionError::ExpectedNumber));
    assert_eq!(extract_optional_number(&empty), Ok(None));
}

#[test]
fn value_and_random_and_control_change_are_read_in_order() {
    let pair = ParseNode::branch(Rule::Velocity, "v1,2", "1,2", vec![number("1"), number("2")]);
    assert_eq!(extract_value_and_random(&pair), Ok((1, Some(2))));
    let envelope = ParseNode::branch(
        Rule::OnTime,
        "3,4,5",
        "3,4,5",
        vec![number("3"), number("4"), number("5")],
    );
    let change = ParseNode::branch(
        Rule::ControlChange,
        "y1,2,3,4,5",
        "1,2,3,4,5",
        vec![number("1"), number("2"), envelope],
    );
    assert_eq!(extract_control_change(&change), Ok((1, 2, Some((3, 4, 5)))));
}

#[test]
fn notes_are_read_by_their_own_functions() {
    assert_eq!(extract_note(&note("c")), Ok(plain('c')));
    let numbered = ParseNode::branch(Rule::MidiNote, "n60", "60", vec![number("60")]);
    assert_eq!(
        extract_numbered_note(&numbered),
        Ok(MmlAst::NNote { note_no: 60, length: None, gate: None, velocity: None, timing: None })
    );
}

#[test]
fn distinct_chars_keeps_first_places() {
    assert_eq!(distinct_chars(""), Vec::<char>::new());
    assert_eq!(distinct_chars("a"), vec!['a']);
    assert_eq!(distinct_chars("aaaa"), vec!['a']);
    assert_eq!(distinct_chars("abab"), vec!['a', 'b']);
    assert_eq!(distinct_chars("baab"), vec!['b', 'a']);
    assert_eq!(distinct_chars("mississippi"), vec!['m', 'i', 's', 'p']);
}
