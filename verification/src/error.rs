//! What can go wrong: the grammar rejects a score, or a node cannot be converted.

use vstd::prelude::*;
use vstd::string::StringExecFns;

verus! {

/// Why a parse-tree node yields no command.
#[derive(Clone, Copy, Debug, PartialEq, Eq, Hash, Structural)]
pub enum ConversionError {
    /// The node's rule is not a command.
    UnknownRule,
    /// A text that has to be a number is no base-10 integer, or does not fit.
    InvalidNumber,
    /// A node that has to hold a number has no child.
    ExpectedNumber,
    /// A velocity, timing or control change lacks its value.
    ExpectedValue,
    /// A control change lacks its controller number.
    ExpectedController,
    /// An envelope lacks its low value.
    ExpectedLow,
    /// An envelope lacks its high value.
    ExpectedHigh,
    /// An envelope lacks its length.
    ExpectedLength,
    /// A voice selection lacks its program number.
    ExpectedVoiceNumber,
    /// A harmony lacks its note letters.
    ExpectedNotes,
    /// A note matched no text, so it has no letter.
    ExpectedNoteLetter,
    /// A numbered note lacks its note number.
    ExpectedNoteNumber,
    /// A rhythm macro lacks its name.
    ExpectedMacroName,
    /// A rhythm macro lacks its body.
    ExpectedMacroDefinition,
    /// The body of a rhythm macro yields no command.
    MacroDefinitionFailed,
    /// A note has more parameters than it has fields.
    TooManyParameters,
}

impl ConversionError {
    /// The text that describes each error.
    pub open spec fn description(self) -> Seq<char> {
        match self {
            ConversionError::UnknownRule => "Unknown rule"@,
            ConversionError::InvalidNumber => "Invalid number"@,
            ConversionError::ExpectedNumber => "Expected number"@,
            ConversionError::ExpectedValue => "Expected value"@,
            ConversionError::ExpectedController => "Expected controller number"@,
            ConversionError::ExpectedLow => "Expected low value"@,
            ConversionError::ExpectedHigh => "Expected high value"@,
            ConversionError::ExpectedLength => "Expected length value"@,
            ConversionError::ExpectedVoiceNumber => "Expected voice number"@,
            ConversionError::ExpectedNotes => "Expected notes"@,
            ConversionError::ExpectedNoteLetter => "Expected note letter"@,
            ConversionError::ExpectedNoteNumber => "Expected note number"@,
            ConversionError::ExpectedMacroName => "Expected macro name"@,
            ConversionError::ExpectedMacroDefinition => "Expected macro definition"@,
            ConversionError::MacroDefinitionFailed => "Failed to parse macro definition"@,
            ConversionError::TooManyParameters => "Too many parameters"@,
        }
    }

    /// A line for a log or a person.
    pub fn message(&self) -> (r: String)
        ensures
            r@ == self.description(),
    {
        let text = match self {
            ConversionError::UnknownRule => "Unknown rule",
            ConversionError::InvalidNumber => "Invalid number",
            ConversionError::ExpectedNumber => "Expected number",
            ConversionError::ExpectedValue => "Expected value",
            ConversionError::ExpectedController => "Expected controller number",
            ConversionError::ExpectedLow => "Expected low value",
            ConversionError::ExpectedHigh => "Expected high value",
            ConversionError::ExpectedLength => "Expected length value",
            ConversionError::ExpectedVoiceNumber => "Expected voice number",
            ConversionError::ExpectedNotes => "Expected notes",
            ConversionError::ExpectedNoteLetter => "Expected note letter",
            ConversionError::ExpectedNoteNumber => "Expected note number",
            ConversionError::ExpectedMacroName => "Expected macro name",
            ConversionError::ExpectedMacroDefinition => "Expected macro definition",
            ConversionError::MacroDefinitionFailed => "Failed to parse macro definition",
            ConversionError::TooManyParameters => "Too many parameters",
        };
        String::from_str(text)
    }
}

/// The grammar's refusal of a score as a whole.
#[derive(Debug, PartialEq, Eq)]
pub struct SyntaxError {
    /// What the grammar reported.
    pub message: String,
}

impl Clone for SyntaxError {
    fn clone(&self) -> (r: Self)
        ensures
            r == *self,
    {
        SyntaxError { message: self.message.clone() }
    }
}

} // verus!
