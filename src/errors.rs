use vstd::prelude::*;

verus! {

/// The different kinds of error that can happen during a conversion.
#[derive(Debug, Clone, Copy, PartialEq, Eq, Structural)]
pub enum ConversionError {
    /// The cleaned text was refused by the native parser of the target type.
    UnableToConvertStringToNumber,
    /// The canonical rendering of a number could not be split.
    UnableToConvertNumberToString,
    /// The canonical rendering of a number held no digits to split.
    NotCaptureFoundWhenConvertNumberToString,
    /// The format specifier is not `N` followed by one digit.
    UnableToDisplayFormat,
    /// No pattern is known for the requested culture.
    PatternCultureNotFound,
    /// The text does not name a known separator.
    SeparatorNotFound,
    /// A synthesised regular expression could not be compiled.
    RegexBuilder,
    /// The thousand and decimal separators of a setting are the same.
    SameSeparators,
}

/// The human readable message of each error.
pub open spec fn message_of(e: ConversionError) -> Seq<char> {
    match e {
        ConversionError::UnableToConvertStringToNumber =>
            "Error when trying to parse string number to number"@,
        ConversionError::UnableToConvertNumberToString =>
            "Error when trying to parse number to string number"@,
        ConversionError::NotCaptureFoundWhenConvertNumberToString =>
            "No capture found when trying to parse number to string number"@,
        ConversionError::UnableToDisplayFormat => "Error when trying to display format number"@,
        ConversionError::PatternCultureNotFound => "Unable to find pattern culture"@,
        ConversionError::SeparatorNotFound => "Unable to find separator from string"@,
        ConversionError::RegexBuilder => "Unable to create regex"@,
        ConversionError::SameSeparators => "Thousand and decimal separators must differ"@,
    }
}

impl ConversionError {
    /// The message that describes this error.
    pub fn message(&self) -> (r: &'static str)
        ensures
            r@ == message_of(*self),
    {
        match self {
            ConversionError::UnableToConvertStringToNumber =>
                "Error when trying to parse string number to number",
            ConversionError::UnableToConvertNumberToString =>
                "Error when trying to parse number to string number",
            ConversionError::NotCaptureFoundWhenConvertNumberToString =>
                "No capture found when trying to parse number to string number",
            ConversionError::UnableToDisplayFormat => "Error when trying to display format number",
            ConversionError::PatternCultureNotFound => "Unable to find pattern culture",
            ConversionError::SeparatorNotFound => "Unable to find separator from string",
            ConversionError::RegexBuilder => "Unable to create regex",
            ConversionError::SameSeparators => "Thousand and decimal separators must differ",
        }
    }
}

} // verus!
