//! Conversion between culture formatted number strings and native numbers.
//!
//! Parsing strips the thousand separators of a culture and normalises its
//! decimal separator before handing the text to the native parser. Shape
//! classification synthesises one anchored regular expression per number
//! shape and culture. Formatting splits the canonical rendering of a number,
//! rounds its fraction digit by digit (carrying into the whole part) and
//! groups the whole part with the culture's thousand separator.
use vstd::prelude::*;

pub mod errors;
pub mod text;
pub mod pattern;
pub mod string_to_number;
pub mod number;

pub use errors::ConversionError;
use pattern::{culture_settings, lemma_culture_settings, lemma_settings_ext};
pub use pattern::{ConvertString, NumberCultureSettings, Separator, ThousandGrouping};
pub use string_to_number::NumberConversion;
pub use number::{FormatOption, ToFormat};

verus! {

/// The cultures whose separators and grouping are known.
#[derive(Debug, Clone, Copy, PartialEq, Eq, Structural)]
pub enum Culture {
    English,
    French,
    Italian,
    Indian,
}

/// The thousand separator of each culture.
pub open spec fn culture_thousand(c: Culture) -> Separator {
    match c {
        Culture::English => Separator::COMMA,
        Culture::French => Separator::SPACE,
        Culture::Italian => Separator::DOT,
        Culture::Indian => Separator::COMMA,
    }
}

/// The decimal separator of each culture.
pub open spec fn culture_decimal(c: Culture) -> Separator {
    match c {
        Culture::English => Separator::DOT,
        Culture::French => Separator::COMMA,
        Culture::Italian => Separator::COMMA,
        Culture::Indian => Separator::DOT,
    }
}

/// The grouping cadence of each culture.
pub open spec fn culture_grouping(c: Culture) -> ThousandGrouping {
    match c {
        Culture::Indian => ThousandGrouping::TwoBlock,
        _ => ThousandGrouping::ThreeBlock,
    }
}

/// The short code of each culture.
pub open spec fn culture_code(c: Culture) -> Seq<char> {
    match c {
        Culture::English => seq!['e', 'n'],
        Culture::French => seq!['f', 'r'],
        Culture::Italian => seq!['i', 't'],
        Culture::Indian => seq!['i', 'n'],
    }
}

/// The culture that a short code names, if any.
pub open spec fn culture_of_code(s: Seq<char>) -> Option<Culture> {
    if s == culture_code(Culture::English) {
        Some(Culture::English)
    } else if s == culture_code(Culture::French) {
        Some(Culture::French)
    } else if s == culture_code(Culture::Italian) {
        Some(Culture::Italian)
    } else if s == culture_code(Culture::Indian) {
        Some(Culture::Indian)
    } else {
        None
    }
}

/// The known cultures, in declaration order.
pub open spec fn all_cultures() -> Seq<Culture> {
    seq![Culture::English, Culture::French, Culture::Italian, Culture::Indian]
}

impl Culture {
    /// The separators and grouping of the culture.
    pub fn settings(&self) -> (r: NumberCultureSettings)
        ensures
            r.thousand() == culture_thousand(*self),
            r.decimal() == culture_decimal(*self),
            r.grouping() == culture_grouping(*self),
            r.wf(),
            r == culture_settings(*self),
    {
        let r = match self {
            Culture::English => NumberCultureSettings::new(Separator::COMMA, Separator::DOT),
            Culture::French => NumberCultureSettings::new(Separator::SPACE, Separator::COMMA),
            Culture::Italian => NumberCultureSettings::new(Separator::DOT, Separator::COMMA),
            Culture::Indian => NumberCultureSettings::new(Separator::COMMA, Separator::DOT).with_grouping(
                ThousandGrouping::TwoBlock,
            ),
        };
        proof {
            lemma_culture_settings(*self);
            lemma_settings_ext(r, culture_settings(*self));
        }
        r
    }

    /// The short code of the culture.
    pub fn code(&self) -> (r: &'static str)
        ensures
            r@ == culture_code(*self),
    {
        proof {
            reveal_strlit("en");
            reveal_strlit("fr");
            reveal_strlit("it");
            reveal_strlit("in");
        }
        match self {
            Culture::English => "en",
            Culture::French => "fr",
            Culture::Italian => "it",
            Culture::Indian => "in",
        }
    }

    /// Reads a culture from its short code.
    pub fn from_code(value: &str) -> (r: Result<Culture, ConversionError>)
        ensures
            culture_of_code(value@) is Some ==> r == Ok::<Culture, ConversionError>(
                culture_of_code(value@)->Some_0,
            ),
            culture_of_code(value@) is None ==> r == Err::<Culture, ConversionError>(
                ConversionError::PatternCultureNotFound,
            ),
    {
        if value.unicode_len() != 2 {
            return Err(ConversionError::PatternCultureNotFound);
        }
        let a = value.get_char(0);
        let b = value.get_char(1);
        proof {
            assert(value@ =~= seq![a, b]);
        }
        if a == 'e' && b == 'n' {
            Ok(Culture::English)
        } else if a == 'f' && b == 'r' {
            Ok(Culture::French)
        } else if a == 'i' && b == 't' {
            Ok(Culture::Italian)
        } else if a == 'i' && b == 'n' {
            Ok(Culture::Indian)
        } else {
            Err(ConversionError::PatternCultureNotFound)
        }
    }

    /// The known cultures, in declaration order.
    pub fn all() -> (r: Vec<Culture>)
        ensures
            r@ == all_cultures(),
    {
        let r = vec![Culture::English, Culture::French, Culture::Italian, Culture::Indian];
        assert(r@ =~= all_cultures());
        r
    }
}

/// English is the default culture.
impl Default for Culture {
    fn default() -> (r: Culture)
        ensures
            r == Culture::English,
    {
        Culture::English
    }
}

impl TryFrom<&str> for Culture {
    type Error = ConversionError;

    fn try_from(value: &str) -> (r: Result<Culture, ConversionError>) {
        Culture::from_code(value)
    }
}

impl vstd::std_specs::convert::TryFromSpecImpl<&str> for Culture {
    open spec fn obeys_try_from_spec() -> bool {
        true
    }

    open spec fn try_from_spec(value: &str) -> Result<Culture, ConversionError> {
        match culture_of_code(value@) {
            Some(c) => Ok(c),
            None => Err(ConversionError::PatternCultureNotFound),
        }
    }
}

} // verus!
