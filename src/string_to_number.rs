//! Cleaning of culture formatted number texts and their conversion to
//! native numbers.
use vstd::prelude::*;

use crate::errors::ConversionError;
use crate::pattern::{NumberCultureSettings, Separator};
use crate::text::{chars_of, string_from_chars};
use crate::Culture;

verus! {

/// `s` without the characters that stand for `sep`.
pub open spec fn remove_sep(s: Seq<char>, sep: Separator) -> Seq<char>
    decreases s.len(),
{
    if s.len() == 0 {
        Seq::empty()
    } else {
        remove_sep(s.drop_last(), sep) + if sep.accepts(s.last()) {
            Seq::empty()
        } else {
            seq![s.last()]
        }
    }
}

/// `s` with each character that stands for `sep` replaced by `by`.
pub open spec fn replace_sep(s: Seq<char>, sep: Separator, by: char) -> Seq<char> {
    s.map_values(|c: char| if sep.accepts(c) { by } else { c })
}

/// The canonical text of `s`: without settings, `s` without white space;
/// with settings, `s` without its thousand separators and with each decimal
/// separator turned into `.`.
pub open spec fn clean_spec(s: Seq<char>, settings: Option<NumberCultureSettings>) -> Seq<char> {
    match settings {
        Some(x) => replace_sep(remove_sep(s, x.thousand()), x.decimal(), '.'),
        None => remove_sep(s, Separator::SPACE),
    }
}

/// No character of `remove_sep(s, sep)` stands for `sep`, and when no
/// character of `s` does, nothing is removed.
proof fn lemma_remove_sep(s: Seq<char>, sep: Separator)
    ensures
        forall|i: int|
            0 <= i < remove_sep(s, sep).len() ==> !sep.accepts(#[trigger] remove_sep(s, sep)[i]),
        (forall|i: int| 0 <= i < s.len() ==> !sep.accepts(#[trigger] s[i])) ==> remove_sep(s, sep)
            == s,
    decreases s.len(),
{
    if s.len() > 0 {
        lemma_remove_sep(s.drop_last(), sep);
        let pre = remove_sep(s.drop_last(), sep);
        assert forall|i: int|
            0 <= i < remove_sep(s, sep).len() implies !sep.accepts(
            #[trigger] remove_sep(s, sep)[i],
        ) by {
            if i < pre.len() {
                assert(remove_sep(s, sep)[i] == pre[i]);
            }
        }
        if forall|i: int| 0 <= i < s.len() ==> !sep.accepts(#[trigger] s[i]) {
            assert forall|i: int| 0 <= i < s.drop_last().len() implies !sep.accepts(
                #[trigger] s.drop_last()[i],
            ) by {
                assert(s.drop_last()[i] == s[i]);
            }
            assert(!sep.accepts(s[s.len() - 1]));
            assert(s.drop_last() + seq![s.last()] =~= s);
        }
    }
}

/// Cleaning is idempotent: a second pass changes nothing, provided the
/// canonical decimal point is not itself read as a thousand separator.
pub proof fn lemma_clean_idempotent(s: Seq<char>, settings: Option<NumberCultureSettings>)
    requires
        settings is Some ==> !settings->Some_0.thousand().accepts('.'),
    ensures
        clean_spec(clean_spec(s, settings), settings) == clean_spec(s, settings),
{
    match settings {
        None => {
            lemma_remove_sep(s, Separator::SPACE);
            lemma_remove_sep(remove_sep(s, Separator::SPACE), Separator::SPACE);
        },
        Some(x) => {
            let t = remove_sep(s, x.thousand());
            let u = replace_sep(t, x.decimal(), '.');
            lemma_remove_sep(s, x.thousand());
            assert forall|i: int| 0 <= i < u.len() implies !x.thousand().accepts(#[trigger] u[i]) by {
                assert(!x.thousand().accepts(t[i]));
            }
            lemma_remove_sep(u, x.thousand());
            assert(replace_sep(u, x.decimal(), '.') =~= u);
        },
    }
}

/// `s` without the characters that stand for `sep`.
fn remove_accepted(s: &Vec<char>, sep: &Separator) -> (r: Vec<char>)
    ensures
        r@ == remove_sep(s@, *sep),
{
    let mut r: Vec<char> = Vec::new();
    let mut i: usize = 0;
    while i < s.len()
        invariant
            i <= s@.len(),
            r@ == remove_sep(s@.subrange(0, i as int), *sep),
        decreases s@.len() - i,
    {
        let c = s[i];
        assert(s@.subrange(0, i + 1).drop_last() =~= s@.subrange(0, i as int));
        if !sep.is_accepted(c) {
            r.push(c);
        }
        i = i + 1;
    }
    assert(s@.subrange(0, s@.len() as int) =~= s@);
    r
}

/// `s` with each character that stands for `sep` replaced by `by`.
fn replace_accepted(s: &Vec<char>, sep: &Separator, by: char) -> (r: Vec<char>)
    ensures
        r@ == replace_sep(s@, *sep, by),
{
    let mut r: Vec<char> = Vec::new();
    let mut i: usize = 0;
    while i < s.len()
        invariant
            i <= s@.len(),
            r@ == replace_sep(s@.subrange(0, i as int), *sep, by),
        decreases s@.len() - i,
    {
        let c = s[i];
        if sep.is_accepted(c) {
            r.push(by);
        } else {
            r.push(c);
        }
        assert(r@ =~= replace_sep(s@.subrange(0, i + 1), *sep, by));
        i = i + 1;
    }
    assert(s@.subrange(0, s@.len() as int) =~= s@);
    r
}

/// Relies on `str::parse`: the target type's own `FromStr` decides whether
/// the text converts, and to what.
#[verifier::external_body]
fn parse_native<N: std::str::FromStr>(s: &str) -> (r: Option<N>) {
    s.parse::<N>().ok()
}

/// A number text, with the separators it is written with, if known.
#[derive(Debug)]
pub struct StringNumber {
    value: String,
    number_culture_settings: Option<NumberCultureSettings>,
}

impl StringNumber {
    pub closed spec fn text(self) -> Seq<char> {
        self.value@
    }

    pub closed spec fn settings(self) -> Option<NumberCultureSettings> {
        self.number_culture_settings
    }

    /// A text without known separators.
    pub fn new(value: String) -> (r: StringNumber)
        ensures
            r.text() == value@,
            r.settings() is None,
    {
        StringNumber { value, number_culture_settings: None }
    }

    /// A text written with the given separators.
    pub fn new_with_settings(value: String, number_culture_settings: NumberCultureSettings) -> (r:
        StringNumber)
        ensures
            r.text() == value@,
            r.settings() == Some(number_culture_settings),
    {
        StringNumber { value, number_culture_settings: Some(number_culture_settings) }
    }

    pub fn has_settings(&self) -> (r: bool)
        ensures
            r == self.settings() is Some,
    {
        self.number_culture_settings.is_some()
    }

    /// The decimal point of the canonical form.
    pub fn string_decimal_replacement() -> (r: String)
        ensures
            r@ == seq!['.'],
    {
        let v = vec!['.'];
        assert(v@ =~= seq!['.']);
        string_from_chars(&v)
    }

    pub fn get_settings(&self) -> (r: Option<&NumberCultureSettings>)
        ensures
            r is Some == self.settings() is Some,
            r is Some ==> *r->Some_0 == self.settings()->Some_0,
    {
        self.number_culture_settings.as_ref()
    }

    /// The canonical text: thousand separators removed first, then decimal
    /// separators turned into `.`; without settings, white space removed.
    pub fn clean(&self) -> (r: String)
        ensures
            r@ == clean_spec(self.text(), self.settings()),
    {
        let chars = chars_of(self.value.as_str());
        let cleaned = match &self.number_culture_settings {
            Some(settings) => {
                let stripped = remove_accepted(&chars, &settings.thousand_separator());
                replace_accepted(&stripped, &settings.decimal_separator(), '.')
            },
            None => remove_accepted(&chars, &Separator::SPACE),
        };
        string_from_chars(&cleaned)
    }

    /// Hands the canonical text to the native parser of `N`.
    pub fn to_number<N: std::str::FromStr>(&self) -> (r: Result<N, ConversionError>)
        ensures
            r is Err ==> r->Err_0 == ConversionError::UnableToConvertStringToNumber,
    {
        let cleaned = self.clean();
        match parse_native::<N>(cleaned.as_str()) {
            Some(n) => Ok(n),
            None => Err(ConversionError::UnableToConvertStringToNumber),
        }
    }
}

/// Conversion of a number text to a native number.
pub trait NumberConversion {
    /// Converts a text whose only separators are white space.
    fn to_number<N: std::str::FromStr>(&self) -> (r: Result<N, ConversionError>)
        ensures
            r is Err ==> r->Err_0 == ConversionError::UnableToConvertStringToNumber,
    ;

    /// Converts a text written with the given separators.
    fn to_number_separators<N: std::str::FromStr>(&self, separators: NumberCultureSettings) -> (r:
        Result<N, ConversionError>)
        ensures
            r is Err ==> r->Err_0 == ConversionError::UnableToConvertStringToNumber,
    ;

    /// Converts a text written with the separators of a culture.
    fn to_number_culture<N: std::str::FromStr>(&self, culture: Culture) -> (r: Result<
        N,
        ConversionError,
    >)
        ensures
            r is Err ==> r->Err_0 == ConversionError::UnableToConvertStringToNumber,
    ;
}

impl NumberConversion for str {
    fn to_number<N: std::str::FromStr>(&self) -> (r: Result<N, ConversionError>) {
        StringNumber::new(self.to_owned()).to_number()
    }

    fn to_number_separators<N: std::str::FromStr>(&self, separators: NumberCultureSettings) -> (r:
        Result<N, ConversionError>) {
        StringNumber::new_with_settings(self.to_owned(), separators).to_number()
    }

    fn to_number_culture<N: std::str::FromStr>(&self, culture: Culture) -> (r: Result<
        N,
        ConversionError,
    >) {
        StringNumber::new_with_settings(self.to_owned(), culture.settings()).to_number()
    }
}

} // verus!
