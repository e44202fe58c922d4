//! Separators, grouping cadences, culture settings, and the synthesis and
//! matching of the anchored regular expressions that classify number shapes.
use vstd::prelude::*;

use crate::errors::ConversionError;
use crate::string_to_number::NumberConversion;
use crate::{Culture, all_cultures, culture_code, culture_decimal, culture_grouping, culture_of_code, culture_thousand};
use crate::text::{push_chars, push_str, string_from_chars, is_white_space, white_space};

verus! {

/// Whether a number is whole (an integer) or decimal (a float).
#[derive(Debug, Clone, Copy, PartialEq, Eq, Structural)]
pub enum NumberType {
    WHOLE,
    DECIMAL,
}

/// A thousand or decimal separator.
#[derive(Debug, Clone, Copy)]
pub enum Separator {
    SPACE,
    DOT,
    COMMA,
    APOSTROPHE,
    CUSTOM(char),
}

impl Separator {
    /// The code point that renders this separator.
    pub open spec fn char_of(self) -> char {
        match self {
            Separator::SPACE => ' ',
            Separator::DOT => '.',
            Separator::COMMA => ',',
            Separator::APOSTROPHE => '\'',
            Separator::CUSTOM(c) => c,
        }
    }

    /// Whether a character of an input stands for this separator: any white
    /// space for `SPACE`, the rendered code point otherwise.
    pub open spec fn accepts(self, c: char) -> bool {
        match self {
            Separator::SPACE => is_white_space(c),
            _ => c == self.char_of(),
        }
    }

    /// The regular expression atom, a one character class, that matches
    /// this separator.
    pub open spec fn regex_atom(self) -> Seq<char> {
        match self {
            Separator::SPACE => "[\\s]"@,
            _ => seq!['['] + escape_spec(seq![self.char_of()]) + seq![']'],
        }
    }

    /// The rendered code point.
    pub fn to_char(&self) -> (r: char)
        ensures
            r == self.char_of(),
    {
        match self {
            Separator::SPACE => ' ',
            Separator::DOT => '.',
            Separator::COMMA => ',',
            Separator::APOSTROPHE => '\'',
            Separator::CUSTOM(c) => *c,
        }
    }

    /// Whether `c` stands for this separator in an input.
    pub fn is_accepted(&self, c: char) -> (r: bool)
        ensures
            r == self.accepts(c),
    {
        match self {
            Separator::SPACE => white_space(c),
            _ => c == self.to_char(),
        }
    }

    /// The separator as literal text.
    pub fn to_owned_string(&self) -> (r: String)
        ensures
            r@ == seq![self.char_of()],
    {
        let v = vec![self.to_char()];
        proof {
            assert(v@ =~= seq![self.char_of()]);
        }
        string_from_chars(&v)
    }

    /// The separator as a regular expression atom.
    pub fn to_string_regex(&self) -> (r: String)
        ensures
            r@ == self.regex_atom(),
    {
        let mut v: Vec<char> = Vec::new();
        match self {
            Separator::SPACE => {
                push_str(&mut v, "[\\s]");
            },
            _ => {
                let lit = self.to_owned_string();
                let escaped = regex_escape(lit.as_str());
                v.push('[');
                push_str(&mut v, escaped.as_str());
                v.push(']');
                assert(v@ =~= self.regex_atom());
            },
        }
        string_from_chars(&v)
    }

    /// Reads a separator from its literal text.
    pub fn from_text(value: &str) -> (r: Result<Separator, ConversionError>)
        ensures
            r == separator_of_text(value@),
    {
        if value.unicode_len() != 1 {
            return Err(ConversionError::SeparatorNotFound);
        }
        let c = value.get_char(0);
        if c == ',' {
            Ok(Separator::COMMA)
        } else if c == '.' {
            Ok(Separator::DOT)
        } else if c == ' ' {
            Ok(Separator::SPACE)
        } else if c == '\'' {
            Ok(Separator::APOSTROPHE)
        } else {
            Ok(Separator::CUSTOM(c))
        }
    }
}

/// The separator written as `s`: one code point, the named separators for
/// their own code points.
pub open spec fn separator_of_text(s: Seq<char>) -> Result<Separator, ConversionError> {
    if s.len() != 1 {
        Err(ConversionError::SeparatorNotFound)
    } else if s[0] == ',' {
        Ok(Separator::COMMA)
    } else if s[0] == '.' {
        Ok(Separator::DOT)
    } else if s[0] == ' ' {
        Ok(Separator::SPACE)
    } else if s[0] == '\'' {
        Ok(Separator::APOSTROPHE)
    } else {
        Ok(Separator::CUSTOM(s[0]))
    }
}

/// Separators are equal when they render to the same code point.
impl PartialEq for Separator {
    fn eq(&self, other: &Separator) -> (r: bool) {
        self.to_char() == other.to_char()
    }
}

impl vstd::std_specs::cmp::PartialEqSpecImpl for Separator {
    open spec fn obeys_eq_spec() -> bool {
        true
    }

    open spec fn eq_spec(&self, other: &Separator) -> bool {
        self.char_of() == other.char_of()
    }
}

/// The cadence of digit groups, read from the decimal point leftward.
#[derive(Debug, Clone, Copy, PartialEq, Eq, Structural)]
pub enum ThousandGrouping {
    /// Blocks of three digits: `X XXX XXX`.
    ThreeBlock,
    /// The Indian cadence: three digits, then blocks of two: `X XX XX XXX`.
    TwoBlock,
}

impl ThousandGrouping {
    /// The group sizes from the right; the last one repeats.
    pub open spec fn sizes(self) -> Seq<u8> {
        match self {
            ThousandGrouping::ThreeBlock => seq![3u8],
            ThousandGrouping::TwoBlock => seq![3u8, 2u8],
        }
    }

    /// The group sizes from the right; the last one repeats.
    pub fn group_sizes(&self) -> (r: Vec<u8>)
        ensures
            r@ == self.sizes(),
    {
        let r = match self {
            ThousandGrouping::ThreeBlock => vec![3u8],
            ThousandGrouping::TwoBlock => vec![3u8, 2u8],
        };
        assert(r@ =~= self.sizes());
        r
    }
}

/// The structural shapes of a number text.
#[derive(Debug, Clone, Copy, PartialEq, Eq, Structural)]
pub enum TypeParsing {
    /// `X`, `+X`, `-X`.
    WholeSimple,
    /// `X<decimal>XX`, optionally signed.
    DecimalSimple,
    /// `<decimal>XX`, optionally signed.
    DecimalWithoutWholePart,
    /// `X<thousand>XXX`, optionally signed.
    WholeThousandSeparator,
    /// `X<thousand>XXX<decimal>XX`, optionally signed.
    DecimalThousandSeparator,
}

/// Whole shapes give whole numbers, the others decimal numbers.
pub open spec fn number_type_of(t: TypeParsing) -> NumberType {
    match t {
        TypeParsing::WholeSimple | TypeParsing::WholeThousandSeparator => NumberType::WHOLE,
        _ => NumberType::DECIMAL,
    }
}

/// The display name of each shape.
pub open spec fn type_parsing_name(t: TypeParsing) -> Seq<char> {
    match t {
        TypeParsing::WholeSimple => "Whole_Simple"@,
        TypeParsing::DecimalSimple => "Decimal_Simple"@,
        TypeParsing::DecimalWithoutWholePart => "Decimal_Without_Whole_Part"@,
        TypeParsing::WholeThousandSeparator => "Whole_Thousand_Separator"@,
        TypeParsing::DecimalThousandSeparator => "Decimal_Thousand_Separator"@,
    }
}

impl TypeParsing {
    /// The display name of the shape.
    pub fn name(&self) -> (r: &'static str)
        ensures
            r@ == type_parsing_name(*self),
    {
        match self {
            TypeParsing::WholeSimple => "Whole_Simple",
            TypeParsing::DecimalSimple => "Decimal_Simple",
            TypeParsing::DecimalWithoutWholePart => "Decimal_Without_Whole_Part",
            TypeParsing::WholeThousandSeparator => "Whole_Thousand_Separator",
            TypeParsing::DecimalThousandSeparator => "Decimal_Thousand_Separator",
        }
    }
}

impl From<&TypeParsing> for NumberType {
    fn from(type_parsing: &TypeParsing) -> (r: NumberType) {
        match type_parsing {
            TypeParsing::WholeSimple | TypeParsing::WholeThousandSeparator => NumberType::WHOLE,
            _ => NumberType::DECIMAL,
        }
    }
}

impl vstd::std_specs::convert::FromSpecImpl<&TypeParsing> for NumberType {
    open spec fn obeys_from_spec() -> bool {
        true
    }

    open spec fn from_spec(type_parsing: &TypeParsing) -> NumberType {
        number_type_of(*type_parsing)
    }
}

/// The thousand separator, the decimal separator and the grouping cadence
/// of a culture. The two separators render differently.
#[derive(Debug, Clone, Copy)]
pub struct NumberCultureSettings {
    thousand_separator: Separator,
    decimal_separator: Separator,
    thousand_grouping: ThousandGrouping,
}

impl NumberCultureSettings {
    pub closed spec fn thousand(self) -> Separator {
        self.thousand_separator
    }

    pub closed spec fn decimal(self) -> Separator {
        self.decimal_separator
    }

    pub closed spec fn grouping(self) -> ThousandGrouping {
        self.thousand_grouping
    }

    /// The separators render to different code points.
    pub open spec fn wf(self) -> bool {
        self.thousand().char_of() != self.decimal().char_of()
    }

    /// Settings that group by blocks of three.
    pub fn new(thousand_separator: Separator, decimal_separator: Separator) -> (r:
        NumberCultureSettings)
        requires
            thousand_separator.char_of() != decimal_separator.char_of(),
        ensures
            r.thousand() == thousand_separator,
            r.decimal() == decimal_separator,
            r.grouping() == ThousandGrouping::ThreeBlock,
            r.wf(),
    {
        NumberCultureSettings {
            thousand_separator,
            decimal_separator,
            thousand_grouping: ThousandGrouping::ThreeBlock,
        }
    }

    /// Settings that group by blocks of three, refused when both separators
    /// render to the same code point.
    pub fn try_new(thousand_separator: Separator, decimal_separator: Separator) -> (r: Result<
        NumberCultureSettings,
        ConversionError,
    >)
        ensures
            thousand_separator.char_of() == decimal_separator.char_of() ==> r == Err::<
                NumberCultureSettings,
                _,
            >(ConversionError::SameSeparators),
            thousand_separator.char_of() != decimal_separator.char_of() ==> r is Ok
                && r->Ok_0.thousand() == thousand_separator && r->Ok_0.decimal() == decimal_separator
                && r->Ok_0.grouping() == ThousandGrouping::ThreeBlock,
    {
        if thousand_separator == decimal_separator {
            Err(ConversionError::SameSeparators)
        } else {
            Ok(NumberCultureSettings::new(thousand_separator, decimal_separator))
        }
    }

    /// The same settings with another grouping cadence.
    pub fn with_grouping(self, thousand_grouping: ThousandGrouping) -> (r: Self)
        ensures
            r.thousand() == self.thousand(),
            r.decimal() == self.decimal(),
            r.grouping() == thousand_grouping,
    {
        NumberCultureSettings { thousand_grouping, ..self }
    }

    pub fn thousand_separator(&self) -> (r: Separator)
        ensures
            r == self.thousand(),
    {
        self.thousand_separator
    }

    pub fn into_thousand_separator_string(&self) -> (r: String)
        ensures
            r@ == seq![self.thousand().char_of()],
    {
        self.thousand_separator.to_owned_string()
    }

    pub fn into_thousand_separator_regex(&self) -> (r: String)
        ensures
            r@ == self.thousand().regex_atom(),
    {
        self.thousand_separator.to_string_regex()
    }

    pub fn decimal_separator(&self) -> (r: Separator)
        ensures
            r == self.decimal(),
    {
        self.decimal_separator
    }

    pub fn into_decimal_separator_string(&self) -> (r: String)
        ensures
            r@ == seq![self.decimal().char_of()],
    {
        self.decimal_separator.to_owned_string()
    }

    pub fn into_decimal_separator_regex(&self) -> (r: String)
        ensures
            r@ == self.decimal().regex_atom(),
    {
        self.decimal_separator.to_string_regex()
    }

    pub fn thousand_grouping(&self) -> (r: ThousandGrouping)
        ensures
            r == self.grouping(),
    {
        self.thousand_grouping
    }
}

#[verifier::external_type_specification]
#[verifier::external_body]
pub struct ExRegex(regex::Regex);

#[verifier::external_type_specification]
#[verifier::external_body]
pub struct ExRegexError(regex::Error);

/// Whether the regular expression written `pattern` matches somewhere in
/// `text`, as the `regex` crate decides it.
pub uninterp spec fn regex_matches(pattern: Seq<char>, text: Seq<char>) -> bool;

/// Whether `regex::Regex::new` accepts the pattern written `pattern`.
pub uninterp spec fn regex_compiles(pattern: Seq<char>) -> bool;

/// What `str::to_uppercase` makes of a text.
pub uninterp spec fn upper_of(s: Seq<char>) -> Seq<char>;

/// Relies on `regex::Regex::new`: compiles a pattern, or reports why it
/// cannot.
#[verifier::external_body]
fn compile(pattern: &str) -> (r: Result<regex::Regex, regex::Error>)
    ensures
        r is Ok <==> regex_compiles(pattern@),
{
    regex::Regex::new(pattern)
}

/// Relies on `str::to_uppercase`: the result depends on the characters alone.
#[verifier::external_body]
fn to_upper(s: &str) -> (r: String)
    ensures
        r@ == upper_of(s@),
{
    s.to_uppercase()
}

/// The anchored pattern of the only shape that needs no separator.
pub open spec fn whole_simple_text() -> Seq<char> {
    "^[\\-\\+]?[0-9]+$"@
}

/// The grouped whole part: one to three leading digits, then groups led by
/// the thousand separator, by the cadence of `g`.
pub open spec fn grouped_whole_text(th: Separator, g: ThousandGrouping) -> Seq<char> {
    let t = th.regex_atom();
    match g {
        ThousandGrouping::ThreeBlock => "[0-9]{1,3}("@ + t + "[0-9]{3})+"@,
        ThousandGrouping::TwoBlock => "[0-9]{1,3}("@ + t + "[0-9]{2})*("@ + t + "[0-9]{3})"@,
    }
}

/// The anchored pattern of a shape under the given separators and cadence.
pub open spec fn shape_text(t: TypeParsing, th: Separator, de: Separator, g: ThousandGrouping) -> Seq<
    char,
> {
    let d = de.regex_atom();
    match t {
        TypeParsing::WholeSimple => whole_simple_text(),
        TypeParsing::DecimalSimple => "^[\\-\\+]?[0-9]+"@ + d + "[0-9]+$"@,
        TypeParsing::DecimalWithoutWholePart => "^[\\-\\+]?"@ + d + "[0-9]+$"@,
        TypeParsing::WholeThousandSeparator => "^[\\-\\+]?"@ + grouped_whole_text(th, g) + "$"@,
        TypeParsing::DecimalThousandSeparator => "^[\\-\\+]?"@ + grouped_whole_text(th, g) + d
            + "[0-9]*$"@,
    }
}

/// The anchored pattern of a shape under optional settings; only
/// `WholeSimple` is meant to go without settings.
pub open spec fn shape_text_opt(t: TypeParsing, s: Option<NumberCultureSettings>) -> Seq<char> {
    match s {
        Some(x) => shape_text(t, x.thousand(), x.decimal(), x.grouping()),
        None => whole_simple_text(),
    }
}

/// The culture dependent shapes, in the order they are tried.
pub open spec fn culture_shapes() -> Seq<TypeParsing> {
    seq![
        TypeParsing::DecimalSimple,
        TypeParsing::DecimalWithoutWholePart,
        TypeParsing::WholeThousandSeparator,
        TypeParsing::DecimalThousandSeparator,
    ]
}

/// Every culture dependent shape's pattern compiles under the given
/// separators and cadence.
pub open spec fn shapes_compile(th: Separator, de: Separator, g: ThousandGrouping) -> bool {
    forall|i: int|
        0 <= i < culture_shapes().len() ==> regex_compiles(
            #[trigger] shape_text(culture_shapes()[i], th, de, g),
        )
}

/// The common pattern and the patterns of every known culture compile.
pub open spec fn registry_compiles() -> bool {
    &&& regex_compiles(whole_simple_text())
    &&& forall|k: int|
        0 <= k < all_cultures().len() ==> shapes_compile(
            culture_thousand(#[trigger] all_cultures()[k]),
            culture_decimal(all_cultures()[k]),
            culture_grouping(all_cultures()[k]),
        )
}

/// The anchored pattern of a shape for a culture.
pub open spec fn culture_shape_text(t: TypeParsing, c: Culture) -> Seq<char> {
    shape_text(t, culture_thousand(c), culture_decimal(c), culture_grouping(c))
}

/// Writes the grouped whole part pattern.
fn push_grouped_whole(v: &mut Vec<char>, s: &NumberCultureSettings)
    ensures
        final(v)@ == old(v)@ + grouped_whole_text(s.thousand(), s.grouping()),
{
    let t = s.into_thousand_separator_regex();
    let ghost start = v@;
    match s.thousand_grouping() {
        ThousandGrouping::ThreeBlock => {
            push_str(v, "[0-9]{1,3}(");
            push_str(v, t.as_str());
            push_str(v, "[0-9]{3})+");
        },
        ThousandGrouping::TwoBlock => {
            push_str(v, "[0-9]{1,3}(");
            push_str(v, t.as_str());
            push_str(v, "[0-9]{2})*(");
            push_str(v, t.as_str());
            push_str(v, "[0-9]{3})");
        },
    }
    assert(v@ =~= start + grouped_whole_text(s.thousand(), s.grouping()));
}

/// Synthesises the anchored pattern of a shape.
pub fn shape_pattern(type_parsing: &TypeParsing, culture_settings: Option<NumberCultureSettings>) -> (r:
    String)
    requires
        *type_parsing == TypeParsing::WholeSimple || culture_settings is Some,
    ensures
        r@ == shape_text_opt(*type_parsing, culture_settings),
{
    let mut v: Vec<char> = Vec::new();
    match culture_settings {
        None => {
            push_str(&mut v, "^[\\-\\+]?[0-9]+$");
        },
        Some(s) => {
            let d = s.into_decimal_separator_regex();
            match type_parsing {
                TypeParsing::WholeSimple => {
                    push_str(&mut v, "^[\\-\\+]?[0-9]+$");
                },
                TypeParsing::DecimalSimple => {
                    push_str(&mut v, "^[\\-\\+]?[0-9]+");
                    push_str(&mut v, d.as_str());
                    push_str(&mut v, "[0-9]+$");
                },
                TypeParsing::DecimalWithoutWholePart => {
                    push_str(&mut v, "^[\\-\\+]?");
                    push_str(&mut v, d.as_str());
                    push_str(&mut v, "[0-9]+$");
                },
                TypeParsing::WholeThousandSeparator => {
                    push_str(&mut v, "^[\\-\\+]?");
                    push_grouped_whole(&mut v, &s);
                    push_str(&mut v, "$");
                },
                TypeParsing::DecimalThousandSeparator => {
                    push_str(&mut v, "^[\\-\\+]?");
                    push_grouped_whole(&mut v, &s);
                    push_str(&mut v, d.as_str());
                    push_str(&mut v, "[0-9]*$");
                },
            }
        },
    }
    assert(v@ =~= shape_text_opt(*type_parsing, culture_settings));
    string_from_chars(&v)
}

/// An anchored regular expression compiled for one shape. `regex` is always
/// the compilation of `source`: `new` is the only place that builds one.
#[derive(Debug)]
pub struct RegexPattern {
    type_parsing: TypeParsing,
    source: String,
    regex: regex::Regex,
}

impl RegexPattern {
    /// The shape this expression recognises.
    pub closed spec fn shape(self) -> TypeParsing {
        self.type_parsing
    }

    /// The text the expression was compiled from.
    pub closed spec fn source(self) -> Seq<char> {
        self.source@
    }

    /// Synthesises and compiles the anchored expression of a shape.
    pub fn new(type_parsing: &TypeParsing, culture_settings: Option<NumberCultureSettings>) -> (r:
        Result<RegexPattern, ConversionError>)
        requires
            *type_parsing == TypeParsing::WholeSimple || culture_settings is Some,
        ensures
            r is Ok ==> r->Ok_0.shape() == *type_parsing && r->Ok_0.source() == shape_text_opt(
                *type_parsing,
                culture_settings,
            ),
            r is Err ==> r->Err_0 == ConversionError::RegexBuilder,
            r is Ok <==> regex_compiles(shape_text_opt(*type_parsing, culture_settings)),
    {
        let source = shape_pattern(type_parsing, culture_settings);
        match compile(source.as_str()) {
            Ok(regex) => Ok(RegexPattern { type_parsing: *type_parsing, source, regex }),
            Err(_) => Err(ConversionError::RegexBuilder),
        }
    }

    /// Relies on `regex::Regex::is_match`: whether the expression, compiled
    /// from `source` by `new`, matches somewhere in `text`.
    #[verifier::external_body]
    pub fn is_match(&self, text: &str) -> (r: bool)
        ensures
            r == regex_matches(self.source(), text@),
    {
        self.regex.is_match(text)
    }

    pub fn get_type_parsing(&self) -> (r: &TypeParsing)
        ensures
            *r == self.shape(),
    {
        &self.type_parsing
    }

    /// The compiled expression.
    pub fn get_regex(&self) -> (r: &regex::Regex) {
        &self.regex
    }

    /// The text the expression was compiled from.
    pub fn as_str(&self) -> (r: &str)
        ensures
            r@ == self.source(),
    {
        self.source.as_str()
    }
}

/// A named pattern for one shape, with the kind of number it yields.
#[derive(Debug)]
pub struct ParsingPattern {
    name: String,
    regex: RegexPattern,
    number_type: NumberType,
}

impl ParsingPattern {
    pub closed spec fn spec_name(self) -> Seq<char> {
        self.name@
    }

    pub closed spec fn spec_regex(self) -> RegexPattern {
        self.regex
    }

    pub closed spec fn spec_number_type(self) -> NumberType {
        self.number_type
    }

    /// The shape of the pattern.
    pub open spec fn shape(self) -> TypeParsing {
        self.spec_regex().shape()
    }

    /// The text of the pattern's expression.
    pub open spec fn source(self) -> Seq<char> {
        self.spec_regex().source()
    }

    /// Builds the pattern of a shape, named after the upper cased `name`
    /// and the shape.
    pub fn build(
        name: String,
        type_parsing: TypeParsing,
        culture_settings: Option<NumberCultureSettings>,
    ) -> (r: Result<ParsingPattern, ConversionError>)
        requires
            type_parsing == TypeParsing::WholeSimple || culture_settings is Some,
        ensures
            r is Ok ==> {
                let p = r->Ok_0;
                &&& p.shape() == type_parsing
                &&& p.source() == shape_text_opt(type_parsing, culture_settings)
                &&& p.spec_number_type() == number_type_of(type_parsing)
                &&& p.spec_name() == upper_of(name@) + seq!['_'] + type_parsing_name(type_parsing)
            },
            r is Err ==> r->Err_0 == ConversionError::RegexBuilder,
            r is Ok <==> regex_compiles(shape_text_opt(type_parsing, culture_settings)),
    {
        let regex = RegexPattern::new(&type_parsing, culture_settings)?;
        let upper = to_upper(name.as_str());
        let mut v: Vec<char> = Vec::new();
        push_str(&mut v, upper.as_str());
        v.push('_');
        push_str(&mut v, type_parsing.name());
        Ok(ParsingPattern {
            name: string_from_chars(&v),
            regex,
            number_type: NumberType::from(&type_parsing),
        })
    }

    pub fn get_regex(&self) -> (r: &RegexPattern)
        ensures
            *r == self.spec_regex(),
    {
        &self.regex
    }

    pub fn get_number_type(&self) -> (r: &NumberType)
        ensures
            *r == self.spec_number_type(),
    {
        &self.number_type
    }

    pub fn name(&self) -> (r: &str)
        ensures
            r@ == self.spec_name(),
    {
        self.name.as_str()
    }
}

/// The culture dependent patterns of one culture.
#[derive(Debug)]
pub struct CulturePattern {
    name: String,
    value: Culture,
    patterns: Vec<ParsingPattern>,
}

impl CulturePattern {
    pub closed spec fn spec_name(self) -> Seq<char> {
        self.name@
    }

    pub closed spec fn culture(self) -> Culture {
        self.value
    }

    pub closed spec fn spec_patterns(self) -> Seq<ParsingPattern> {
        self.patterns@
    }

    /// The patterns are those of the culture dependent shapes, in order,
    /// under the given settings.
    pub open spec fn holds_shapes(self, th: Separator, de: Separator, g: ThousandGrouping) -> bool {
        &&& self.spec_patterns().len() == culture_shapes().len()
        &&& forall|i: int|
            0 <= i < culture_shapes().len() ==> {
                &&& (#[trigger] self.spec_patterns()[i]).shape() == culture_shapes()[i]
                &&& self.spec_patterns()[i].source() == shape_text(culture_shapes()[i], th, de, g)
                &&& self.spec_patterns()[i].spec_number_type() == number_type_of(culture_shapes()[i])
            }
    }

    /// Builds the patterns of the culture whose short code is `name`.
    pub fn new(name: &str, culture_settings: NumberCultureSettings) -> (r: Result<
        CulturePattern,
        ConversionError,
    >)
        ensures
            culture_of_code(name@) is None ==> r == Err::<CulturePattern, ConversionError>(
                ConversionError::PatternCultureNotFound,
            ),
            culture_of_code(name@) is Some && r is Err ==> r->Err_0 == ConversionError::RegexBuilder,
            r is Ok <==> culture_of_code(name@) is Some && shapes_compile(
                culture_settings.thousand(),
                culture_settings.decimal(),
                culture_settings.grouping(),
            ),
            r is Ok ==> {
                &&& culture_of_code(name@) is Some
                &&& r->Ok_0.culture() == culture_of_code(name@)->Some_0
                &&& r->Ok_0.spec_name() == name@
                &&& r->Ok_0.holds_shapes(
                    culture_settings.thousand(),
                    culture_settings.decimal(),
                    culture_settings.grouping(),
                )
            },
    {
        let value = Culture::from_code(name)?;
        let shapes = [
            TypeParsing::DecimalSimple,
            TypeParsing::DecimalWithoutWholePart,
            TypeParsing::WholeThousandSeparator,
            TypeParsing::DecimalThousandSeparator,
        ];
        assert(shapes@ =~= culture_shapes());
        let mut patterns: Vec<ParsingPattern> = Vec::new();
        let mut i: usize = 0;
        while i < 4
            invariant
                i <= 4,
                shapes@ == culture_shapes(),
                culture_of_code(name@) == Some(value),
                patterns@.len() == i,
                forall|j: int|
                    0 <= j < i ==> regex_compiles(
                        #[trigger] shape_text(
                            culture_shapes()[j],
                            culture_settings.thousand(),
                            culture_settings.decimal(),
                            culture_settings.grouping(),
                        ),
                    ),
                forall|j: int|
                    0 <= j < i ==> {
                        &&& (#[trigger] patterns@[j]).shape() == culture_shapes()[j]
                        &&& patterns@[j].source() == shape_text(
                            culture_shapes()[j],
                            culture_settings.thousand(),
                            culture_settings.decimal(),
                            culture_settings.grouping(),
                        )
                        &&& patterns@[j].spec_number_type() == number_type_of(culture_shapes()[j])
                    },
            decreases 4 - i,
        {
            let p = ParsingPattern::build(
                string_from_name(name),
                shapes[i],
                Some(culture_settings),
            )?;
            patterns.push(p);
            i = i + 1;
        }
        assert(shapes_compile(
            culture_settings.thousand(),
            culture_settings.decimal(),
            culture_settings.grouping(),
        )) by {
            assert forall|k: int| 0 <= k < culture_shapes().len() implies regex_compiles(
                #[trigger] shape_text(
                    culture_shapes()[k],
                    culture_settings.thousand(),
                    culture_settings.decimal(),
                    culture_settings.grouping(),
                ),
            ) by {
                assert(0 <= k < 4);
            }
        }
        Ok(CulturePattern { name: string_from_name(name), value, patterns })
    }

    pub fn get_name(&self) -> (r: &str)
        ensures
            r@ == self.spec_name(),
    {
        self.name.as_str()
    }

    pub fn get_culture(&self) -> (r: &Culture)
        ensures
            *r == self.culture(),
    {
        &self.value
    }

    pub fn get_patterns(&self) -> (r: &Vec<ParsingPattern>)
        ensures
            r@ == self.spec_patterns(),
    {
        &self.patterns
    }
}

/// An owned copy of a name.
fn string_from_name(name: &str) -> (r: String)
    ensures
        r@ == name@,
{
    name.to_owned()
}

/// The first culture dependent shape, from index `start` on, whose pattern
/// for culture `c` matches `text`.
pub open spec fn first_shape_from(c: Culture, text: Seq<char>, start: int) -> Option<TypeParsing>
    decreases culture_shapes().len() - start,
{
    if start < 0 || start >= culture_shapes().len() {
        None
    } else if regex_matches(culture_shape_text(culture_shapes()[start], c), text) {
        Some(culture_shapes()[start])
    } else {
        first_shape_from(c, text, start + 1)
    }
}

/// The shape a text is classified as: the common shape first, then the
/// shapes of the culture, if one is given, in their fixed order.
pub open spec fn classify(text: Seq<char>, culture: Option<Culture>) -> Option<TypeParsing> {
    if regex_matches(whole_simple_text(), text) {
        Some(TypeParsing::WholeSimple)
    } else {
        match culture {
            None => None,
            Some(c) => first_shape_from(c, text, 0),
        }
    }
}

/// The index of the first culture pattern of `c` in `cs`, from `start` on.
pub open spec fn culture_index_from(cs: Seq<CulturePattern>, c: Culture, start: int) -> Option<int>
    decreases cs.len() - start,
{
    if start < 0 || start >= cs.len() {
        None
    } else if cs[start].culture() == c {
        Some(start)
    } else {
        culture_index_from(cs, c, start + 1)
    }
}

/// The patterns tried for a text, in order: the common ones, then those of
/// the first culture pattern of `culture`, when there is one.
pub open spec fn candidates(p: NumberPatterns, culture: Option<Culture>) -> Seq<ParsingPattern> {
    p.commons() + match culture {
        Some(c) => match culture_index_from(p.cultures(), c, 0) {
            Some(i) => p.cultures()[i].spec_patterns(),
            None => Seq::empty(),
        },
        None => Seq::empty(),
    }
}

/// The index of the first pattern of `ps`, from `start` on, whose
/// expression matches `text`.
pub open spec fn first_match_from(ps: Seq<ParsingPattern>, text: Seq<char>, start: int) -> Option<
    int,
>
    decreases ps.len() - start,
{
    if start < 0 || start >= ps.len() {
        None
    } else if regex_matches(ps[start].source(), text) {
        Some(start)
    } else {
        first_match_from(ps, text, start + 1)
    }
}

/// All the patterns used to classify texts.
#[derive(Debug)]
pub struct NumberPatterns {
    common_pattern: Vec<ParsingPattern>,
    culture_pattern: Vec<CulturePattern>,
    math_pattern: Vec<ParsingPattern>,
}

impl NumberPatterns {
    pub closed spec fn commons(self) -> Seq<ParsingPattern> {
        self.common_pattern@
    }

    pub closed spec fn cultures(self) -> Seq<CulturePattern> {
        self.culture_pattern@
    }

    pub closed spec fn maths(self) -> Seq<ParsingPattern> {
        self.math_pattern@
    }

    /// One common pattern for `WholeSimple`, then one culture pattern per
    /// known culture, in declaration order, each holding that culture's
    /// shapes.
    pub open spec fn wf(self) -> bool {
        &&& self.commons().len() == 1
        &&& self.commons()[0].shape() == TypeParsing::WholeSimple
        &&& self.commons()[0].source() == whole_simple_text()
        &&& self.commons()[0].spec_number_type() == NumberType::WHOLE
        &&& self.cultures().len() == all_cultures().len()
        &&& forall|i: int|
            0 <= i < all_cultures().len() ==> {
                let c = all_cultures()[i];
                &&& (#[trigger] self.cultures()[i]).culture() == c
                &&& self.cultures()[i].holds_shapes(
                    culture_thousand(c),
                    culture_decimal(c),
                    culture_grouping(c),
                )
            }
    }

    /// Builds the common pattern and the patterns of every known culture.
    pub fn new() -> (r: Result<NumberPatterns, ConversionError>)
        ensures
            r is Ok ==> r->Ok_0.wf() && r->Ok_0.maths().len() == 0,
            r is Err ==> r->Err_0 == ConversionError::RegexBuilder,
            r is Ok <==> registry_compiles(),
    {
        let common = ParsingPattern::build(
            string_from_name("Common"),
            TypeParsing::WholeSimple,
            None,
        )?;
        let cultures = Culture::all();
        let mut culture_pattern: Vec<CulturePattern> = Vec::new();
        let mut i: usize = 0;
        while i < cultures.len()
            invariant
                cultures@ == all_cultures(),
                i <= cultures.len(),
                culture_pattern@.len() == i,
                regex_compiles(whole_simple_text()),
                forall|j: int|
                    0 <= j < i ==> shapes_compile(
                        culture_thousand(#[trigger] all_cultures()[j]),
                        culture_decimal(all_cultures()[j]),
                        culture_grouping(all_cultures()[j]),
                    ),
                forall|j: int|
                    0 <= j < i ==> {
                        let c = all_cultures()[j];
                        &&& (#[trigger] culture_pattern@[j]).culture() == c
                        &&& culture_pattern@[j].holds_shapes(
                            culture_thousand(c),
                            culture_decimal(c),
                            culture_grouping(c),
                        )
                    },
            decreases cultures.len() - i,
        {
            let c = cultures[i];
            proof {
                reveal_strlit("en");
                reveal_strlit("fr");
                reveal_strlit("it");
                reveal_strlit("in");
            }
            let cp = CulturePattern::new(c.code(), c.settings());
            match cp {
                Ok(cp) => {
                    culture_pattern.push(cp);
                },
                Err(_) => {
                    assert(!registry_compiles()) by {
                        assert(all_cultures()[i as int] == c);
                    }
                    return Err(ConversionError::RegexBuilder);
                },
            }
            i = i + 1;
        }
        let mut common_pattern: Vec<ParsingPattern> = Vec::new();
        common_pattern.push(common);
        Ok(NumberPatterns { common_pattern, culture_pattern, math_pattern: Vec::new() })
    }

    /// Every culture pattern.
    pub fn get_all_culture_pattern(&self) -> (r: &Vec<CulturePattern>)
        ensures
            r@ == self.cultures(),
    {
        &self.culture_pattern
    }

    /// The first culture pattern of `culture`, if any.
    pub fn get_culture_pattern(&self, culture: &Culture) -> (r: Option<&CulturePattern>)
        ensures
            r is Some ==> r->Some_0.culture() == *culture && self.cultures().contains(
                *r->Some_0,
            ),
            r is None ==> forall|i: int|
                0 <= i < self.cultures().len() ==> (#[trigger] self.cultures()[i]).culture()
                    != *culture,
            r is Some == culture_index_from(self.cultures(), *culture, 0) is Some,
            r is Some ==> *r->Some_0 == self.cultures()[culture_index_from(
                self.cultures(),
                *culture,
                0,
            )->Some_0],
            self.wf() ==> r is Some && r->Some_0.holds_shapes(
                culture_thousand(*culture),
                culture_decimal(*culture),
                culture_grouping(*culture),
            ),
    {
        let mut i: usize = 0;
        while i < self.culture_pattern.len()
            invariant
                i <= self.culture_pattern@.len(),
                forall|j: int| 0 <= j < i ==> (#[trigger] self.cultures()[j]).culture() != *culture,
                culture_index_from(self.cultures(), *culture, 0) == culture_index_from(
                    self.cultures(),
                    *culture,
                    i as int,
                ),
            decreases self.culture_pattern@.len() - i,
        {
            if self.culture_pattern[i].value == *culture {
                proof {
                    if self.wf() {
                        let k = i as int;
                        assert(self.cultures()[k].culture() == all_cultures()[k]);
                    }
                }
                return Some(&self.culture_pattern[i]);
            }
            i = i + 1;
        }
        proof {
            if self.wf() {
                let k: int = match *culture {
                    Culture::English => 0,
                    Culture::French => 1,
                    Culture::Italian => 2,
                    Culture::Indian => 3,
                };
                assert(self.cultures()[k].culture() == all_cultures()[k]);
            }
        }
        None
    }

    pub fn add_culture_pattern(&mut self, pattern: CulturePattern)
        ensures
            final(self).cultures() == old(self).cultures().push(pattern),
            final(self).commons() == old(self).commons(),
            final(self).maths() == old(self).maths(),
    {
        self.culture_pattern.push(pattern);
    }

    pub fn get_common_pattern(&self) -> (r: &Vec<ParsingPattern>)
        ensures
            r@ == self.commons(),
    {
        &self.common_pattern
    }

    pub fn add_common_pattern(&mut self, pattern: ParsingPattern)
        ensures
            final(self).commons() == old(self).commons().push(pattern),
            final(self).cultures() == old(self).cultures(),
            final(self).maths() == old(self).maths(),
    {
        self.common_pattern.push(pattern);
    }

    pub fn get_math_pattern(&self) -> (r: &Vec<ParsingPattern>)
        ensures
            r@ == self.maths(),
    {
        &self.math_pattern
    }

    pub fn add_math_pattern(&mut self, pattern: ParsingPattern)
        ensures
            final(self).maths() == old(self).maths().push(pattern),
            final(self).commons() == old(self).commons(),
            final(self).cultures() == old(self).cultures(),
    {
        self.math_pattern.push(pattern);
    }
}

/// A text to classify and convert, with its optional culture.
#[derive(Debug)]
pub struct ConvertString {
    string_num: String,
    culture: Option<Culture>,
    all_patterns: Result<NumberPatterns, ConversionError>,
}

impl ConvertString {
    pub closed spec fn text(self) -> Seq<char> {
        self.string_num@
    }

    pub closed spec fn culture(self) -> Option<Culture> {
        self.culture
    }

    /// Whether every pattern could be compiled.
    pub closed spec fn registry_built(self) -> bool {
        self.all_patterns is Ok
    }

    #[verifier::type_invariant]
    spec fn inv(self) -> bool {
        self.all_patterns is Ok ==> self.all_patterns->Ok_0.wf()
    }

    /// Holds a text and its culture together with freshly built patterns.
    pub fn new(string_num: &str, culture: Option<Culture>) -> (r: ConvertString)
        ensures
            r.text() == string_num@,
            r.culture() == culture,
            r.registry_built() <==> registry_compiles(),
    {
        ConvertString { string_num: string_from_name(string_num), culture, all_patterns: NumberPatterns::new() }
    }

    /// The pattern the text matches, if any.
    pub fn get_current_pattern(&self) -> (r: Option<&ParsingPattern>)
        ensures
            !self.registry_built() ==> r is None,
            self.registry_built() ==> r is Some == classify(self.text(), self.culture()) is Some,
            r is Some ==> r->Some_0.shape() == classify(self.text(), self.culture())->Some_0
                && r->Some_0.spec_number_type() == number_type_of(r->Some_0.shape()),
    {
        proof {
            use_type_invariant(self);
        }
        match &self.all_patterns {
            Ok(patterns) => ConvertString::find_pattern_in(
                self.string_num.as_str(),
                self.culture,
                patterns,
            ),
            Err(_) => None,
        }
    }

    /// The first culture pattern of `culture` in `patterns`, if any.
    pub fn find_culture_pattern<'a>(culture: &Culture, patterns: &'a NumberPatterns) -> (r:
        Option<&'a CulturePattern>)
        ensures
            r is Some == culture_index_from(patterns.cultures(), *culture, 0) is Some,
            r is Some ==> *r->Some_0 == patterns.cultures()[culture_index_from(
                patterns.cultures(),
                *culture,
                0,
            )->Some_0],
            r is Some ==> r->Some_0.culture() == *culture,
            patterns.wf() ==> r is Some && r->Some_0.holds_shapes(
                culture_thousand(*culture),
                culture_decimal(*culture),
                culture_grouping(*culture),
            ),
    {
        patterns.get_culture_pattern(culture)
    }

    /// The first pattern, among the common ones and then those of the first
    /// culture pattern of `culture`, whose expression matches `string_num`.
    /// When `patterns` holds no pattern for `culture`, only the common ones
    /// are tried.
    pub fn find_pattern<'a>(string_num: &str, culture: &Culture, patterns: &'a NumberPatterns) -> (r:
        Option<&'a ParsingPattern>)
        ensures
            match first_match_from(candidates(*patterns, Some(*culture)), string_num@, 0) {
                Some(i) => r is Some && *r->Some_0 == candidates(*patterns, Some(*culture))[i],
                None => r is None,
            },
            patterns.wf() ==> (r is Some == classify(string_num@, Some(*culture)) is Some),
            patterns.wf() && r is Some ==> r->Some_0.shape() == classify(
                string_num@,
                Some(*culture),
            )->Some_0 && r->Some_0.spec_number_type() == number_type_of(r->Some_0.shape()),
    {
        ConvertString::find_pattern_in(string_num, Some(*culture), patterns)
    }

    fn find_pattern_in<'a>(
        string_num: &str,
        culture: Option<Culture>,
        patterns: &'a NumberPatterns,
    ) -> (r: Option<&'a ParsingPattern>)
        ensures
            match first_match_from(candidates(*patterns, culture), string_num@, 0) {
                Some(i) => r is Some && *r->Some_0 == candidates(*patterns, culture)[i],
                None => r is None,
            },
            patterns.wf() ==> (r is Some == classify(string_num@, culture) is Some),
            patterns.wf() && r is Some ==> r->Some_0.shape() == classify(string_num@, culture)->Some_0
                && r->Some_0.spec_number_type() == number_type_of(r->Some_0.shape()),
    {
        let ghost cands = candidates(*patterns, culture);
        let ghost text = string_num@;
        let n = patterns.common_pattern.len();
        let mut i: usize = 0;
        while i < n
            invariant
                n == patterns.commons().len(),
                i <= n,
                cands == candidates(*patterns, culture),
                text == string_num@,
                first_match_from(cands, text, 0) == first_match_from(cands, text, i as int),
                patterns.wf() && i > 0 ==> !regex_matches(whole_simple_text(), text),
            decreases n - i,
        {
            let p = &patterns.common_pattern[i];
            assert(cands[i as int] == *p);
            if p.regex.is_match(string_num) {
                return Some(p);
            }
            i = i + 1;
        }
        let c = match culture {
            None => {
                assert(cands =~= patterns.commons());
                return None;
            },
            Some(c) => c,
        };
        let cp = match patterns.get_culture_pattern(&c) {
            Some(cp) => cp,
            None => {
                assert(cands =~= patterns.commons());
                return None;
            },
        };
        assert(cands == patterns.commons() + cp.spec_patterns());
        let mut j: usize = 0;
        while j < cp.patterns.len()
            invariant
                n == patterns.commons().len(),
                cands == patterns.commons() + cp.spec_patterns(),
                text == string_num@,
                cands == candidates(*patterns, culture),
                j <= cp.spec_patterns().len(),
                first_match_from(cands, text, 0) == first_match_from(cands, text, n + j),
                culture == Some(c),
                patterns.wf() ==> cp.holds_shapes(
                    culture_thousand(c),
                    culture_decimal(c),
                    culture_grouping(c),
                ),
                patterns.wf() ==> first_shape_from(c, text, 0) == first_shape_from(
                    c,
                    text,
                    j as int,
                ),
                patterns.wf() ==> classify(text, culture) == first_shape_from(c, text, 0),
            decreases cp.spec_patterns().len() - j,
        {
            let p = &cp.patterns[j];
            assert(cp.spec_patterns()[j as int] == *p);
            assert(cands[n + j] == *p);
            assert(cands.len() == n + cp.spec_patterns().len());
            if p.regex.is_match(string_num) {
                assert(p.source() == p.regex.source());
                assert(first_match_from(cands, text, n + j) == Some((n + j) as int));
                return Some(p);
            }
            j = j + 1;
        }
        None
    }

    /// Converts the text with the separators of its culture, or, without a
    /// culture, with white space as the only separator.
    pub fn to_number<N: std::str::FromStr>(&self) -> (r: Result<N, ConversionError>)
        ensures
            r is Err ==> r->Err_0 == ConversionError::UnableToConvertStringToNumber,
    {
        match self.culture {
            Some(culture) => self.string_num.as_str().to_number_culture::<N>(culture),
            None => self.string_num.as_str().to_number::<N>(),
        }
    }

    /// Whether the text has a number shape.
    pub fn is_numeric(&self) -> (r: bool)
        ensures
            r == (self.registry_built() && classify(self.text(), self.culture()) is Some),
    {
        self.get_current_pattern().is_some()
    }

    /// Whether the text has the shape of a whole number.
    pub fn is_integer(&self) -> (r: bool)
        ensures
            r == (self.registry_built() && classify(self.text(), self.culture()) is Some
                && number_type_of(classify(self.text(), self.culture())->Some_0)
                == NumberType::WHOLE),
    {
        match self.get_current_pattern() {
            Some(pp) => *pp.get_number_type() == NumberType::WHOLE,
            None => false,
        }
    }

    /// Whether the text has the shape of a decimal number.
    pub fn is_float(&self) -> (r: bool)
        ensures
            r == (self.registry_built() && classify(self.text(), self.culture()) is Some
                && number_type_of(classify(self.text(), self.culture())->Some_0)
                == NumberType::DECIMAL),
    {
        match self.get_current_pattern() {
            Some(pp) => *pp.get_number_type() == NumberType::DECIMAL,
            None => false,
        }
    }
}

/// The separator as literal text.
impl From<Separator> for String {
    fn from(e: Separator) -> (r: String) {
        e.to_owned_string()
    }
}

impl vstd::std_specs::convert::FromSpecImpl<Separator> for String {
    open spec fn obeys_from_spec() -> bool {
        false
    }

    open spec fn from_spec(e: Separator) -> String {
        arbitrary()
    }
}

/// The code point of the separator.
impl From<Separator> for char {
    fn from(e: Separator) -> (r: char) {
        e.to_char()
    }
}

impl vstd::std_specs::convert::FromSpecImpl<Separator> for char {
    open spec fn obeys_from_spec() -> bool {
        true
    }

    open spec fn from_spec(e: Separator) -> char {
        e.char_of()
    }
}

/// Reads a separator from its literal text, one code point.
impl TryFrom<&str> for Separator {
    type Error = ConversionError;

    fn try_from(value: &str) -> (r: Result<Separator, ConversionError>) {
        Separator::from_text(value)
    }
}

impl vstd::std_specs::convert::TryFromSpecImpl<&str> for Separator {
    open spec fn obeys_try_from_spec() -> bool {
        true
    }

    open spec fn try_from_spec(value: &str) -> Result<Separator, ConversionError> {
        separator_of_text(value@)
    }
}

/// The settings of a culture.
impl From<Culture> for NumberCultureSettings {
    fn from(culture: Culture) -> (r: NumberCultureSettings) {
        culture.settings()
    }
}

impl vstd::std_specs::convert::FromSpecImpl<Culture> for NumberCultureSettings {
    open spec fn obeys_from_spec() -> bool {
        true
    }

    open spec fn from_spec(culture: Culture) -> NumberCultureSettings {
        culture_settings(culture)
    }
}

/// The settings of a culture, as `From<Culture>` gives them.
pub closed spec fn culture_settings(c: Culture) -> NumberCultureSettings {
    NumberCultureSettings {
        thousand_separator: culture_thousand(c),
        decimal_separator: culture_decimal(c),
        thousand_grouping: culture_grouping(c),
    }
}

/// Settings are equal when their separators and cadence are.
pub proof fn lemma_settings_ext(a: NumberCultureSettings, b: NumberCultureSettings)
    requires
        a.thousand() == b.thousand(),
        a.decimal() == b.decimal(),
        a.grouping() == b.grouping(),
    ensures
        a == b,
{
}

/// The separators and cadence of the settings of each culture, which
/// render their two separators differently.
pub proof fn lemma_culture_settings(c: Culture)
    ensures
        culture_settings(c).thousand() == culture_thousand(c),
        culture_settings(c).decimal() == culture_decimal(c),
        culture_settings(c).grouping() == culture_grouping(c),
        culture_settings(c).wf(),
{
}

/// The characters that `regex::escape` precedes with a backslash.
pub open spec fn is_meta(c: char) -> bool {
    c == '\\' || c == '.' || c == '+' || c == '*' || c == '?' || c == '(' || c == ')' || c == '|'
        || c == '[' || c == ']' || c == '{' || c == '}' || c == '^' || c == '$' || c == '#' || c
        == '&' || c == '-' || c == '~'
}

/// Text with a backslash before each meta character.
pub open spec fn escape_spec(s: Seq<char>) -> Seq<char>
    decreases s.len(),
{
    if s.len() == 0 {
        Seq::empty()
    } else {
        let c = s.last();
        escape_spec(s.drop_last()) + if is_meta(c) {
            seq!['\\', c]
        } else {
            seq![c]
        }
    }
}

/// Relies on `regex::escape`: each meta character of the input gets a
/// backslash in front of it, every other character is kept as it is.
#[verifier::external_body]
fn regex_escape(s: &str) -> (r: String)
    ensures
        r@ == escape_spec(s@),
{
    regex::escape(s)
}

} // verus!
