use num_string::number::{format_canonical, format_canonical_with, split_number};
use num_string::pattern::TypeParsing;
use num_string::string_to_number::StringNumber;
use num_string::{
    ConversionError, ConvertString, Culture, FormatOption, NumberConversion, NumberCultureSettings,
    Separator, ThousandGrouping, ToFormat,
};

#[test]
fn grouping_three_and_two_blocks() {
    let three = NumberCultureSettings::new(Separator::COMMA, Separator::DOT);
    let two = three.with_grouping(ThousandGrouping::TwoBlock);
    assert_eq!(1000000.to_format_separators("N0", three).unwrap(), "1,000,000");
    assert_eq!(10000000.to_format_separators("N0", two).unwrap(), "1,00,00,000");
    assert_eq!(123.to_format_separators("N0", two).unwrap(), "123");
    assert_eq!(1234.to_format_separators("N0", two).unwrap(), "1,234");
    assert_eq!(0.to_format_separators("N0", three).unwrap(), "0");
}

#[test]
fn rounding_carries_into_whole_part() {
    let english = Culture::English.settings();
    assert_eq!(
        format_canonical("999.995", &english, &FormatOption::new(2, 2)).unwrap(),
        "1,000.00"
    );
    assert_eq!(999.995.to_format("N2", Culture::English).unwrap(), "1,000.00");
    assert_eq!(format_canonical("-9.96", &english, &FormatOption::new(1, 1)).unwrap(), "-10.0");
    assert_eq!(format_canonical("9.5", &english, &FormatOption::new(0, 0)).unwrap(), "10");
    assert_eq!(format_canonical("9.4", &english, &FormatOption::new(0, 3)).unwrap(), "9");
    assert_eq!(format_canonical("1.05", &english, &FormatOption::new(1, 1)).unwrap(), "1.1");
    assert_eq!(format_canonical("1.05", &english, &FormatOption::new(2, 2)).unwrap(), "1.05");
    assert_eq!(format_canonical("+7", &english, &FormatOption::default()).unwrap(), "7.00");
}

#[test]
fn format_errors() {
    let english = Culture::English.settings();
    assert_eq!(
        format_canonical("abc", &english, &FormatOption::default()),
        Err(ConversionError::NotCaptureFoundWhenConvertNumberToString)
    );
    assert_eq!(
        format_canonical("12a", &english, &FormatOption::default()),
        Err(ConversionError::UnableToConvertNumberToString)
    );
    assert_eq!(
        format_canonical("1.2.3", &english, &FormatOption::default()),
        Err(ConversionError::UnableToConvertNumberToString)
    );
    assert_eq!(
        format_canonical_with("10", "X2", &english),
        Err(ConversionError::UnableToDisplayFormat)
    );
    assert_eq!(1000.to_format("N", Culture::English), Err(ConversionError::UnableToDisplayFormat));
    assert_eq!(1000.to_format("n2", Culture::English), Err(ConversionError::UnableToDisplayFormat));
    assert_eq!(
        "NaN".to_format("N2", Culture::English),
        Err(ConversionError::NotCaptureFoundWhenConvertNumberToString)
    );
    assert_eq!(format_canonical_with("1234.5", "N1", &english).unwrap(), "1,234.5");
}

#[test]
fn split_of_canonical_text() {
    assert_eq!(
        split_number("-12.50").unwrap(),
        ("-".to_owned(), "12".to_owned(), Some("50".to_owned()))
    );
    assert_eq!(split_number("7.").unwrap(), ("+".to_owned(), "7".to_owned(), None));
    assert_eq!(split_number("-"), Err(ConversionError::NotCaptureFoundWhenConvertNumberToString));
}

#[test]
fn formatted_text_reads_back() {
    for culture in Culture::all() {
        let text = 1234567.891.to_format("N2", culture).unwrap();
        assert_eq!(text.as_str().to_number_culture::<f64>(culture).unwrap(), 1234567.89);
        let s = StringNumber::new_with_settings(text.clone(), culture.settings());
        assert_eq!(s.clean(), "1234567.89");
    }
}

#[test]
fn cleaning_twice_changes_nothing() {
    let english = Culture::English.settings();
    let once = StringNumber::new_with_settings(String::from("-1,234,567.5"), english).clean();
    assert_eq!(once, "-1234567.5");
    let twice = StringNumber::new_with_settings(once.clone(), english).clean();
    assert_eq!(twice, once);

    let plain = StringNumber::new(String::from(" 1 2\t3 ")).clean();
    assert_eq!(plain, "123");
    assert_eq!(StringNumber::new(plain.clone()).clean(), plain);

    // the decimal point is a thousand separator in Italian: a second pass removes it
    let italian = Culture::Italian.settings();
    let once = StringNumber::new_with_settings(String::from("1.000,5"), italian).clean();
    assert_eq!(once, "1000.5");
    assert_eq!(StringNumber::new_with_settings(once, italian).clean(), "10005");
}

#[test]
fn shapes_are_exclusive_on_examples() {
    let samples = vec!["12", "-1,5", ",5", "1 234", "1 234,5", "1,234", "1.234,5", "1,00,000", "1,00,000.5"];
    for culture in Culture::all() {
        for text in &samples {
            let convert = ConvertString::new(text, Some(culture));
            let shape = convert.get_current_pattern().map(|p| *p.get_regex().get_type_parsing());
            let is_whole = matches!(
                shape,
                Some(TypeParsing::WholeSimple) | Some(TypeParsing::WholeThousandSeparator)
            );
            assert_eq!(convert.is_integer(), is_whole);
            assert_eq!(convert.is_float(), shape.is_some() && !is_whole);
        }
    }
    let indian = ConvertString::new("1,00,000.5", Some(Culture::Indian));
    assert_eq!(
        *indian.get_current_pattern().unwrap().get_regex().get_type_parsing(),
        TypeParsing::DecimalThousandSeparator
    );
    let english = ConvertString::new("1,00,000.5", Some(Culture::English));
    assert!(!english.is_numeric());
    let no_culture = ConvertString::new("1,5", None);
    assert!(!no_culture.is_numeric());
    assert_eq!(no_culture.to_number::<i32>(), Err(ConversionError::UnableToConvertStringToNumber));
}

#[test]
fn scenario_examples() {
    assert_eq!("10,000".to_number_culture::<i32>(Culture::English), Ok(10000));
    assert_eq!("-18.888,88".to_number_culture::<f32>(Culture::Italian), Ok(-18888.88));
    assert_eq!(1000.to_format("N2", Culture::French), Ok(String::from("1 000,00")));
    let custom = NumberCultureSettings::new(Separator::COMMA, Separator::DOT)
        .with_grouping(ThousandGrouping::TwoBlock);
    assert_eq!(10_000.9999.to_format_separators("N2", custom), Ok(String::from("10,001.00")));
    assert_eq!("1000".to_number::<i8>(), Err(ConversionError::UnableToConvertStringToNumber));
    for culture in [None, Some(Culture::English), Some(Culture::French), Some(Culture::Italian), Some(Culture::Indian)] {
        assert!(!ConvertString::new("1..0", culture).is_numeric());
    }
}

#[test]
fn culture_codes_and_settings() {
    assert_eq!(Culture::from_code("fr"), Ok(Culture::French));
    assert_eq!(Culture::try_from("in"), Ok(Culture::Indian));
    assert_eq!(Culture::from_code("de"), Err(ConversionError::PatternCultureNotFound));
    assert_eq!(Culture::default(), Culture::English);
    assert_eq!(Culture::Italian.code(), "it");
    let indian = Culture::Indian.settings();
    assert_eq!(indian.thousand_separator(), Separator::COMMA);
    assert_eq!(indian.decimal_separator(), Separator::DOT);
    assert_eq!(indian.thousand_grouping(), ThousandGrouping::TwoBlock);
    assert_eq!(indian.into_decimal_separator_string(), ".");
}

#[test]
fn separator_errors_and_equality() {
    assert_eq!(Separator::from_text("ab"), Err(ConversionError::SeparatorNotFound));
    assert_eq!(Separator::from_text("'"), Ok(Separator::APOSTROPHE));
    assert_eq!(Separator::from_text("🦀"), Ok(Separator::CUSTOM('🦀')));
    assert_eq!(Separator::SPACE, Separator::CUSTOM(' '));
    assert_eq!(
        NumberCultureSettings::try_new(Separator::COMMA, Separator::CUSTOM(',')).unwrap_err(),
        ConversionError::SameSeparators
    );
    assert!(NumberCultureSettings::try_new(Separator::COMMA, Separator::DOT).is_ok());
    assert_eq!(Separator::CUSTOM('🦀').to_string_regex(), "[🦀]");
    assert_eq!(Separator::CUSTOM('$').to_string_regex(), "[\\$]");
    assert_eq!(ConversionError::RegexBuilder.message(), "Unable to create regex");
}
