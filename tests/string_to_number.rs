use num_string::string_to_number::StringNumber;
use num_string::{ConversionError, NumberConversion, NumberCultureSettings, Separator, ThousandGrouping};

fn dot_comma() -> NumberCultureSettings {
    NumberCultureSettings::new(Separator::DOT, Separator::COMMA)
}
fn comma_dot() -> NumberCultureSettings {
    NumberCultureSettings::new(Separator::COMMA, Separator::DOT)
}
fn comma_dot_grouping_two() -> NumberCultureSettings {
    NumberCultureSettings::new(Separator::COMMA, Separator::DOT).with_grouping(ThousandGrouping::TwoBlock)
}
fn space_comma() -> NumberCultureSettings {
    NumberCultureSettings::new(Separator::SPACE, Separator::COMMA)
}

#[test]
fn test_number_separator() {
    assert_eq!(
        "-5'000.66"
            .to_number_separators::<f32>(NumberCultureSettings::new(Separator::APOSTROPHE, Separator::DOT))
            .unwrap(),
        -5000.66
    );
    assert_eq!(
        "1000.66"
            .to_number_separators::<f32>(NumberCultureSettings::new(Separator::APOSTROPHE, Separator::COMMA))
            .unwrap(),
        1000.66
    );

    assert_eq!(
        "-5{000.66"
            .to_number_separators::<f32>(NumberCultureSettings::new(Separator::CUSTOM('{'), Separator::DOT))
            .unwrap(),
        -5000.66
    );

    let strawberry_crab = NumberCultureSettings::new(Separator::CUSTOM('🍓'), Separator::CUSTOM('🦀'));
    let crab_strawberry = NumberCultureSettings::new(Separator::CUSTOM('🦀'), Separator::CUSTOM('🍓'));
    assert_eq!("-5🍓000🦀66".to_number_separators::<f32>(strawberry_crab).unwrap(), -5000.66);
    assert_eq!("-5🦀🦀🦀🦀🦀000🍓66".to_number_separators::<f32>(crab_strawberry).unwrap(), -5000.66);

    assert_eq!("-5🍓000🍓000🦀66".to_number_separators::<f32>(strawberry_crab).unwrap(), -5000000.66);

    assert_eq!("-5🍓🍓🍓🍓🍓🍓000🦀66".to_number_separators::<f32>(strawberry_crab).unwrap(), -5000.66);
    assert_eq!("-5🍓🍓000🍓🍓000🦀66".to_number_separators::<f32>(strawberry_crab).unwrap(), -5000000.66);
}

#[test]
#[should_panic]
fn test_number_separator_multiple_decimal() {
    assert_eq!(
        "-5🍓000🦀🦀🦀🦀🦀🦀🦀66"
            .to_number_separators::<f32>(NumberCultureSettings::new(
                Separator::CUSTOM('🍓'),
                Separator::CUSTOM('🦀')
            ))
            .unwrap(),
        -5000.66
    );
}

#[test]
fn string_to_number_number_conversion_integer() {
    let list = vec![
        ("10", 10, 10.0),
        ("0", 0, 0.0),
        ("-10", -10, -10.0),
        ("1000", 1000, 1000.0),
        ("1 000", 1000, 1000.0),
    ];

    for (string_value, int_value, float_value) in list {
        assert_eq!(string_value.to_number::<i32>().unwrap(), int_value);
        assert_eq!(string_value.to_number::<f64>().unwrap(), float_value);
    }
}

#[test]
fn string_to_number_number_conversion_decimal() {
    let list = vec![
        ("10,0", 10.0),
        ("0,25", 0.25),
        ("-10,5", -10.5),
        ("1000,89", 1000.89),
        ("1 000,4564654654654", 1000.4564654654654),
        ("1000,4564654654654", 1000.4564654654654),
    ];

    for (string_value, float_value) in list {
        assert_eq!(string_value.to_number_separators::<f64>(space_comma()).unwrap(), float_value);
    }
}

#[test]
fn string_to_number_number_conversion_others() {
    assert_eq!("10.000.000".to_number_separators::<i32>(dot_comma()).unwrap(), 10_000_000);
    assert_eq!("10,000,000".to_number_separators::<i32>(comma_dot()).unwrap(), 10_000_000);
    assert_eq!(
        "10,00,00,00,000".to_number_separators::<i64>(comma_dot_grouping_two()).unwrap(),
        10_000_000_000
    );
    assert_eq!("1.000,45".to_number_separators::<f64>(dot_comma()).unwrap(), 1_000.45);
    assert_eq!("1.000".to_number_separators::<i32>(dot_comma()).unwrap(), 1_000);
}

#[test]
fn string_to_number_number_conversion_primitive_dependent_i8() {
    let i8_ok = "120";
    assert_eq!(i8_ok.to_number::<i8>().unwrap(), 120);
    assert_eq!(i8_ok.to_number::<i64>().unwrap(), 120);
    assert_eq!(i8_ok.to_number::<u8>().unwrap(), 120);
}

#[test]
fn string_to_number_number_conversion_primitive_dependent_i16() {
    let i16_ok = "-10000";
    assert_eq!(i16_ok.to_number::<i16>().unwrap(), -10_000);
    assert_eq!(i16_ok.to_number::<i8>(), Err(ConversionError::UnableToConvertStringToNumber));
}

#[test]
fn string_to_number_number_error_conversion() {
    assert_eq!(
        "10,000,000".to_number_separators::<i32>(space_comma()),
        Err(ConversionError::UnableToConvertStringToNumber)
    );
    assert_eq!(
        "10,00,00,00".to_number_separators::<i32>(space_comma()),
        Err(ConversionError::UnableToConvertStringToNumber)
    );
    assert_eq!("10,00,00,00".to_number::<i32>(), Err(ConversionError::UnableToConvertStringToNumber));
}

#[test]
fn string_to_number_number_conversion_not_allowed() {
    let list = vec!["x", "10*5", "2..500"];

    for string_value in list {
        let wn = StringNumber::new(String::from(string_value));
        assert_eq!(wn.to_number::<i32>(), Err(ConversionError::UnableToConvertStringToNumber));
    }
}
