//! An overview of the main functionalities of the crate.

use num_string::{ConvertString, Culture, NumberConversion, NumberCultureSettings, Separator, ThousandGrouping, ToFormat};

#[test]
fn convert_string_number_with_separator_should_work() {
    assert_eq!("100".to_number::<i32>().unwrap(), 100);
    assert_eq!("10000".to_number::<i32>().unwrap(), 10000);

    assert_eq!(
        "10 000"
            .to_number_separators::<i32>(NumberCultureSettings::new(Separator::SPACE, Separator::DOT))
            .unwrap(),
        10000
    );
    assert_eq!(
        "10,000,000"
            .to_number_separators::<i32>(NumberCultureSettings::new(Separator::COMMA, Separator::DOT))
            .unwrap(),
        10000000
    );

    assert_eq!(
        "10,000,000.80"
            .to_number_separators::<f32>(NumberCultureSettings::new(Separator::COMMA, Separator::DOT))
            .unwrap(),
        10000000.80
    );
    assert_eq!(
        "10🥦000🥦000🦀80"
            .to_number_separators::<f32>(NumberCultureSettings::new(
                Separator::CUSTOM('🥦'),
                Separator::CUSTOM('🦀')
            ))
            .unwrap(),
        10000000.80
    );

    assert_eq!(
        "1 00 00 000.50"
            .to_number_separators::<f32>(
                NumberCultureSettings::new(Separator::SPACE, Separator::DOT)
                    .with_grouping(ThousandGrouping::TwoBlock)
            )
            .unwrap(),
        10000000.5
    );
}

#[test]
fn convert_string_number_with_culture_should_work() {
    assert_eq!("10 000".to_number_culture::<i32>(Culture::French).unwrap(), 10000);
    assert_eq!("10,000".to_number_culture::<i32>(Culture::English).unwrap(), 10000);

    assert_eq!("-18.888,88".to_number_culture::<f32>(Culture::Italian).unwrap(), -18888.88);
    assert_eq!("-10,000.80".to_number_culture::<f32>(Culture::English).unwrap(), -10000.8);

    assert_eq!("-1,00,00,000.50".to_number_culture::<f32>(Culture::Indian).unwrap(), -10000000.5);
    assert_eq!("10,00,000".to_number_culture::<i32>(Culture::Indian).unwrap(), 1000000);
    assert_eq!("-10,00,00,000.50".to_number_culture::<f32>(Culture::Indian).unwrap(), -100000000.5);
    assert_eq!(
        "10,00,00,00,000".to_number_culture::<i64>(Culture::Indian).unwrap(),
        10_000_000_000_i64
    );
}

#[test]
fn display_number_to_string_with_separator_should_work() {
    assert_eq!(
        "10",
        10.to_format_separators("N0", NumberCultureSettings::new(Separator::SPACE, Separator::COMMA))
            .unwrap()
    );
    assert_eq!(
        "10,00",
        10.to_format_separators("N2", NumberCultureSettings::new(Separator::SPACE, Separator::COMMA))
            .unwrap()
    );
    assert_eq!(
        "1,000.00",
        1000.to_format_separators("N2", NumberCultureSettings::new(Separator::COMMA, Separator::DOT))
            .unwrap()
    );
    assert_eq!(
        "1'000.00",
        1000.to_format_separators(
            "N2",
            NumberCultureSettings::new(Separator::APOSTROPHE, Separator::DOT)
        )
        .unwrap()
    );

    assert_eq!(
        "10🦀000🦀001,00",
        10_000_000.9999
            .to_format_separators(
                "N2",
                NumberCultureSettings::new(Separator::CUSTOM('🦀'), Separator::COMMA)
            )
            .unwrap()
    );

    let indian = NumberCultureSettings::new(Separator::COMMA, Separator::DOT)
        .with_grouping(ThousandGrouping::TwoBlock);
    assert_eq!("10,001.00", 10_000.9999.to_format_separators("N2", indian).unwrap());
    assert_eq!("10,00,001.00", 1_000_000.9999.to_format_separators("N2", indian).unwrap());
    assert_eq!("10,00,001.00", 1_000_000.9999.to_format_separators("N2", indian).unwrap());
    assert_eq!("10,00,00,000.00", 100_000_000_f64.to_format_separators("N2", indian).unwrap());
}

#[test]
fn display_number_to_string_with_culture_should_work() {
    assert_eq!("10", 10.to_format("N0", Culture::French).unwrap());
    assert_eq!("10,00", 10.to_format("N2", Culture::French).unwrap());
    assert_eq!("1,000.00", 1000.to_format("N2", Culture::English).unwrap());
    assert_eq!("1.000,0000", 1000.to_format("N4", Culture::Italian).unwrap());

    assert_eq!("10,00,00,000", 100_000_000_i64.to_format("N0", Culture::Indian).unwrap());
    assert_eq!("10,00,00,001.00", 100_000_000.9999.to_format("N2", Culture::Indian).unwrap());

    assert_eq!(10_000.9999.to_format("N2", Culture::Indian).unwrap(), "10,001.00");

    assert_eq!(1000.to_format("N0", Culture::English).unwrap(), "1,000");
}

#[test]
fn convert_number_with_given_culture_and_display_info_should_work() {
    let string_num = ConvertString::new("10,000", Some(Culture::English));

    // A parsing pattern has been found for this number
    assert!(string_num.get_current_pattern().is_some());
    assert!(string_num.is_numeric());
    assert!(string_num.is_integer());
    assert!(!string_num.is_float());
    assert_eq!(
        string_num.get_current_pattern().unwrap().name(),
        "EN_Whole_Thousand_Separator"
    );
}
