use num_string::{ConversionError, Culture, NumberConversion, ToFormat};

#[test]
fn test_number_parsing_simple() {
    assert_eq!("1000".to_number::<i32>().unwrap(), 1000);
    assert_eq!(1000.to_format("N2", Culture::French).unwrap(), "1 000,00");
    assert_eq!(
        "1000".to_number::<i8>(),
        Err(ConversionError::UnableToConvertStringToNumber)
    );
    assert_eq!("1000".to_number::<f32>().unwrap(), 1000.0);
    assert_eq!(
        "1,000.8888".to_number_culture::<f32>(Culture::English).unwrap(),
        1000.8888
    );
}

#[test]
fn test_number_to_format_integer() {
    let integers = vec![
        (2000i64, Culture::English, "2,000"),
        (2000, Culture::French, "2 000"),
        (2000, Culture::Italian, "2.000"),
        (-2000, Culture::English, "-2,000"),
        (-2000, Culture::French, "-2 000"),
        (-2000, Culture::Italian, "-2.000"),
    ];

    for (number, culture, to_string_format) in integers {
        assert_eq!(number.to_format("N0", culture).unwrap(), String::from(to_string_format));
    }
}

#[test]
fn test_number_to_format_float() {
    let floats = vec![
        (2_000.98, Culture::English, "2,000.98"),
        (-2_000.98, Culture::French, "-2 000,98"),
        (2_000.98, Culture::Italian, "2.000,98"),
        (049_490.8257, Culture::English, "49,490.83"),
        (10_000.9999, Culture::French, "10 001,00"),
        (-10_000.999, Culture::French, "-10 001,00"),
    ];
    for (number, culture, to_string_format) in floats {
        assert_eq!(number.to_format("N2", culture).unwrap(), String::from(to_string_format));
    }
}

#[test]
fn test_reverse_mapping_number() {
    let values_int = vec![(1, "1", Culture::French), (1000, "1 000", Culture::French)];

    for (val_i32, val_str, culture) in values_int {
        assert_eq!(val_i32.to_format("N0", culture).unwrap(), val_str);
        assert_eq!(val_str.to_number_culture::<i32>(culture).unwrap(), val_i32);
    }

    let values_float = vec![
        (1.0, "1,00", Culture::French),
        (1000.88, "1 000,88", Culture::French),
        (-1582.99, "-1,582.99", Culture::English),
        (1.0, "1.00", Culture::English),
        (100000000.10, "100.000.000,10", Culture::Italian),
        (-50.50, "-50,50", Culture::Italian),
    ];

    for (val_f64, val_str, culture) in values_float {
        assert_eq!(val_f64.to_format("N2", culture).unwrap(), val_str);
        assert_eq!(val_str.to_number_culture::<f64>(culture).unwrap(), val_f64);
    }
}
