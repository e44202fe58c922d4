use num_string::number::{apply_decimal_format, set_nb_digits, Number};
use num_string::{ConversionError, Culture, FormatOption, ToFormat};

#[test]
fn str_to_format_integer() {
    let vals_i32 = vec![
        (1000, "N0", Culture::French, "1 000"),
        (10000, "N2", Culture::French, "10 000,00"),
        (10000, "N4", Culture::English, "10,000.0000"),
        (-1000, "N0", Culture::Italian, "-1.000"),
        (-1000, "N3", Culture::Italian, "-1.000,000"),
        (1, "N1", Culture::English, "1.0"),
    ];

    for (val_i32, to_format, culture, string_result) in vals_i32 {
        assert_eq!(val_i32.to_format(to_format, culture).unwrap(), string_result);
    }

    let vals_i8 = vec![
        (100_i8, "N0", Culture::French, "100"),
        (100_i8, "N2", Culture::French, "100,00"),
        (100_i8, "N4", Culture::English, "100.0000"),
        (-10_i8, "N0", Culture::Italian, "-10"),
        (-10_i8, "N3", Culture::Italian, "-10,000"),
        (-1_i8, "N1", Culture::English, "-1.0"),
    ];

    for (val_i8, to_format, culture, string_result) in vals_i8 {
        assert_eq!(val_i8.to_format(to_format, culture).unwrap(), string_result);
    }

    let vals_u64 = vec![
        (10000000_u64, "N0", Culture::French, "10 000 000"),
        (10000000_u64, "N2", Culture::French, "10 000 000,00"),
        (10000000_u64, "N4", Culture::English, "10,000,000.0000"),
    ];

    for (val_u64, to_format, culture, string_result) in vals_u64 {
        assert_eq!(val_u64.to_format(to_format, culture).unwrap(), string_result);
    }
}

#[test]
fn str_to_format_float() {
    let vals_f64 = vec![
        (1000.48f64, "N0", Culture::French, "1 000"),
        (10000.48, "N2", Culture::French, "10 000,48"),
        (10000.99, "N4", Culture::English, "10,000.9900"),
        (-1000.98, "N0", Culture::Italian, "-1.001"),
        (-1000.66666, "N3", Culture::Italian, "-1.000,667"),
        (1., "N2", Culture::English, "1.00"),
        (2_000.98, "N0", Culture::Italian, "2.001"),
        (2_000.98, "N2", Culture::Italian, "2.000,98"),
        (2_000.98, "N3", Culture::Italian, "2.000,980"),
        (2_000.9998888, "N3", Culture::Italian, "2.001,000"),
    ];

    for (val_f64, to_format, culture, string_result) in vals_f64 {
        assert_eq!(val_f64.to_format(to_format, culture).unwrap(), string_result);
    }
}

#[test]
fn test_round_format() {
    assert_eq!(1000.66666.to_format("N2", Culture::French).unwrap(), "1 000,67");
    assert_eq!((-1000.66666).to_format("N2", Culture::French).unwrap(), "-1 000,67");

    assert_eq!(1000.999.to_format("N2", Culture::French).unwrap(), "1 001,00");
    assert_eq!((-1000.999).to_format("N2", Culture::French).unwrap(), "-1 001,00");
}

#[test]
fn test_apply_decimal() {
    let list = vec![
        ("2", FormatOption::new(4, 4), "2000"),
        ("265556", FormatOption::new(2, 2), "27"),
        ("512", FormatOption::new(2, 4), "512"),
        ("512", FormatOption::new(2, 2), "51"),
        ("512", FormatOption::new(5, 5), "51200"),
    ];

    for (decimal_value, format, decimal_string) in list {
        assert_eq!(apply_decimal_format(decimal_value, &format).unwrap().0, decimal_string);
    }
}

#[test]
fn test_number_to_format_option_float() {
    let floats = vec![
        (2_000.98, Culture::English, "2,001", FormatOption::new(0, 2)),
        (-2_000.98, Culture::French, "-2 001", FormatOption::new(0, 0)),
        (2_000.98, Culture::Italian, "2.000,980", FormatOption::new(3, 5)),
        (2_000.98, Culture::Italian, "2.000,98000", FormatOption::new(5, 5)),
    ];

    for (number, culture, to_string_format, format) in floats {
        assert_eq!(
            Number::new(number).to_format_options(&culture, format).unwrap(),
            String::from(to_string_format)
        );
    }
}

#[test]
fn test_split_number() {
    assert_eq!(
        Number::new(1_000.32f32).regex_read_number().unwrap(),
        ("+".to_owned(), "1000".to_owned(), Some("32".to_owned())),
        "Error when spliting 1_000.32f32"
    );

    assert_eq!(
        Number::new(-1_000_000.32f64).regex_read_number().unwrap(),
        ("-".to_owned(), "1000000".to_owned(), Some("32".to_owned())),
        "Error when spliting -1_000_000.32f64"
    );

    assert_eq!(
        Number::new(-1_000i32).regex_read_number().unwrap(),
        ("-".to_owned(), "1000".to_owned(), None),
        "Error when spliting -1_000i32"
    );

    assert_eq!(
        Number::new(2).regex_read_number().unwrap(),
        ("+".to_owned(), "2".to_owned(), None),
        "Error when spliting 2"
    );
}

#[test]
fn test_set_nb_digits() {
    let values_ok = vec![("N0", 0), ("N2", 2), ("N4", 4), ("N9", 9)];
    let values_error = vec![
        ("N10", ConversionError::UnableToDisplayFormat),
        ("N200", ConversionError::UnableToDisplayFormat),
        ("good morning", ConversionError::UnableToDisplayFormat),
        ("Polkadot", ConversionError::UnableToDisplayFormat),
    ];

    for (format_str, result) in values_ok {
        assert_eq!(set_nb_digits(format_str), Ok(result));
    }

    for (format_str, result) in values_error {
        assert_eq!(set_nb_digits(format_str), Err(result));
    }
}
