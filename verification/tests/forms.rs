use biztrace::forms::{
    balance_label, cursor_for_digits_to_right, format_amount, format_number, format_price_input,
    format_quantity, parse_amount, parse_nonnegative_quantity, parse_quantity, unit_code,
    unit_label,
};

#[test]
fn price_formatter_groups_digits_and_keeps_end_caret() {
    let result = format_price_input("1000".into(), 4);
    assert_eq!(result.text, "1,000");
    assert_eq!(result.cursor, 5);
}

#[test]
fn price_formatter_preserves_digits_to_the_right_of_caret() {
    let result = format_price_input("12000".into(), 2);
    assert_eq!(result.text, "12,000");
    assert_eq!(result.cursor, 2);
}

#[test]
fn quantity_parser_supports_fractional_persian_input() {
    assert_eq!(parse_quantity("۱۲٫۵"), Some(12_500));
    assert_eq!(parse_quantity("۱/۵"), Some(1_500));
    assert_eq!(parse_quantity(".125"), Some(125));
    assert_eq!(format_quantity(12_500), "12.5");
}

#[test]
fn price_formatter_reads_persian_digits_and_drops_other_characters() {
    // "۱۲۳۴" is eight bytes; the caret after the second digit is at byte 4.
    let result = format_price_input("۱۲۳۴", 4);
    assert_eq!(result.text, "1,234");
    assert_eq!(result.cursor, 3);
    let result = format_price_input("1a2b3", -1);
    assert_eq!(result.text, "123");
    assert_eq!(result.cursor, 3);
    let result = format_price_input("abc", 1);
    assert_eq!(result.text, "");
    assert_eq!(result.cursor, 0);
}

#[test]
fn price_formatter_keeps_digits_that_do_not_fit_in_i64() {
    let result = format_price_input("99999999999999999999", 20);
    assert_eq!(result.text, "99999999999999999999");
    assert_eq!(result.cursor, 20);
}

#[test]
fn caret_lands_before_the_digits_it_had_to_its_right() {
    assert_eq!(cursor_for_digits_to_right("1,234,567", 0), 9);
    assert_eq!(cursor_for_digits_to_right("1,234,567", 3), 5);
    assert_eq!(cursor_for_digits_to_right("1,234,567", 7), 0);
    assert_eq!(cursor_for_digits_to_right("1,234,567", 8), 9);
}

#[test]
fn amounts_accept_separators_and_all_digit_scripts() {
    assert_eq!(parse_amount("1,250,000"), Some(1_250_000));
    assert_eq!(parse_amount("۱٬۲۵۰"), Some(1_250));
    assert_eq!(parse_amount("٣ ٤"), Some(34));
    assert_eq!(parse_amount(""), None);
    assert_eq!(parse_amount("-5"), None);
    assert_eq!(parse_amount("12a"), None);
    assert_eq!(parse_amount("9223372036854775808"), None);
}

#[test]
fn numbers_are_grouped_by_thousands() {
    assert_eq!(format_number(0), "0");
    assert_eq!(format_number(999), "999");
    assert_eq!(format_number(1_250_000), "1,250,000");
    assert_eq!(format_number(-5_000), "-5,000");
    // The sign counts as a digit when grouping, as it always has.
    assert_eq!(format_number(-500_000), "-,500,000");
    assert_eq!(format_amount(1_500), "1,500 ریال");
}

#[test]
fn balances_read_as_debit_credit_or_settled() {
    assert_eq!(balance_label(250_000), "بدهکار • 250,000 ریال");
    assert_eq!(balance_label(-125_000), "بستانکار • 125,000 ریال");
    assert_eq!(balance_label(0), "تسویه");
}

#[test]
fn quantities_are_read_and_shown_in_thousandths() {
    assert_eq!(parse_quantity("0"), None);
    assert_eq!(parse_nonnegative_quantity("0"), Some(0));
    assert_eq!(parse_quantity("1.2345"), None);
    assert_eq!(parse_quantity("1.2.3"), None);
    assert_eq!(parse_quantity("2"), Some(2_000));
    assert_eq!(format_quantity(2_000), "2");
    assert_eq!(format_quantity(1_375), "1.375");
    assert_eq!(format_quantity(1_050), "1.05");
}

#[test]
fn unit_codes_and_labels_correspond() {
    assert_eq!(unit_code(0), "each");
    assert_eq!(unit_code(1), "kilogram");
    assert_eq!(unit_code(7), "custom");
    assert_eq!(unit_code(-1), "custom");
    assert_eq!(unit_label("kilogram"), "کیلوگرم");
    assert_eq!(unit_label("unknown"), "سفارشی");
}

#[test]
fn price_caret_goes_to_the_end_when_leading_zeros_are_dropped() {
    let result = format_price_input("0012", 0);
    assert_eq!(result.text, "12");
    assert_eq!(result.cursor, 2);
    let result = format_price_input("0012", 2);
    assert_eq!(result.text, "12");
    assert_eq!(result.cursor, 0);
}

#[test]
fn formatted_quantities_parse_back() {
    for value in [1, 7, 10, 100, 999, 1_000, 2_250, 12_500, 100_000, 123_456_789] {
        assert_eq!(parse_quantity(&format_quantity(value)), Some(value), "{value}");
    }
    assert_eq!(format_quantity(2_050), "2.05");
    assert_eq!(parse_nonnegative_quantity(&format_quantity(0)), Some(0));
}

#[test]
fn formatted_amounts_parse_back() {
    for value in [0, 5, 999, 1_000, 1_250_000, i64::MAX] {
        assert_eq!(parse_amount(&format_number(value)), Some(value), "{value}");
    }
}
