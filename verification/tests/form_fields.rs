use pdf_ui::form_choice::{choice_value, display_choice_label, toggle_choice_value};
use pdf_ui::form_validation::{
    check_field, FieldCheck, format_date_as, format_today, validate_date_field, validate_date_value, validate_date_value_on,
    validate_insurance_date,
};

#[test]
fn choice_labels_use_display_values() {
    let options = vec![("A".to_owned(), "Artist".to_owned())];
    assert_eq!(display_choice_label(&options, "A"), "Artist");
}

#[test]
fn multi_choice_values_toggle() {
    assert_eq!(toggle_choice_value("A\u{1f}B", "A"), "B");
    assert_eq!(toggle_choice_value("A", "B"), "A\u{1f}B");
}

#[test]
fn multi_select_label_joins_the_labels_of_each_value() {
    let options = vec![
        ("A".to_owned(), "Artist".to_owned()),
        ("B".to_owned(), "Baker".to_owned()),
        ("A".to_owned(), "Second".to_owned()),
    ];
    assert_eq!(display_choice_label(&options, "A\u{1f}\u{1f}C\u{1f}B"), "Artist, C, Baker");
    assert_eq!(display_choice_label(&options, "Z"), "Z");
    assert_eq!(display_choice_label(&options, ""), "");
}

#[test]
fn toggling_drops_empty_pieces_and_every_copy_of_the_value() {
    assert_eq!(toggle_choice_value("\u{1f}A\u{1f}B\u{1f}A", "A"), "B");
    assert_eq!(toggle_choice_value("", "A"), "A");
    assert_eq!(toggle_choice_value("B", "B"), "");
    // Toggling twice brings a value back.
    assert_eq!(toggle_choice_value(&toggle_choice_value("A\u{1f}B", "C"), "C"), "A\u{1f}B");
}

#[test]
fn single_select_choice_replaces_the_value() {
    assert_eq!(choice_value("A\u{1f}B", "C", false), "C");
    assert_eq!(choice_value("A\u{1f}B", "A", true), "B");
}

#[test]
fn insurance_validation_matches_form_messages() {
    assert_eq!(validate_insurance_date("010120").unwrap(), "010120");
    assert_eq!(
        validate_insurance_date("123").unwrap_err(),
        "Der zweite Teil der Versicherungsnummer muss aus 6 Zeichen bestehen"
    );
    assert_eq!(
        validate_insurance_date("320120").unwrap_err(),
        "Der Tag darf nicht größer als 31 sein"
    );
    assert_eq!(
        validate_insurance_date("011620").unwrap_err(),
        "Falsche Monatsangabe!"
    );
}

#[test]
fn insurance_validation_accepts_empty_and_rejects_non_digits() {
    assert_eq!(validate_insurance_date("").unwrap(), "");
    assert_eq!(
        validate_insurance_date("01a120").unwrap_err(),
        "Der zweite Teil der Versicherungsnummer muss aus 6 Zeichen bestehen"
    );
    // Six bytes, but not six characters.
    assert_eq!(
        validate_insurance_date("ää01").unwrap_err(),
        "Der zweite Teil der Versicherungsnummer muss aus 6 Zeichen bestehen"
    );
    assert_eq!(validate_insurance_date("311599").unwrap(), "311599");
}

#[test]
fn date_validation_matches_form_messages_and_normalization() {
    let validate = |value| {
        validate_date_value(
            value,
            "TT.MM.JJJJ",
            "11.03.2007",
            true,
            "01.01.1850",
            "31.12.2200",
        )
    };

    assert_eq!(validate("1.02.2020").unwrap(), "01.02.2020");
    assert_eq!(
        validate("not-a-date").unwrap_err(),
        "Bitte geben Sie das Datum im Format TT.MM.JJJJ ein. (Beispiel:11.03.2007)"
    );
    assert_eq!(
        validate("31.12.1849").unwrap_err(),
        "Das Datum muss nach 01.01.1850 liegen."
    );
}

#[test]
fn date_validation_rejects_future_and_late_dates() {
    let today = Some((2024, 6, 15));
    let validate = |value, reject_future| {
        validate_date_value_on(
            value,
            "TT.MM.JJJJ",
            "11.03.2007",
            reject_future,
            "01.01.1850",
            "31.12.2100",
            today,
        )
    };
    assert_eq!(
        validate("16.06.2024", true).unwrap_err(),
        "Das Datum darf nicht nach dem akutellen Datum liegen!"
    );
    assert_eq!(validate("15.06.2024", true).unwrap(), "15.06.2024");
    assert_eq!(validate("16.06.2024", false).unwrap(), "16.06.2024");
    assert_eq!(
        validate("01.01.2101", false).unwrap_err(),
        "Das Datum muss vor 31.12.2100 liegen."
    );
    assert_eq!(validate("", true).unwrap(), "");
    assert_eq!(
        validate("30.02.2020", false).unwrap_err(),
        "Bitte geben Sie das Datum im Format TT.MM.JJJJ ein. (Beispiel:11.03.2007)"
    );
}

#[test]
fn future_dates_pass_when_the_clock_gives_no_day() {
    assert_eq!(
        validate_date_value_on("16.06.2024", "TT.MM.JJJJ", "x", true, "01.01.1850", "31.12.2100", None)
            .unwrap(),
        "16.06.2024"
    );
    // A rejected future date never reaches the bounds.
    assert_eq!(
        validate_date_value_on("16.06.2024", "TT.MM.JJJJ", "x", true, "nope", "nope", Some((2024, 6, 15)))
            .unwrap_err(),
        "Das Datum darf nicht nach dem akutellen Datum liegen!"
    );
}

#[test]
fn date_field_with_unreadable_bounds_is_not_validated() {
    assert!(validate_date_field("01.02.2020", "TT.MM.JJJJ", "x", false, "nope", "31.12.2200").is_none());
    assert!(validate_date_field("01.02.2020", "TT.MM.JJJJ", "x", false, "01.01.1850", "nope").is_none());
    assert_eq!(
        validate_date_field("1.02.2020", "TT.MM.JJJJ", "x", false, "01.01.1850", "31.12.2200"),
        Some(Ok("01.02.2020".to_owned()))
    );
}

#[test]
fn date_field_reaches_the_bounds_only_when_it_must() {
    assert_eq!(validate_date_field("", "TT.MM.JJJJ", "x", true, "nope", "nope"), Some(Ok(String::new())));
    assert_eq!(
        validate_date_field("someday", "TT.MM.JJJJ", "11.03.2007", false, "nope", "nope"),
        Some(Err("Bitte geben Sie das Datum im Format TT.MM.JJJJ ein. (Beispiel:11.03.2007)".to_owned()))
    );
    // Before the minimum: the maximum is never read.
    assert_eq!(
        validate_date_field("01.01.1800", "TT.MM.JJJJ", "x", false, "01.01.1850", "nope"),
        Some(Err("Das Datum muss nach 01.01.1850 liegen.".to_owned()))
    );
    // Far in the future and rejected as such, whatever the bounds.
    assert_eq!(
        validate_date_field("01.01.3000", "TT.MM.JJJJ", "x", true, "nope", "nope"),
        Some(Err("Das Datum darf nicht nach dem akutellen Datum liegen!".to_owned()))
    );
}

#[test]
fn today_is_written_in_the_form_format() {
    let text = format_today("yyyy-mm-dd").expect("the clock reads a time after 1970");
    let bytes = text.as_bytes();
    assert_eq!(bytes.len(), 10);
    assert_eq!(bytes[4], b'-');
    assert_eq!(bytes[7], b'-');
}

#[test]
fn dates_are_written_in_the_form_format() {
    assert_eq!(format_date_as("mm/dd/yyyy", (2020, 2, 1)), "02/01/2020");
    assert_eq!(format_date_as("yyyy-mm-dd", (2020, 2, 1)), "2020-02-01");
    assert_eq!(format_date_as("dd.mm.yyyy", (2020, 2, 1)), "01.02.2020");
    assert_eq!(format_date_as("dd.mm.yyyy", (12, 3, 4)), "04.03.0012");
    assert_eq!(format_date_as("yyyy-mm-dd", (-1, 12, 31)), "-0001-12-31");
    assert_eq!(format_date_as("mm/dd/yyyy", (10000, 1, 9)), "01/09/+10000");
}

#[test]
fn blurred_fields_are_reset_normalized_or_kept() {
    assert_eq!(
        check_field(true, "  ", "stored", None),
        FieldCheck::Alert { value: "stored".to_owned(), message: "Please fill out this field.".to_owned() }
    );
    assert_eq!(check_field(false, "  ", "stored", None), FieldCheck::Keep);
    assert_eq!(
        check_field(true, "1.02.2020", "", Some((true, Ok("01.02.2020".to_owned())))),
        FieldCheck::Replace("01.02.2020".to_owned())
    );
    assert_eq!(check_field(true, "010120", "", Some((false, Ok("010120".to_owned())))), FieldCheck::Keep);
    assert_eq!(
        check_field(false, "x", "old", Some((true, Err("bad".to_owned())))),
        FieldCheck::Alert { value: String::new(), message: "bad".to_owned() }
    );
    assert_eq!(
        check_field(false, "x", "old", Some((false, Err("bad".to_owned())))),
        FieldCheck::Alert { value: "old".to_owned(), message: "bad".to_owned() }
    );
}
