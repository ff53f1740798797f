use fwmap::calendar::{civil_from_days, date_text};

#[test]
fn day_numbers_map_to_dates() {
    assert_eq!(civil_from_days(0), (1970, 1, 1));
    assert_eq!(civil_from_days(-1), (1969, 12, 31));
    assert_eq!(civil_from_days(11_016), (2000, 2, 29));
    assert_eq!(civil_from_days(19_723), (2024, 1, 1));
    assert_eq!(civil_from_days(19_782), (2024, 2, 29));
    assert_eq!(civil_from_days(19_783), (2024, 3, 1));
    assert_eq!(civil_from_days(-719_468), (0, 3, 1));
}

#[test]
fn dates_are_written_with_padding() {
    assert_eq!(date_text(0), "1970-01-01");
    assert_eq!(date_text(19_782), "2024-02-29");
    assert_eq!(date_text(20_453), "2025-12-31");
}
