use biztrace::date::{
    jalali_for_gregorian_text, parse_jalali_date, today_gregorian, gregorian_date_for_timestamp, gregorian_to_jalali, jalali_calendar_day, jalali_component,
    jalali_days_in_month, jalali_to_gregorian, parse_jalali,
};

#[test]
fn converts_known_nowruz_dates() {
    assert_eq!(
        jalali_to_gregorian(1403, 1, 1).as_deref(),
        Some("2024-03-20")
    );
    assert_eq!(
        jalali_to_gregorian(1404, 1, 1).as_deref(),
        Some("2025-03-21")
    );
    assert_eq!(
        gregorian_to_jalali(2024, 3, 20).as_deref(),
        Some("1403/01/01")
    );
}

#[test]
fn jalali_conversion_round_trips_through_gregorian() {
    for (year, month, day) in [(1402, 12, 29), (1403, 12, 30), (1404, 6, 31), (1399, 7, 1)] {
        let gregorian = jalali_to_gregorian(year, month, day).unwrap();
        let parts: Vec<i32> = gregorian.split('-').map(|p| p.parse().unwrap()).collect();
        let back = gregorian_to_jalali(parts[0], parts[1], parts[2]).unwrap();
        assert_eq!(back, format!("{year:04}/{month:02}/{day:02}"));
    }
}

#[test]
fn invalid_jalali_dates_are_rejected() {
    assert_eq!(jalali_to_gregorian(1403, 13, 1), None);
    assert_eq!(jalali_to_gregorian(1403, 7, 31), None);
    assert_eq!(jalali_to_gregorian(1402, 12, 30), None);
    assert_eq!(jalali_to_gregorian(1403, 0, 1), None);
    assert_eq!(gregorian_to_jalali(2025, 2, 29), None);
    assert_eq!(gregorian_to_jalali(2024, 13, 1), None);
}

#[test]
fn jalali_month_lengths_follow_the_leap_rule() {
    assert_eq!(jalali_days_in_month(1403, 1), 31);
    assert_eq!(jalali_days_in_month(1403, 7), 30);
    assert_eq!(jalali_days_in_month(1403, 12), 30);
    assert_eq!(jalali_days_in_month(1402, 12), 29);
}

#[test]
fn parse_jalali_accepts_slashes_and_dashes() {
    assert_eq!(parse_jalali("1403/01/01").as_deref(), Some("2024-03-20"));
    assert_eq!(parse_jalali("1403-1-1").as_deref(), Some("2024-03-20"));
    assert_eq!(parse_jalali("1403/01"), None);
    assert_eq!(parse_jalali("abcd/01/01"), None);
    assert_eq!(parse_jalali("1403/02/32"), None);
}

#[test]
fn jalali_component_reads_year_month_and_day() {
    assert_eq!(jalali_component("2024-03-20", 0), 1403);
    assert_eq!(jalali_component("2024-03-20", 1), 1);
    assert_eq!(jalali_component("2024-03-20", 2), 1);
    assert_eq!(jalali_component("2024-03-20", -5), 1403);
    assert_eq!(jalali_component("2024-03-20", 3), 0);
    assert_eq!(jalali_component("not a date", 0), 0);
}

#[test]
fn calendar_grid_places_the_first_day_on_its_weekday() {
    // Farvardin 1403 began on a Wednesday (Saturday-first week: column 4).
    assert_eq!(jalali_calendar_day(1403, 1, 4), 1);
    assert_eq!(jalali_calendar_day(1403, 1, 3), 0);
    assert_eq!(jalali_calendar_day(1403, 1, 34), 31);
    assert_eq!(jalali_calendar_day(1403, 1, 35), 0);
}

#[test]
fn timestamps_read_in_iran_standard_time() {
    // 2024-03-19T20:30:00Z is 2024-03-20 00:00 in Tehran.
    assert_eq!(gregorian_date_for_timestamp(1_710_880_200), "2024-03-20");
    assert_eq!(gregorian_date_for_timestamp(1_710_880_199), "2024-03-19");
    assert_eq!(gregorian_date_for_timestamp(0), "1970-01-01");
}

#[test]
fn today_is_a_real_calendar_day() {
    let today = today_gregorian();
    assert_eq!(today.len(), 10);
    assert!(biztrace::database::valid_iso_date(&today));
    let year: i32 = today[..4].parse().unwrap();
    assert!(year >= 2024);
}

#[test]
fn jalali_text_of_a_gregorian_date_reads_back() {
    for date in ["1600-03-20", "1979-02-11", "2024-02-29", "2024-03-20", "2025-03-20", "2100-12-31"] {
        let jalali = jalali_for_gregorian_text(date);
        assert_eq!(parse_jalali_date(&jalali).as_deref(), Some(date), "{date} via {jalali}");
    }
    assert_eq!(jalali_for_gregorian_text("2025-03-20"), "1403/12/30");
}

#[test]
fn dates_outside_the_round_trip_do_not_read_back() {
    // Before 1600-03-20 the conversion has no Jalali day to give.
    assert_eq!(jalali_for_gregorian_text("1600-03-19"), "0979/01/00");
    assert_eq!(parse_jalali_date("0979/01/00"), None);
    // The conversion counts Jalali 1300 as a leap year; the reader's rule does not.
    assert_eq!(jalali_for_gregorian_text("1922-03-21"), "1300/12/30");
    assert_eq!(parse_jalali_date("1300/12/30"), None);
}

#[test]
fn jalali_dates_outside_the_round_trip_do_not_come_back() {
    // The reader's leap rule gives 1398 a 30th of Esfand; the conversion's
    // cycle counts that day as the first of 1399.
    assert_eq!(jalali_to_gregorian(1398, 12, 30).as_deref(), Some("2020-03-20"));
    assert_eq!(jalali_to_gregorian(1399, 1, 1).as_deref(), Some("2020-03-20"));
    assert_eq!(gregorian_to_jalali(2020, 3, 20).as_deref(), Some("1399/01/01"));
    // Before 979 the way back has no Jalali day to give.
    assert_eq!(jalali_to_gregorian(978, 12, 29).as_deref(), Some("1600-03-19"));
    assert_eq!(gregorian_to_jalali(1600, 3, 19).as_deref(), Some("0979/01/00"));
}
