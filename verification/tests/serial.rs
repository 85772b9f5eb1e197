use xl::model::{Date, DateSystem, DateTime, Time};
use xl::serial::{
    conversion_on_day, epoch, excel_number_to_date, parse_serial, serial_day_number, text_conversion,
    time_from_millis, DateConversion, Serial,
};

fn convert(text: &str, system: DateSystem) -> DateConversion {
    match parse_serial(text) {
        Some(serial) => excel_number_to_date(serial, &system),
        None => DateConversion::Number,
    }
}

fn date(year: i32, month: u32, day: u32) -> Date {
    Date { year, month, day }
}

fn time(hour: u32, minute: u32, second: u32, millisecond: u32) -> Time {
    Time { hour, minute, second, millisecond }
}

#[test]
fn serials_under_v1900() {
    let s = DateSystem::V1900;
    assert_eq!(convert("1.0", s), DateConversion::Date(date(1900, 1, 1)));
    assert_eq!(convert("1", s), DateConversion::Date(date(1900, 1, 1)));
    assert_eq!(convert("59", s), DateConversion::Date(date(1900, 2, 28)));
    assert_eq!(convert("60.0", s), DateConversion::Date(date(1900, 2, 28)));
    assert_eq!(convert("61.0", s), DateConversion::Date(date(1900, 3, 1)));
    assert_eq!(convert("0.5", s), DateConversion::Time(time(12, 0, 0, 0)));
    assert_eq!(
        convert("44562.25", s),
        DateConversion::DateTime(DateTime { date: date(2022, 1, 1), time: time(6, 0, 0, 0) })
    );
    assert_eq!(convert("0", s), DateConversion::Number);
    assert_eq!(convert("0.0", s), DateConversion::Number);
    assert_eq!(convert("2958465", s), DateConversion::Date(date(9999, 12, 31)));
}

#[test]
fn serials_under_v1904() {
    let s = DateSystem::V1904;
    assert_eq!(convert("0.0", s), DateConversion::Date(date(1904, 1, 1)));
    assert_eq!(convert("0", s), DateConversion::Date(date(1904, 1, 1)));
    assert_eq!(convert("1", s), DateConversion::Date(date(1904, 1, 2)));
    assert_eq!(convert("60", s), DateConversion::Date(date(1904, 3, 1)));
    assert_eq!(convert("0.75", s), DateConversion::Time(time(18, 0, 0, 0)));
    assert_eq!(
        convert("43100.5", s),
        DateConversion::DateTime(DateTime { date: date(2022, 1, 1), time: time(12, 0, 0, 0) })
    );
}

#[test]
fn serials_that_stay_numbers() {
    for system in [DateSystem::V1900, DateSystem::V1904] {
        for text in [
            "-1", "-0.5", "-1e3", "inf", "NaN", "", ".", "e3", ".e3", "1e", "1e+", "1e1001", "1e-1001", "1e3.5",
            "12a", "1.2.3", " 1", "4294967296", "4294967295", "99999999", "1e10", "0x10",
        ] {
            assert_eq!(convert(text, system), DateConversion::Number, "{}", text);
        }
    }
}

#[test]
fn the_text_of_a_serial() {
    assert_eq!(parse_serial("44562.25"), Some(Serial { days: 44562, millis: 21_600_000, fraction: true }));
    assert_eq!(parse_serial("+7"), Some(Serial { days: 7, millis: 0, fraction: false }));
    assert_eq!(parse_serial("7."), Some(Serial { days: 7, millis: 0, fraction: false }));
    assert_eq!(parse_serial("7.000"), Some(Serial { days: 7, millis: 0, fraction: false }));
    assert_eq!(parse_serial(".5"), Some(Serial { days: 0, millis: 43_200_000, fraction: true }));
    assert_eq!(parse_serial("007.5"), Some(Serial { days: 7, millis: 43_200_000, fraction: true }));
    assert_eq!(parse_serial("4294967295"), Some(Serial { days: 4294967295, millis: 0, fraction: false }));
    assert_eq!(parse_serial("4294967296"), None);
    assert_eq!(parse_serial("-7"), None);
    assert_eq!(parse_serial("-0"), None);
    assert_eq!(parse_serial(""), None);
    assert_eq!(parse_serial("+"), None);
    assert_eq!(parse_serial("."), None);
    assert_eq!(parse_serial("7.5x"), None);
    assert_eq!(parse_serial("7,5"), None);
}

#[test]
fn an_exponent_moves_the_point() {
    let serial = |days: u32, millis: u32, fraction: bool| Some(Serial { days, millis, fraction });
    assert_eq!(parse_serial("7e1"), serial(70, 0, false));
    assert_eq!(parse_serial("7E+1"), serial(70, 0, false));
    assert_eq!(parse_serial("7e0"), serial(7, 0, false));
    assert_eq!(parse_serial("7e-0"), serial(7, 0, false));
    assert_eq!(parse_serial("4.456225E4"), serial(44562, 21_600_000, true));
    assert_eq!(parse_serial("4.4562E4"), serial(44562, 0, false));
    assert_eq!(parse_serial("4.4562E6"), serial(4456200, 0, false));
    assert_eq!(parse_serial("12345e-2"), serial(123, 38_880_000, true));
    assert_eq!(parse_serial("5e-1"), serial(0, 43_200_000, true));
    assert_eq!(parse_serial(".5e1"), serial(5, 0, false));
    assert_eq!(parse_serial("+0.05e+1"), serial(0, 43_200_000, true));
    assert_eq!(parse_serial("1.5E-3"), serial(0, 129_600, true));
    assert_eq!(parse_serial("1.1574074074074073E-5"), serial(0, 1000, true));
    assert_eq!(parse_serial("1e-1000"), serial(0, 0, true));
    assert_eq!(parse_serial("0e1000"), serial(0, 0, false));
    assert_eq!(parse_serial("0.000e-1000"), serial(0, 0, false));
    assert_eq!(parse_serial("4294967295e0"), serial(4294967295, 0, false));
    assert_eq!(parse_serial("42949672950e-1"), serial(4294967295, 0, false));
    assert_eq!(parse_serial("0.4294967295e10"), serial(4294967295, 0, false));
    assert_eq!(parse_serial("0.4294967296e10"), None);
    assert_eq!(parse_serial("1e1000"), None);
    assert_eq!(parse_serial("1e1001"), None);
    assert_eq!(parse_serial("1e0001000"), None);
    assert_eq!(parse_serial("1e-1001"), None);
    assert_eq!(parse_serial("1e"), None);
    assert_eq!(parse_serial("1e+"), None);
    assert_eq!(parse_serial("e1"), None);
    assert_eq!(parse_serial(".e1"), None);
    assert_eq!(parse_serial("1e1.0"), None);
    assert_eq!(parse_serial("1e++1"), None);
    assert_eq!(parse_serial("-1e-3"), None);
}

#[test]
fn exponents_under_both_date_systems() {
    assert_eq!(convert("4.456225E4", DateSystem::V1900), convert("44562.25", DateSystem::V1900));
    assert_eq!(convert("1.5E-3", DateSystem::V1900), DateConversion::Time(time(0, 2, 9, 600)));
    assert_eq!(convert("1e3", DateSystem::V1904), DateConversion::Date(date(1906, 9, 27)));
    assert_eq!(convert("0e0", DateSystem::V1904), DateConversion::Date(date(1904, 1, 1)));
    assert_eq!(convert("0e0", DateSystem::V1900), DateConversion::Number);
}

#[test]
fn the_part_of_a_day_is_rounded_to_the_millisecond() {
    let millis = |text: &str| parse_serial(text).unwrap().millis;
    assert_eq!(millis("0.000000001"), 0);
    assert!(parse_serial("0.000000001").unwrap().fraction);
    assert_eq!(millis("0.0000000057"), 0);
    assert_eq!(millis("0.0000000058"), 1);
    assert_eq!(millis("0.00001157407407407407"), 1000);
    assert_eq!(millis("0.999999999"), 86_400_000);
    assert_eq!(millis("0.5000000000000000000000000000000000000000000001"), 43_200_000);
    assert_eq!(millis("0.041666666666666664"), 3_600_000);
    assert_eq!(millis("0.33333333333"), 28_800_000);
}

#[test]
fn a_part_that_rounds_to_a_full_day_moves_to_the_next_day() {
    assert_eq!(
        convert("44562.9999999999", DateSystem::V1900),
        DateConversion::DateTime(DateTime { date: date(2022, 1, 2), time: time(0, 0, 0, 0) })
    );
    assert_eq!(convert("0.9999999999", DateSystem::V1900), DateConversion::Time(time(0, 0, 0, 0)));
}

#[test]
fn the_time_of_milliseconds() {
    assert_eq!(time_from_millis(0), time(0, 0, 0, 0));
    assert_eq!(time_from_millis(86_399_999), time(23, 59, 59, 999));
    assert_eq!(time_from_millis(3_723_004), time(1, 2, 3, 4));
}

#[test]
fn the_epoch_of_a_serial() {
    let whole = |days: u32| Serial { days, millis: 0, fraction: false };
    assert_eq!(epoch(whole(0), &DateSystem::V1900), date(1899, 12, 31));
    assert_eq!(epoch(whole(59), &DateSystem::V1900), date(1899, 12, 31));
    assert_eq!(epoch(whole(60), &DateSystem::V1900), date(1899, 12, 30));
    assert_eq!(epoch(whole(61), &DateSystem::V1900), date(1899, 12, 30));
    assert_eq!(epoch(whole(0), &DateSystem::V1904), date(1904, 1, 1));
    assert_eq!(epoch(whole(60), &DateSystem::V1904), date(1904, 1, 1));
}

#[test]
fn the_day_number_of_a_serial() {
    let serial = |days: u32, millis: u32| Serial { days, millis, fraction: millis != 0 };
    assert_eq!(serial_day_number(serial(0, 0), 693595), Some(693595));
    assert_eq!(serial_day_number(serial(61, 0), 693594), Some(693655));
    assert_eq!(serial_day_number(serial(61, 86_399_999), 693594), Some(693655));
    assert_eq!(serial_day_number(serial(61, 86_400_000), 693594), Some(693656));
    assert_eq!(serial_day_number(serial(2147483647, 0), 0), Some(2147483647));
    assert_eq!(serial_day_number(serial(2147483647, 0), 1), None);
    assert_eq!(serial_day_number(serial(2147483647, 86_400_000), 0), None);
    assert_eq!(serial_day_number(serial(4294967295, 0), -2147483648), Some(2147483647));
    assert_eq!(serial_day_number(serial(0, 0), -5), Some(-5));
}

#[test]
fn the_choice_of_date_time_or_both() {
    let day = Some(date(2000, 2, 29));
    let on = |days: u32, millis: u32, fraction: bool, system, day| {
        conversion_on_day(Serial { days, millis, fraction }, &system, day)
    };
    assert_eq!(on(5, 0, false, DateSystem::V1900, day), DateConversion::Date(date(2000, 2, 29)));
    assert_eq!(on(0, 0, false, DateSystem::V1900, day), DateConversion::Number);
    assert_eq!(on(0, 0, false, DateSystem::V1904, day), DateConversion::Date(date(2000, 2, 29)));
    assert_eq!(on(0, 0, true, DateSystem::V1900, day), DateConversion::Time(time(0, 0, 0, 0)));
    assert_eq!(on(0, 3_723_004, true, DateSystem::V1904, day), DateConversion::Time(time(1, 2, 3, 4)));
    assert_eq!(on(0, 86_400_000, true, DateSystem::V1904, day), DateConversion::Time(time(0, 0, 0, 0)));
    assert_eq!(
        on(5, 3_723_004, true, DateSystem::V1900, day),
        DateConversion::DateTime(DateTime { date: date(2000, 2, 29), time: time(1, 2, 3, 4) })
    );
    for system in [DateSystem::V1900, DateSystem::V1904] {
        assert_eq!(on(5, 0, false, system, None), DateConversion::Number);
        assert_eq!(on(0, 1, true, system, None), DateConversion::Number);
    }
}

#[test]
fn the_conversion_of_a_text() {
    assert_eq!(text_conversion("61", &DateSystem::V1900), DateConversion::Date(date(1900, 3, 1)));
    assert_eq!(text_conversion("x", &DateSystem::V1900), DateConversion::Number);
    assert_eq!(text_conversion("", &DateSystem::V1904), DateConversion::Number);
}
