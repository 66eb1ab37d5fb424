use system_world::args::{parse_source_date_epoch, FontArgs, Input, PackageArgs, ProcessArgs,
    WorldArgs};
use system_world::date::{convert_datetime, datetime_at, Datetime};
use system_world::world::SystemWorld;

fn world_with_clock(creation_timestamp: Option<i64>) -> SystemWorld {
    let args = WorldArgs {
        root: Some(".".to_owned()),
        inputs: Vec::new(),
        font: FontArgs { font_paths: Vec::new(), ignore_system_fonts: false },
        package: PackageArgs::default(),
        creation_timestamp,
    };
    let process = ProcessArgs { jobs: None, features: Vec::new() };
    SystemWorld::new(&Input::Stdin, &args, &process).unwrap()
}

fn ymd(year: i64, month: u8, day: u8) -> Datetime {
    Datetime { year, month, day, hour: 0, minute: 0, second: 0 }
}

#[test]
fn epoch_is_new_years_day_1970() {
    assert_eq!(
        datetime_at(0).unwrap(),
        Datetime { year: 1970, month: 1, day: 1, hour: 0, minute: 0, second: 0 },
    );
}

#[test]
fn last_second_of_a_day() {
    assert_eq!(
        datetime_at(86399).unwrap(),
        Datetime { year: 1970, month: 1, day: 1, hour: 23, minute: 59, second: 59 },
    );
    assert_eq!(
        datetime_at(86400).unwrap(),
        Datetime { year: 1970, month: 1, day: 2, hour: 0, minute: 0, second: 0 },
    );
}

#[test]
fn leap_day_of_2000() {
    assert_eq!(
        datetime_at(951782400).unwrap(),
        Datetime { year: 2000, month: 2, day: 29, hour: 0, minute: 0, second: 0 },
    );
    assert_eq!(
        datetime_at(951868799).unwrap(),
        Datetime { year: 2000, month: 2, day: 29, hour: 23, minute: 59, second: 59 },
    );
}

#[test]
fn dates_before_the_epoch() {
    assert_eq!(
        datetime_at(-1).unwrap(),
        Datetime { year: 1969, month: 12, day: 31, hour: 23, minute: 59, second: 59 },
    );
    assert_eq!(
        datetime_at(-62135596800).unwrap(),
        Datetime { year: 1, month: 1, day: 1, hour: 0, minute: 0, second: 0 },
    );
}

#[test]
fn end_of_supported_years() {
    assert_eq!(
        datetime_at(253402300799).unwrap(),
        Datetime { year: 9999, month: 12, day: 31, hour: 23, minute: 59, second: 59 },
    );
    assert!(datetime_at(253402300800).is_none());
}

#[test]
fn offsets_shift_the_calendar_day() {
    assert_eq!(
        convert_datetime(1700000000, 0).unwrap(),
        Datetime { year: 2023, month: 11, day: 14, hour: 22, minute: 13, second: 20 },
    );
    assert_eq!(
        convert_datetime(1700000000, 5 * 3600).unwrap(),
        Datetime { year: 2023, month: 11, day: 15, hour: 3, minute: 13, second: 20 },
    );
}

#[test]
fn fixed_clock_returns_the_same_date_every_time() {
    let mut w = world_with_clock(Some(951782400));
    let first = w.today(Some(0)).unwrap();
    let second = w.today(Some(0)).unwrap();
    assert_eq!(first, ymd(2000, 2, 29));
    assert_eq!(second, first);
    // Still the same after a cycle reset: the timestamp is fixed.
    w.reset();
    assert_eq!(w.today(Some(0)).unwrap(), first);
}

#[test]
fn fixed_clock_honors_hour_offsets() {
    let mut w = world_with_clock(Some(86399));
    assert_eq!(w.today(Some(0)).unwrap(), ymd(1970, 1, 1));
    assert_eq!(w.today(Some(1)).unwrap(), ymd(1970, 1, 2));
    let mut before_noon = world_with_clock(Some(3600));
    assert_eq!(before_noon.today(Some(-2)).unwrap(), ymd(1969, 12, 31));
    assert_eq!(before_noon.today(Some(23)).unwrap(), ymd(1970, 1, 2));
}

#[test]
fn offset_of_a_whole_day_or_more_yields_nothing() {
    // A time zone offset is strictly less than one whole day.
    let mut w = world_with_clock(Some(0));
    assert!(w.today(Some(24)).is_none());
    assert!(w.today(Some(-24)).is_none());
    assert!(w.today(Some(1000000)).is_none());
    assert!(w.today(Some(-1000000)).is_none());
}

#[test]
fn lazy_clock_is_stable_within_a_cycle() {
    let mut w = world_with_clock(None);
    let first = w.today(None);
    let second = w.today(None);
    assert!(first.is_some());
    assert_eq!(second, first);
}

#[test]
fn parse_source_date_epoch_accepts_decimal_seconds() {
    assert_eq!(parse_source_date_epoch("951782400").unwrap(), 951782400);
    assert_eq!(parse_source_date_epoch("-1").unwrap(), -1);
    assert_eq!(parse_source_date_epoch("+42").unwrap(), 42);
}

#[test]
fn parse_source_date_epoch_rejects_non_numbers() {
    assert_eq!(
        parse_source_date_epoch("yesterday").unwrap_err(),
        "timestamp must be decimal integer",
    );
    assert_eq!(parse_source_date_epoch("").unwrap_err(), "timestamp must be decimal integer");
    assert_eq!(
        parse_source_date_epoch("99999999999999999999").unwrap_err(),
        "timestamp must be decimal integer",
    );
}

#[test]
fn parse_source_date_epoch_rejects_far_timestamps() {
    assert_eq!(
        parse_source_date_epoch("300000000000").unwrap_err(),
        "timestamp out of range",
    );
}
