use lessons::calendar::{Date, DateTime, Time};
use lessons::repeat::{
    are_valid, is_range_valid, is_within, DailyRepeat, MonthlyRepeat, Rule, SingleOccurrence,
    WeekDay, WeeklyRepeat,
};

fn date(year: i32, month: u8, day: u8) -> Date {
    Date::new(year, month, day).unwrap()
}

fn nine() -> Time {
    Time::new(9, 0, 0).unwrap()
}

fn weekly(start: Date, end: Option<Date>, week_day: WeekDay, every: i32) -> WeeklyRepeat {
    WeeklyRepeat { start_date: start, end_date: end, week_day, every, time: nine() }
}

fn monthly(start: Date, end: Option<Date>, every: i32) -> MonthlyRepeat {
    MonthlyRepeat {
        start_date: start,
        end_date: end,
        time: DateTime { date: start, time: nine() },
        every,
    }
}

#[test]
fn week_days_and_their_numbers() {
    let days = [
        WeekDay::Monday,
        WeekDay::Tuesday,
        WeekDay::Wednesday,
        WeekDay::Thursday,
        WeekDay::Friday,
        WeekDay::Saturday,
        WeekDay::Sunday,
    ];
    for (i, day) in days.iter().enumerate() {
        assert_eq!(day.to_number(), i as i16 + 1);
        assert_eq!(WeekDay::from_number(i as i16 + 1), Some(*day));
    }
    assert_eq!(WeekDay::from_number(0), None);
    assert_eq!(WeekDay::from_number(8), None);
    assert_eq!(WeekDay::from_number(-1), None);
}

#[test]
fn single_occurrence_matches_its_day_only() {
    let single = SingleOccurrence {
        occurs_at: DateTime { date: date(2024, 5, 17), time: Time::new(23, 59, 59).unwrap() },
    };
    assert!(single.matches_date(&date(2024, 5, 17)));
    assert!(!single.matches_date(&date(2024, 5, 16)));
    assert!(!single.matches_date(&date(2024, 5, 18)));
    assert!(!single.matches_date(&date(2023, 5, 17)));
    assert!(single.is_valid());
}

#[test]
fn daily_repeat_matches_every_day_of_its_range() {
    let bounded = DailyRepeat {
        start_date: date(2024, 1, 10),
        end_date: Some(date(2024, 1, 12)),
        time: nine(),
    };
    assert!(!bounded.matches_date(&date(2024, 1, 9)));
    assert!(bounded.matches_date(&date(2024, 1, 10)));
    assert!(bounded.matches_date(&date(2024, 1, 11)));
    assert!(bounded.matches_date(&date(2024, 1, 12)));
    assert!(!bounded.matches_date(&date(2024, 1, 13)));
    let open = DailyRepeat { start_date: date(2024, 1, 10), end_date: None, time: nine() };
    assert!(!open.matches_date(&date(2024, 1, 9)));
    assert!(open.matches_date(&date(2024, 1, 10)));
    assert!(open.matches_date(&date(9999, 12, 31)));
    let backwards = DailyRepeat {
        start_date: date(2024, 1, 12),
        end_date: Some(date(2024, 1, 10)),
        time: nine(),
    };
    assert!(!backwards.matches_date(&date(2024, 1, 11)));
}

#[test]
fn weekly_repeat_every_second_monday() {
    let rule = weekly(date(2024, 1, 1), None, WeekDay::Monday, 2);
    assert!(rule.matches_date(&date(2024, 1, 1)));
    assert!(rule.matches_date(&date(2024, 1, 15)));
    assert!(rule.matches_date(&date(2024, 1, 29)));
    assert!(!rule.matches_date(&date(2024, 1, 8)));
    assert!(!rule.matches_date(&date(2024, 1, 22)));
    assert!(!rule.matches_date(&date(2024, 1, 2)));
    assert!(!rule.matches_date(&date(2024, 1, 16)));
    assert!(!rule.matches_date(&date(2023, 12, 18)));
}

#[test]
fn weekly_repeat_respects_its_range_and_day() {
    let rule = weekly(date(2024, 1, 3), Some(date(2024, 1, 22)), WeekDay::Monday, 1);
    assert!(!rule.matches_date(&date(2024, 1, 1)));
    assert!(rule.matches_date(&date(2024, 1, 8)));
    assert!(rule.matches_date(&date(2024, 1, 15)));
    assert!(rule.matches_date(&date(2024, 1, 22)));
    assert!(!rule.matches_date(&date(2024, 1, 29)));
    assert!(!rule.matches_date(&date(2024, 1, 10)));
    // A start in the middle of a week: whole weeks are counted from the start.
    let second = weekly(date(2024, 1, 3), None, WeekDay::Monday, 2);
    assert!(second.matches_date(&date(2024, 1, 8)));
    assert!(!second.matches_date(&date(2024, 1, 15)));
    assert!(second.matches_date(&date(2024, 1, 22)));
}

#[test]
fn monthly_repeat_on_the_thirty_first() {
    let rule = monthly(date(2024, 1, 31), None, 1);
    assert!(rule.matches_date(&date(2024, 1, 31)));
    assert!(rule.matches_date(&date(2024, 3, 31)));
    assert!(rule.matches_date(&date(2024, 5, 31)));
    assert!(rule.matches_date(&date(2024, 12, 31)));
    assert!(rule.matches_date(&date(2025, 1, 31)));
    // Months without a 31st have no occurrence.
    assert!(!rule.matches_date(&date(2024, 2, 29)));
    assert!(!rule.matches_date(&date(2024, 4, 30)));
    assert!(!rule.matches_date(&date(2024, 3, 1)));
    assert!(!rule.matches_date(&date(2024, 3, 30)));
    assert!(!rule.matches_date(&date(2023, 12, 31)));
}

#[test]
fn monthly_repeat_every_few_months() {
    let rule = monthly(date(2024, 1, 31), Some(date(2024, 10, 31)), 2);
    assert!(rule.matches_date(&date(2024, 1, 31)));
    assert!(rule.matches_date(&date(2024, 3, 31)));
    assert!(rule.matches_date(&date(2024, 5, 31)));
    assert!(rule.matches_date(&date(2024, 7, 31)));
    assert!(!rule.matches_date(&date(2024, 8, 31)));
    assert!(!rule.matches_date(&date(2024, 10, 31)));
    assert!(!rule.matches_date(&date(2024, 12, 31)));
    let yearly = monthly(date(2023, 11, 15), None, 12);
    assert!(yearly.matches_date(&date(2024, 11, 15)));
    assert!(!yearly.matches_date(&date(2024, 10, 15)));
    assert!(!yearly.matches_date(&date(2024, 5, 15)));
    let quarterly = monthly(date(2023, 11, 15), None, 3);
    assert!(quarterly.matches_date(&date(2024, 2, 15)));
    assert!(!quarterly.matches_date(&date(2024, 1, 15)));
}

#[test]
fn malformed_rules_are_not_valid_and_never_match() {
    let zero = weekly(date(2024, 1, 1), None, WeekDay::Monday, 0);
    assert!(!zero.is_valid());
    assert!(!zero.matches_date(&date(2024, 1, 1)));
    let negative = monthly(date(2024, 1, 31), None, -1);
    assert!(!negative.is_valid());
    assert!(!negative.matches_date(&date(2024, 1, 31)));
    assert!(weekly(date(2024, 1, 1), None, WeekDay::Monday, 1).is_valid());
    assert!(monthly(date(2024, 1, 31), None, i32::MAX).is_valid());
    let no_such_day = Date { year: 2023, month: 2, day: 29 };
    assert!(!DailyRepeat { start_date: no_such_day, end_date: None, time: nine() }.is_valid());
    assert!(!DailyRepeat {
        start_date: date(2023, 2, 28),
        end_date: Some(no_such_day),
        time: nine()
    }
    .is_valid());
    assert!(!DailyRepeat {
        start_date: date(2023, 2, 28),
        end_date: None,
        time: Time { hour: 24, minute: 0, second: 0, nanosecond: 0 }
    }
    .is_valid());
    assert!(!SingleOccurrence { occurs_at: DateTime { date: no_such_day, time: nine() } }
        .is_valid());
    assert!(!MonthlyRepeat {
        start_date: date(2024, 1, 31),
        end_date: None,
        time: DateTime { date: no_such_day, time: nine() },
        every: 1
    }
    .is_valid());
}

#[test]
fn lists_of_rules_are_valid_when_each_rule_is() {
    let good = weekly(date(2024, 1, 1), None, WeekDay::Monday, 1);
    let bad = weekly(date(2024, 1, 1), None, WeekDay::Monday, 0);
    assert!(are_valid::<WeeklyRepeat>(&vec![]));
    assert!(are_valid(&vec![good, good]));
    assert!(!are_valid(&vec![good, bad]));
    assert!(!are_valid(&vec![bad, good]));
}

#[test]
fn ranges() {
    let start = date(2024, 1, 10);
    assert!(is_within(&start, &None, &date(2024, 1, 10)));
    assert!(!is_within(&start, &None, &date(2024, 1, 9)));
    assert!(is_within(&start, &Some(date(2024, 1, 10)), &date(2024, 1, 10)));
    assert!(!is_within(&start, &Some(date(2024, 1, 10)), &date(2024, 1, 11)));
    assert!(is_range_valid(&start, &None));
    assert!(is_range_valid(&start, &Some(date(2020, 1, 1))));
    assert!(!is_range_valid(&Date { year: 2024, month: 0, day: 1 }, &None));
}
