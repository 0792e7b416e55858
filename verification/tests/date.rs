use blog_content::date::{format_date, PostDate};

#[test]
fn from_ymd_takes_the_days_of_the_calendar() {
    assert!(PostDate::from_ymd(2024, 2, 29).is_some());
    assert!(PostDate::from_ymd(2023, 2, 29).is_none());
    assert!(PostDate::from_ymd(1900, 2, 29).is_none());
    assert!(PostDate::from_ymd(2000, 2, 29).is_some());
    assert!(PostDate::from_ymd(-4, 2, 29).is_some());
    assert!(PostDate::from_ymd(2023, 4, 31).is_none());
    assert!(PostDate::from_ymd(2023, 4, 30).is_some());
    assert!(PostDate::from_ymd(2023, 12, 31).is_some());
    assert!(PostDate::from_ymd(2023, 13, 1).is_none());
    assert!(PostDate::from_ymd(2023, 0, 1).is_none());
    assert!(PostDate::from_ymd(2023, 1, 0).is_none());
    assert!(PostDate::from_ymd(2023, 1, 32).is_none());
}

#[test]
fn from_ymd_keeps_to_the_years_that_dates_can_have() {
    assert!(PostDate::from_ymd(262142, 12, 31).is_some());
    assert!(PostDate::from_ymd(262143, 1, 1).is_none());
    assert!(PostDate::from_ymd(-262143, 1, 1).is_some());
    assert!(PostDate::from_ymd(-262144, 12, 31).is_none());
    assert_eq!(
        chrono::NaiveDate::from_ymd_opt(262142, 12, 31),
        Some(chrono::NaiveDate::MAX)
    );
    assert_eq!(
        chrono::NaiveDate::from_ymd_opt(-262143, 1, 1),
        Some(chrono::NaiveDate::MIN)
    );
}

#[test]
fn from_ymd_agrees_with_the_calendar_of_chrono() {
    for year in [-401, -400, -100, -4, -1, 0, 1, 4, 100, 400, 1900, 2000, 2023, 2024, 2100] {
        for month in 0..14u32 {
            for day in 0..33u32 {
                assert_eq!(
                    PostDate::from_ymd(year, month, day).is_some(),
                    chrono::NaiveDate::from_ymd_opt(year, month, day).is_some(),
                    "{year}-{month}-{day}"
                );
            }
        }
    }
}

#[test]
fn date_gives_back_its_parts() {
    let d = PostDate::from_ymd(2024, 7, 8).unwrap();
    assert_eq!((d.year(), d.month(), d.day()), (2024, 7, 8));
}

#[test]
fn later_than_compares_year_then_month_then_day() {
    let d = |y, m, day| PostDate::from_ymd(y, m, day).unwrap();
    assert!(d(2024, 1, 1).later_than(&d(2023, 12, 31)));
    assert!(!d(2023, 12, 31).later_than(&d(2024, 1, 1)));
    assert!(d(2024, 3, 1).later_than(&d(2024, 2, 29)));
    assert!(!d(2024, 2, 29).later_than(&d(2024, 3, 1)));
    assert!(d(2024, 3, 2).later_than(&d(2024, 3, 1)));
    assert!(!d(2024, 3, 1).later_than(&d(2024, 3, 2)));
    assert!(!d(2024, 3, 1).later_than(&d(2024, 3, 1)));
    assert!(d(1, 1, 1).later_than(&d(-1, 12, 31)));
}

#[test]
fn formats_long_date() {
    assert_eq!(format_date(PostDate::from_ymd(2024, 1, 5)), "January  5, 2024");
    assert_eq!(format_date(PostDate::from_ymd(2001, 7, 8)), "July  8, 2001");
    assert_eq!(format_date(PostDate::from_ymd(1999, 12, 31)), "December 31, 1999");
    assert_eq!(format_date(PostDate::from_ymd(2020, 2, 10)), "February 10, 2020");
}

#[test]
fn formats_every_month_by_name() {
    let names = [
        "January", "February", "March", "April", "May", "June", "July", "August", "September",
        "October", "November", "December",
    ];
    for (i, name) in names.iter().enumerate() {
        let date = PostDate::from_ymd(2022, i as u32 + 1, 20);
        assert_eq!(format_date(date), format!("{name} 20, 2022"));
    }
}

#[test]
fn formats_years_outside_four_digits() {
    assert_eq!(format_date(PostDate::from_ymd(0, 3, 1)), "March  1, 0000");
    assert_eq!(format_date(PostDate::from_ymd(5, 3, 1)), "March  1, 0005");
    assert_eq!(format_date(PostDate::from_ymd(45, 3, 1)), "March  1, 0045");
    assert_eq!(format_date(PostDate::from_ymd(987, 3, 1)), "March  1, 0987");
    assert_eq!(format_date(PostDate::from_ymd(9999, 3, 1)), "March  1, 9999");
    assert_eq!(format_date(PostDate::from_ymd(10000, 3, 1)), "March  1, +10000");
    assert_eq!(format_date(PostDate::from_ymd(262142, 3, 1)), "March  1, +262142");
    assert_eq!(format_date(PostDate::from_ymd(-1, 3, 1)), "March  1, -0001");
    assert_eq!(format_date(PostDate::from_ymd(-45, 3, 1)), "March  1, -0045");
    assert_eq!(format_date(PostDate::from_ymd(-12345, 3, 1)), "March  1, -12345");
}

#[test]
fn formats_missing_date() {
    assert_eq!(format_date(None), "Unknown date");
}
