use sundries::chrono_utils::NaiveDate;

#[test]
fn t1() {
    let a = NaiveDate::from_ymd(2023, 5, 5);
    let b = NaiveDate::from_ymd(2024, 1, 1);
    let c = NaiveDate::from_ymd(2024, 1, 5);
    assert_eq!(a.monthly_after(b), c);
}

#[test]
fn t2() {
    let a = NaiveDate::from_ymd(2023, 5, 1);
    let b = NaiveDate::from_ymd(2024, 1, 5);
    let c = NaiveDate::from_ymd(2024, 2, 1);
    assert_eq!(a.monthly_after(b), c);
}

#[test]
fn t3() {
    let a = NaiveDate::from_ymd(2023, 8, 31);
    let b = NaiveDate::from_ymd(2024, 2, 1);
    let c = NaiveDate::from_ymd(2024, 2, 29);
    assert_eq!(a.monthly_after(b), c);
}

#[test]
fn t4() {
    let a = NaiveDate::from_ymd(2022, 8, 31);
    let b = NaiveDate::from_ymd(2023, 2, 1);
    let c = NaiveDate::from_ymd(2023, 2, 28);
    assert_eq!(a.monthly_after(b), c);
}

#[test]
fn t5() {
    let a = NaiveDate::from_ymd(2023, 8, 31);
    let b = NaiveDate::from_ymd(2024, 8, 31);
    let c = NaiveDate::from_ymd(2024, 9, 30);
    assert_eq!(a.monthly_after(b), c);
}

#[test]
fn t6() {
    let a = NaiveDate::from_ymd(2023, 9, 1);
    let b = NaiveDate::from_ymd(2024, 9, 1);
    let c = NaiveDate::from_ymd(2024, 10, 1);
    assert_eq!(a.monthly_after(b), c);
}

#[test]
fn t7() {
    let a = NaiveDate::from_ymd(2023, 9, 1);
    let b = NaiveDate::from_ymd(2024, 8, 31);
    let c = NaiveDate::from_ymd(2024, 9, 1);
    assert_eq!(a.monthly_after(b), c);
}

#[test]
fn t8() {
    let a = NaiveDate::from_ymd(2023, 9, 15);
    let b = NaiveDate::from_ymd(2024, 12, 15);
    let c = NaiveDate::from_ymd(2025, 1, 15);
    assert_eq!(a.monthly_after(b), c);
}

#[test]
fn leap_years() {
    assert!(NaiveDate::is_leap_year(2024));
    assert!(!NaiveDate::is_leap_year(2023));
    assert!(!NaiveDate::is_leap_year(1900));
    assert!(NaiveDate::is_leap_year(2000));
    assert_eq!(NaiveDate::days_in_month(2024, 2), 29);
    assert_eq!(NaiveDate::days_in_month(2023, 2), 28);
    assert_eq!(NaiveDate::days_in_month(2023, 9), 30);
    assert_eq!(NaiveDate::days_in_month(2023, 12), 31);
}

#[test]
fn december_rolls_into_the_next_year() {
    let a = NaiveDate::from_ymd(2023, 1, 10);
    let b = NaiveDate::from_ymd(2024, 12, 31);
    let c = NaiveDate::from_ymd(2025, 1, 10);
    assert_eq!(a.monthly_after(b), c);
}
