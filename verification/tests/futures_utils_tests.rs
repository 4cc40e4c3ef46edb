use algotrading::calendar::CivilDate;
use algotrading::futures_utils::{
    calculate_business_days_before, front_month_contract_on, get_front_month_contract,
    get_last_day_of_month, get_monthly_expiry, get_monthly_expiry_end_of_month,
    get_quarterly_expiry, get_third_friday, is_leap_year, ContractMonth, FuturesError,
};
use chrono::{Datelike, Local, NaiveDate};

fn date(year: i32, month: u32, day: u32) -> CivilDate {
    CivilDate { year, month, day }
}

#[test]
fn test_contract_month_conversion() {
    assert_eq!(ContractMonth::March.code(), 'H');
    assert_eq!(ContractMonth::December.code(), 'Z');
    assert_eq!(ContractMonth::from_month(3).unwrap(), ContractMonth::March);
    assert_eq!(ContractMonth::June.to_month(), 6);
}

#[test]
fn test_third_friday() {
    assert_eq!(get_third_friday(2025, 3), date(2025, 3, 21));
    assert_eq!(get_third_friday(2025, 6), date(2025, 6, 20));
    assert_eq!(get_third_friday(2025, 9), date(2025, 9, 19));
    assert_eq!(get_third_friday(2025, 12), date(2025, 12, 19));
}

#[test]
fn test_get_front_month_contract() {
    let (expiry, month) = get_front_month_contract("ES").unwrap();
    assert_eq!(expiry.len(), 8);
    assert_eq!(month.len(), 6);
    let today = Local::now().date_naive();
    let expiry_date = NaiveDate::parse_from_str(&expiry, "%Y%m%d").unwrap();
    assert!(expiry_date > today, "Expiry date should be in the future");
    let (nq_expiry, nq_month) = get_front_month_contract("NQ").unwrap();
    assert_eq!(nq_expiry.len(), 8);
    assert_eq!(nq_month.len(), 6);
}

#[test]
fn contract_month_round_trip_for_every_month() {
    let codes = ['F', 'G', 'H', 'J', 'K', 'M', 'N', 'Q', 'U', 'V', 'X', 'Z'];
    for m in 1..=12u32 {
        let c = ContractMonth::from_month(m).unwrap();
        assert_eq!(c.to_month(), m);
        assert_eq!(ContractMonth::from_month(c.to_month()), Ok(c));
        assert_eq!(c.code(), codes[(m - 1) as usize]);
    }
}

#[test]
fn contract_month_rejects_out_of_range_numbers() {
    assert_eq!(ContractMonth::from_month(0), Err(FuturesError::InvalidMonth(0)));
    assert_eq!(ContractMonth::from_month(13), Err(FuturesError::InvalidMonth(13)));
}

#[test]
fn leap_years_follow_the_gregorian_rule() {
    assert!(is_leap_year(2024));
    assert!(!is_leap_year(2025));
    assert!(!is_leap_year(1900));
    assert!(is_leap_year(2000));
    assert!(is_leap_year(-4));
    assert!(!is_leap_year(-1));
}

#[test]
fn last_day_of_month_covers_every_month() {
    let lengths = [31, 28, 31, 30, 31, 30, 31, 31, 30, 31, 30, 31];
    for m in 1..=12u32 {
        assert_eq!(get_last_day_of_month(2025, m), lengths[(m - 1) as usize]);
    }
    assert_eq!(get_last_day_of_month(2024, 2), 29);
    assert_eq!(get_last_day_of_month(2100, 2), 28);
    assert_eq!(get_last_day_of_month(2025, 13), 30);
}

#[test]
fn third_friday_matches_chrono_for_many_months() {
    for year in [1600, 1899, 1900, 1970, 1999, 2000, 2024, 2025, 2100, 2400] {
        for month in 1..=12u32 {
            let d = get_third_friday(year, month);
            let nd = NaiveDate::from_ymd_opt(d.year, d.month, d.day).unwrap();
            assert_eq!(nd.weekday(), chrono::Weekday::Fri);
            assert!(d.day >= 15 && d.day <= 21);
            assert_eq!((d.year, d.month), (year, month));
        }
    }
}

#[test]
fn business_days_skip_weekends() {
    assert_eq!(calculate_business_days_before(2025, 3, 25, 3), Some(date(2025, 3, 20)));
    assert_eq!(calculate_business_days_before(2025, 3, 3, 1), Some(date(2025, 2, 28)));
    assert_eq!(calculate_business_days_before(2025, 3, 1, 2), Some(date(2025, 2, 27)));
    assert_eq!(calculate_business_days_before(2025, 1, 1, 1), Some(date(2024, 12, 31)));
    assert_eq!(calculate_business_days_before(2024, 3, 1, 5), Some(date(2024, 2, 23)));
    assert_eq!(calculate_business_days_before(2025, 3, 9, 0), Some(date(2025, 3, 9)));
}

#[test]
fn business_days_of_a_missing_date_is_none() {
    assert_eq!(calculate_business_days_before(2025, 2, 30, 3), None);
    assert_eq!(calculate_business_days_before(2025, 13, 1, 3), None);
}

#[test]
fn quarterly_expiry_skips_the_current_month() {
    assert_eq!(get_quarterly_expiry(date(2025, 3, 10)), (2025, 6, date(2025, 6, 20)));
    assert_eq!(get_quarterly_expiry(date(2025, 1, 2)), (2025, 3, date(2025, 3, 21)));
    assert_eq!(get_quarterly_expiry(date(2025, 12, 5)), (2026, 3, date(2026, 3, 20)));
}

#[test]
fn crude_oil_expiry_is_three_business_days_before_the_25th() {
    assert_eq!(get_monthly_expiry(date(2025, 3, 10), 25, 3), (2025, 3, date(2025, 3, 20)));
    assert_eq!(get_monthly_expiry(date(2025, 3, 22), 25, 3), (2025, 4, date(2025, 4, 22)));
}

#[test]
fn gold_expiry_is_three_business_days_before_month_end() {
    assert_eq!(get_monthly_expiry_end_of_month(date(2025, 3, 10), 3), (2025, 3, date(2025, 3, 26)));
    assert_eq!(get_monthly_expiry_end_of_month(date(2025, 3, 27), 3), (2025, 4, date(2025, 4, 25)));
}

#[test]
fn front_month_texts_per_symbol() {
    let today = date(2025, 3, 10);
    assert_eq!(
        front_month_contract_on("ES", today),
        ("20250620".to_string(), "202506".to_string())
    );
    assert_eq!(
        front_month_contract_on("CL", today),
        ("20250320".to_string(), "202503".to_string())
    );
    assert_eq!(
        front_month_contract_on("GC", today),
        ("20250326".to_string(), "202503".to_string())
    );
    assert_eq!(
        front_month_contract_on("ZB", date(2025, 11, 30)),
        ("20251219".to_string(), "202512".to_string())
    );
}

#[test]
fn front_month_expiry_starts_with_contract_month() {
    for symbol in ["ES", "NQ", "CL", "GC", "ZN"] {
        let (expiry, month) = get_front_month_contract(symbol).unwrap();
        assert!(expiry.starts_with(&month));
        let today = Local::now().date_naive();
        let expiry_date = NaiveDate::parse_from_str(&expiry, "%Y%m%d").unwrap();
        assert!(expiry_date > today);
    }
}

#[test]
fn business_day_results_are_weekdays_before_the_start() {
    for (y, m, d) in [(2025, 3, 25), (2025, 3, 3), (2025, 3, 1), (2025, 1, 1), (2024, 3, 1), (2025, 6, 30)] {
        for n in 1..=6u32 {
            let r = calculate_business_days_before(y, m, d, n).unwrap();
            let nd = NaiveDate::from_ymd_opt(r.year, r.month, r.day).unwrap();
            assert!(nd.weekday().num_days_from_monday() < 5);
            assert!(nd < NaiveDate::from_ymd_opt(y, m, d).unwrap());
        }
    }
}

#[test]
fn quarterly_texts_keep_their_lengths_at_the_four_place_limits() {
    for (today, year) in [(date(9999, 10, 1), "9999"), (date(9998, 12, 20), "9999"), (date(-999, 2, 1), "-999")] {
        let (expiry, month) = front_month_contract_on("NQ", today);
        assert_eq!(expiry.len(), 8);
        assert_eq!(month.len(), 6);
        assert!(expiry.starts_with(&month));
        assert!(month.starts_with(year));
        let suffix = &month[4..];
        assert!(["03", "06", "09", "12"].contains(&suffix));
        let day: u32 = expiry[6..].parse().unwrap();
        assert!((15..=21).contains(&day));
    }
    assert_eq!(front_month_contract_on("ES", date(-5, 12, 1)).1, "-00403");
    assert_eq!(front_month_contract_on("ES", date(10000, 1, 1)).1, "1000003");
}
