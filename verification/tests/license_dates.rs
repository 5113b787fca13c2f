use it_management::error::SSHError;
use it_management::license::{
    analyze_expiration_date, day_number, parse_slash_date, software_info_from_license, Date,
    LicenseChecker,
};

fn date(year: i32, month: u8, day: u8) -> Date {
    Date { year, month, day }
}

#[test]
fn one_month_ahead_is_notice() {
    // Expiry 2024-01-01 seen from 2023-12-01: 31 days remaining.
    let status = analyze_expiration_date(&date(2024, 1, 1), &date(2023, 12, 1));
    assert_eq!(status, "[NOTICE] Expires 2024-01-01 [Countdown: 31 days remaining]");
}

#[test]
fn one_month_past_is_expired() {
    // Expiry 2023-11-01 seen from 2023-12-01: November has 30 days, so the
    // license is 30 days overdue.
    let status = analyze_expiration_date(&date(2023, 11, 1), &date(2023, 12, 1));
    assert_eq!(
        status,
        "[EXPIRED] 2023-11-01 (30 days overdue) [Countdown: 30 days overdue]"
    );
}

#[test]
fn band_boundaries() {
    let today = date(2024, 3, 1);
    assert!(analyze_expiration_date(&date(2024, 3, 1), &today).starts_with("[WARNING]"));
    assert!(analyze_expiration_date(&date(2024, 3, 31), &today).starts_with("[WARNING]"));
    assert!(analyze_expiration_date(&date(2024, 4, 1), &today).starts_with("[NOTICE]"));
    assert!(analyze_expiration_date(&date(2024, 5, 30), &today).starts_with("[NOTICE]"));
    assert!(analyze_expiration_date(&date(2024, 5, 31), &today).starts_with("[OK]"));
    assert!(analyze_expiration_date(&date(2024, 2, 29), &today).starts_with("[EXPIRED]"));
}

#[test]
fn day_numbers_respect_leap_years() {
    // 2024 is a leap year: February has 29 days.
    let feb28 = day_number(&date(2024, 2, 28));
    let mar1 = day_number(&date(2024, 3, 1));
    assert_eq!(mar1 - feb28, 2);
    // 2023 is not.
    let feb28_23 = day_number(&date(2023, 2, 28));
    let mar1_23 = day_number(&date(2023, 3, 1));
    assert_eq!(mar1_23 - feb28_23, 1);
    // The epoch.
    assert_eq!(day_number(&date(1970, 1, 1)), 0);
    // Month and year boundaries count one by one.
    assert_eq!(day_number(&date(2024, 1, 1)) - day_number(&date(2023, 12, 31)), 1);
    assert_eq!(day_number(&date(2023, 12, 1)) - day_number(&date(2023, 11, 30)), 1);
}

#[test]
fn slash_dates_parse_and_bad_ones_do_not() {
    let d = parse_slash_date("2024/01/01").expect("a well-formed date parses");
    assert_eq!((d.year, d.month, d.day), (2024, 1, 1));
    assert!(parse_slash_date("2024-01-01").is_none());
    assert!(parse_slash_date("not a date").is_none());
    assert!(parse_slash_date("2023/02/29").is_none());
    assert!(parse_slash_date("").is_none());
}

#[test]
fn license_read_classifies_every_branch() {
    let checker = LicenseChecker::new("mac.local".to_string());
    let today = date(2023, 12, 1);

    let r = checker.assess_license_read(
        &Err(SSHError::Connection("Connection refused".to_string())),
        &today,
    );
    assert_eq!(r.status, "[ERROR] License File Not Found");
    assert_eq!(
        r.error.as_deref(),
        Some("Failed to read license file: Connection Error: Connection refused")
    );

    let r = checker.assess_license_read(&Ok("   \n".to_string()), &today);
    assert_eq!(r.status, "[ERROR] No Expiration Info");

    let r = checker.assess_license_read(&Ok("no separator here".to_string()), &today);
    assert_eq!(r.status, "[ERROR] Invalid License Format");

    let r = checker.assess_license_read(&Ok("//Expires: tomorrow".to_string()), &today);
    assert_eq!(r.status, "[ERROR] Invalid Date Format");

    let r = checker.assess_license_read(&Ok("//Expires: 2024/01/01".to_string()), &today);
    assert_eq!(r.status, "[NOTICE] Expires 2024-01-01 [Countdown: 31 days remaining]");
    assert!(r.error.is_none());
    assert_eq!(r.host, "mac.local");
    assert_eq!(r.debug_log, "//Expires: 2024/01/01");
}

#[test]
fn probe_failure_renders_as_status() {
    let checker = LicenseChecker::new("mac.local".to_string());
    let r = checker.probe_failure(&SSHError::Connection("Connection timed out".to_string()));
    assert_eq!(r.status, "[ERROR] SSH Connection Failed");
    assert_eq!(
        r.error.as_deref(),
        Some("SSH connection error: Connection Error: Connection timed out")
    );
    assert_eq!(
        r.debug_log,
        "SSH connection failed to mac.local\nError: Connection Error: Connection timed out"
    );
}

#[test]
fn parse_license_output_keeps_raw_text() {
    let checker = LicenseChecker::new("mac.local".to_string());
    let info = checker.parse_license_output("  //Expires: 2024/06/30  ");
    assert_eq!(info.status, "//Expires: 2024/06/30");
    let d = info.expiration_date.expect("the date token parses");
    assert_eq!((d.year, d.month, d.day), (2024, 6, 30));

    let info = checker.parse_license_output("garbage");
    assert!(info.expiration_date.is_none());
    assert_eq!(info.status, "garbage");
}

#[test]
fn software_info_carries_the_status() {
    let checker = LicenseChecker::new("mac.local".to_string());
    let r = checker.assess_license_read(&Ok("".to_string()), &date(2023, 12, 1));
    let sw = software_info_from_license(&r);
    assert_eq!(sw.priint_comet_2017_expiry, "[ERROR] No Expiration Info");
}
