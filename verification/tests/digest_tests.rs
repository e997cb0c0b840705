use drip_mailer::date::Date;
use drip_mailer::digest::{digest_body, digest_subject};

#[test]
fn subject_names_day_and_success() {
    let today = Date::from_ymd(2024, 1, 31).unwrap();
    assert_eq!(
        digest_subject(&today, true),
        "Velohaven Mailer am 2024-01-31: Erfolg"
    );
}

#[test]
fn subject_names_day_and_failure() {
    let today = Date::from_ymd(2024, 2, 1).unwrap();
    assert_eq!(
        digest_subject(&today, false),
        "Velohaven Mailer am 2024-02-01: Fehler"
    );
}

#[test]
fn body_reports_the_count() {
    assert_eq!(
        digest_body(&Ok(7)),
        "Erfolg: Es wurden heute 7 Emails versendet."
    );
    assert_eq!(
        digest_body(&Ok(0)),
        "Erfolg: Es wurden heute 0 Emails versendet."
    );
    assert_eq!(
        digest_body(&Ok(1234)),
        "Erfolg: Es wurden heute 1234 Emails versendet."
    );
}

#[test]
fn body_reports_the_error() {
    assert_eq!(
        digest_body(&Err("Failed to get members".to_string())),
        "Fehler: Failed to get members"
    );
}
