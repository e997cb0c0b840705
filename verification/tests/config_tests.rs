use drip_mailer::config::{Args, Cleverreach, Config, Email, NextcloudConfig};
use drip_mailer::date::Date;
use drip_mailer::resolver::Mode;

fn config() -> Config {
    Config {
        min_date: Date::from_ymd(2024, 1, 1).unwrap(),
        now_date: None,
        cleverreach: Cleverreach {
            client_id: "id".to_string(),
            client_secret: "secret".to_string(),
            group_id: "42".to_string(),
        },
        email: Email {
            from: "mailer@x.de".to_string(),
            to_overwrite: None,
            digest: vec!["ops@x.de".to_string()],
            host: "smtp.x.de".to_string(),
            port: Some(465),
            username: "mailer".to_string(),
            password: "SECRET-REDACTED".to_string(),
        },
        nextcloud: NextcloudConfig { server: "cloud.x.de".to_string(), username: "share".to_string() },
    }
}

#[test]
fn run_context_normal_mode() {
    let today = Date::from_ymd(2024, 1, 31).unwrap();
    let args = Args { send_mail_to_oldies: None, dry_run: false };
    let ctx = config().run_context(today, &args);
    assert_eq!(ctx.today.days, today.days);
    assert_eq!(ctx.min_enrollment_floor.days, Date::from_ymd(2024, 1, 1).unwrap().days);
    assert!(matches!(ctx.mode, Mode::Normal));
}

#[test]
fn run_context_catchup_mode() {
    let today = Date::from_ymd(2024, 1, 31).unwrap();
    let args = Args { send_mail_to_oldies: Some("30d-Welcome".to_string()), dry_run: true };
    let ctx = config().run_context(today, &args);
    match ctx.mode {
        Mode::CatchUp(name) => assert_eq!(name, "30d-Welcome"),
        Mode::Normal => panic!("expected catch-up mode"),
    }
}
