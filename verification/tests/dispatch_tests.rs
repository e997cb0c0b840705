use drip_mailer::catalog::{NextcloudData, Template};
use drip_mailer::date::Date;
use drip_mailer::dispatch::{plan_sends, DispatchError};
use drip_mailer::duration::parse;
use drip_mailer::members::Member;
use drip_mailer::resolver::{Mode, RunContext};

fn tpl(name: &str, token: &str) -> Template {
    Template {
        body: format!("<p>{}</p>", name),
        name: name.to_string(),
        subject: format!("Subject {}", name),
        duration: parse(token).unwrap(),
    }
}

fn member(email: &str, y: i64, m: i64, d: i64) -> Member {
    Member { email: email.to_string(), added_at: Date::from_ymd(y, m, d).unwrap() }
}

fn normal_ctx() -> RunContext {
    RunContext {
        today: Date::from_ymd(2024, 1, 31).unwrap(),
        min_enrollment_floor: Date::from_ymd(2024, 1, 1).unwrap(),
        mode: Mode::Normal,
    }
}

fn data(unsubscribed: Vec<&str>, templates: Vec<Template>) -> NextcloudData {
    NextcloudData {
        unsubscribed: unsubscribed.into_iter().map(|s| s.to_string()).collect(),
        templates,
    }
}

#[test]
fn due_members_get_one_send_each() {
    let members = vec![member("a@x.de", 2024, 1, 1), member("b@x.de", 2024, 1, 2)];
    let d = data(vec![], vec![tpl("30d-Welcome", "30d")]);
    let plan = plan_sends(&members, &d, &normal_ctx(), &None).unwrap();
    // Only the member enrolled on 2024-01-01 is due on 2024-01-31.
    assert_eq!(plan.len(), 1);
    assert_eq!(plan[0].to, "a@x.de");
    assert_eq!(plan[0].member_email, "a@x.de");
    assert_eq!(plan[0].template_name, "30d-Welcome");
    assert_eq!(plan[0].subject, "Subject 30d-Welcome");
    assert_eq!(plan[0].body, "<p>30d-Welcome</p>");
}

#[test]
fn opted_out_members_get_nothing() {
    let members = vec![member("a@x.de", 2024, 1, 1), member("b@x.de", 2024, 1, 1)];
    let d = data(vec!["a@x.de"], vec![tpl("30d-Welcome", "30d")]);
    let plan = plan_sends(&members, &d, &normal_ctx(), &None).unwrap();
    assert_eq!(plan.len(), 1);
    assert!(plan.iter().all(|p| p.member_email != "a@x.de"));
    assert_eq!(plan[0].member_email, "b@x.de");
}

#[test]
fn override_addresses_every_send() {
    let members = vec![
        member("a@x.de", 2024, 1, 1),
        member("b@x.de", 2024, 1, 1),
        member("opted@x.de", 2024, 1, 1),
    ];
    let d = data(vec!["opted@x.de"], vec![tpl("30d-Welcome", "30d")]);
    let ow = Some("test@example.com".to_string());
    let plan = plan_sends(&members, &d, &normal_ctx(), &ow).unwrap();
    assert_eq!(plan.len(), 2);
    assert!(plan.iter().all(|p| p.to == "test@example.com"));
    assert!(plan.iter().all(|p| p.member_email != "opted@x.de"));
}

#[test]
fn invalid_override_is_refused() {
    let members = vec![member("a@x.de", 2024, 1, 1)];
    let d = data(vec![], vec![tpl("30d-Welcome", "30d")]);
    let ow = Some("not a mailbox".to_string());
    let r = plan_sends(&members, &d, &normal_ctx(), &ow);
    assert!(matches!(r, Err(DispatchError::InvalidOverride)));
}

#[test]
fn unparsable_member_address_is_skipped() {
    let members = vec![member("not a mailbox", 2024, 1, 1), member("ok@x.de", 2024, 1, 1)];
    let d = data(vec![], vec![tpl("30d-Welcome", "30d")]);
    let plan = plan_sends(&members, &d, &normal_ctx(), &None).unwrap();
    assert_eq!(plan.len(), 1);
    assert_eq!(plan[0].member_email, "ok@x.de");
}

#[test]
fn override_rescues_unparsable_member_address() {
    let members = vec![member("not a mailbox", 2024, 1, 1)];
    let d = data(vec![], vec![tpl("30d-Welcome", "30d")]);
    let ow = Some("test@example.com".to_string());
    let plan = plan_sends(&members, &d, &normal_ctx(), &ow).unwrap();
    assert_eq!(plan.len(), 1);
    assert_eq!(plan[0].to, "test@example.com");
}

#[test]
fn sends_keep_member_then_catalog_order() {
    let members = vec![member("a@x.de", 2024, 1, 1), member("b@x.de", 2024, 1, 1)];
    let d = data(
        vec![],
        vec![tpl("30d-First", "30d"), tpl("720h-Second", "720h")],
    );
    let plan = plan_sends(&members, &d, &normal_ctx(), &None).unwrap();
    let pairs: Vec<(String, String)> = plan
        .iter()
        .map(|p| (p.member_email.clone(), p.template_name.clone()))
        .collect();
    assert_eq!(
        pairs,
        vec![
            ("a@x.de".to_string(), "30d-First".to_string()),
            ("a@x.de".to_string(), "720h-Second".to_string()),
            ("b@x.de".to_string(), "30d-First".to_string()),
            ("b@x.de".to_string(), "720h-Second".to_string()),
        ]
    );
}

#[test]
fn catchup_sends_to_every_overdue_member() {
    let members = vec![
        member("early@x.de", 2024, 1, 1),
        member("late@x.de", 2024, 1, 20),
    ];
    let d = data(vec![], vec![tpl("7d-First", "7d"), tpl("30d-Welcome", "30d")]);
    let ctx = RunContext {
        today: Date::from_ymd(2024, 2, 10).unwrap(),
        min_enrollment_floor: Date::from_ymd(2024, 1, 1).unwrap(),
        mode: Mode::CatchUp("30d-Welcome".to_string()),
    };
    let plan = plan_sends(&members, &d, &ctx, &None).unwrap();
    // early: due 2024-01-31, overdue. late: due 2024-02-19, not yet.
    assert_eq!(plan.len(), 1);
    assert_eq!(plan[0].member_email, "early@x.de");
    assert_eq!(plan[0].template_name, "30d-Welcome");
}
