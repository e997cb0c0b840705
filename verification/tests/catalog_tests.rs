use drip_mailer::catalog::{
    is_opted_out, parse_optouts, parse_template_name, plan_templates, strip_href, CatalogError,
    NameError, Template,
};
use drip_mailer::duration::ParseError;

#[test]
fn strip_href_takes_last_segment() {
    assert_eq!(
        strip_href("/public.php/dav/files/user/templates/30d-Welcome.html").unwrap(),
        "30d-Welcome"
    );
    assert_eq!(strip_href("30d-Welcome.html").unwrap(), "30d-Welcome");
}

#[test]
fn strip_href_rejects_other_files() {
    assert!(strip_href("templates/30d-Welcome.txt").is_none());
    assert!(strip_href("templates/subdir/").is_none());
    assert!(strip_href("html").is_none());
}

#[test]
fn template_name_parses_offset_and_subject() {
    let (d, subject) = parse_template_name("30d-Welcome").unwrap();
    assert_eq!(d.secs, 30 * 86400);
    assert_eq!(subject, "Welcome");
}

#[test]
fn template_name_subject_is_second_field_trimmed() {
    let (d, subject) = parse_template_name("7d- Welcome back -extra").unwrap();
    assert_eq!(d.secs, 7 * 86400);
    assert_eq!(subject, "Welcome back");
}

#[test]
fn template_name_without_subject() {
    assert_eq!(parse_template_name("30d"), Err(NameError::NoSubject));
}

#[test]
fn template_name_with_bad_duration() {
    assert_eq!(
        parse_template_name("abc-Hello"),
        Err(NameError::BadDuration(ParseError::NoMagnitude))
    );
    assert_eq!(
        parse_template_name("-Hello"),
        Err(NameError::BadDuration(ParseError::Empty))
    );
}

#[test]
fn one_bad_entry_is_isolated() {
    let hrefs = vec![
        "templates/7d-One.html".to_string(),
        "templates/bad-Two.html".to_string(),
        "templates/30d-Three.html".to_string(),
    ];
    let (plans, errs) = plan_templates(&hrefs);
    assert_eq!(plans.len(), 2);
    assert_eq!(errs.len(), 1);
    assert_eq!(plans[0].name, "7d-One");
    assert_eq!(plans[0].subject, "One");
    assert_eq!(plans[1].name, "30d-Three");
    assert_eq!(plans[1].duration.secs, 30 * 86400);
    match &errs[0] {
        CatalogError::Invalid { name, err } => {
            assert_eq!(name, "bad-Two");
            assert_eq!(*err, NameError::BadDuration(ParseError::NoMagnitude));
        }
        other => panic!("unexpected error: {:?}", other),
    }
}

#[test]
fn unrecognized_file_is_recorded() {
    let hrefs = vec!["templates/notes.txt".to_string()];
    let (plans, errs) = plan_templates(&hrefs);
    assert_eq!(plans.len(), 0);
    match &errs[0] {
        CatalogError::UnrecognizedFile { href } => assert_eq!(href, "templates/notes.txt"),
        other => panic!("unexpected error: {:?}", other),
    }
}

#[test]
fn listing_names_are_percent_decoded() {
    let hrefs = vec!["templates/30d-Hello%20World.html".to_string()];
    let (plans, errs) = plan_templates(&hrefs);
    assert_eq!(errs.len(), 0);
    assert_eq!(plans[0].name, "30d-Hello World");
    assert_eq!(plans[0].subject, "Hello World");
}

#[test]
fn template_of_carries_body() {
    let hrefs = vec!["templates/1d-Hi.html".to_string()];
    let (mut plans, _) = plan_templates(&hrefs);
    let t: Template = Template::of(plans.remove(0), "<p>Hi</p>".to_string());
    assert_eq!(t.name, "1d-Hi");
    assert_eq!(t.subject, "Hi");
    assert_eq!(t.body, "<p>Hi</p>");
    assert_eq!(t.duration.secs, 86400);
}

#[test]
fn optout_lines_are_normalized() {
    let text = "  Foo@Bar.com \n\n  \nBaz@Qux.de\nfoo@bar.com";
    let outs = parse_optouts(text);
    assert_eq!(outs, vec!["foo@bar.com".to_string(), "baz@qux.de".to_string(), "foo@bar.com".to_string()]);
}

#[test]
fn optout_membership() {
    let outs = parse_optouts("a@b.c\nd@e.f\n");
    assert!(is_opted_out(&outs, &"a@b.c".to_string()));
    assert!(is_opted_out(&outs, &"d@e.f".to_string()));
    assert!(!is_opted_out(&outs, &"x@y.z".to_string()));
}

#[test]
fn optout_matching_is_case_insensitive_beyond_ascii() {
    // The list entry and the member address differ only in a non-ASCII
    // letter's case; both normalize to the same form.
    let outs = parse_optouts("ÜBER@x.de\n");
    assert_eq!(outs, vec!["über@x.de".to_string()]);
    assert!(is_opted_out(&outs, &drip_mailer::text::normalize_email("über@X.DE")));
}
