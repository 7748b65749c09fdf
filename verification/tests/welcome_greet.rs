use jupabot::greet::{greet_report, plan_greet, GreetPlan};
use jupabot::welcome::{channel_of, plan_welcome, records_roles, welcome_report, WelcomePlan};

fn strings(v: &[&str]) -> Vec<String> {
    v.iter().map(|s| s.to_string()).collect()
}

fn words(s: &str) -> Vec<String> {
    s.split_whitespace().skip(1).map(|w| w.to_string()).collect()
}

#[test]
fn welcome_full_setup() {
    let content = "!welcome <#42> title: Hi there text: Hello all reaction: <:wave:99> start_roles: <@&1>, <@&2> captcha: true captcha_type: digits captcha_len: 9";
    match plan_welcome(content, &words(content), "7") {
        WelcomePlan::Post(s) => {
            assert_eq!(s.channel_id, "42");
            assert_eq!(s.card.title, "Hi there");
            assert_eq!(s.card.description.as_deref(), Some("Hello all"));
            assert_eq!(s.reaction, "wave:99");
            assert_eq!(s.roles, "1,2");
            assert_eq!(s.captcha, "true");
            assert_eq!(s.captcha_type, "digits");
            assert_eq!(s.captcha_len, 6);
            assert!(records_roles(&s));
        }
        _ => panic!("expected a post"),
    }
}

#[test]
fn welcome_defaults() {
    let content = "!welcome text: Body title: Head";
    match plan_welcome(content, &words(content), "7") {
        WelcomePlan::Post(s) => {
            assert_eq!(s.channel_id, "7");
            assert_eq!(s.card.title, "Head");
            assert_eq!(s.card.description.as_deref(), Some("Body"));
            assert_eq!(s.reaction, "online:1478144903587734729");
            assert_eq!(s.roles, "");
            assert_eq!(s.captcha, "false");
            assert_eq!(s.captcha_type, "letters_digits");
            assert_eq!(s.captcha_len, 5);
            assert!(!records_roles(&s));
        }
        _ => panic!("expected a post"),
    }
}

#[test]
fn welcome_short_captcha_and_animated_emoji() {
    let content = "!welcome 55 title: A text: B reaction: <a:spin:1> captcha_len: 1";
    match plan_welcome(content, &words(content), "7") {
        WelcomePlan::Post(s) => {
            assert_eq!(s.channel_id, "55");
            assert_eq!(s.reaction, "spin:1");
            assert_eq!(s.captcha_len, 3);
        }
        _ => panic!("expected a post"),
    }
}

#[test]
fn welcome_missing_text() {
    let content = "!welcome title: Only";
    match plan_welcome(content, &words(content), "7") {
        WelcomePlan::Refuse(e) => assert_eq!(e.title, "Invalid Format"),
        _ => panic!("expected a refusal"),
    }
}

#[test]
fn welcome_empty_title() {
    let content = "!welcome title:   text: x";
    match plan_welcome(content, &words(content), "7") {
        WelcomePlan::Refuse(e) => {
            assert_eq!(e.title, "Empty Content");
            assert_eq!(e.description.as_deref(), Some("Title and text cannot be empty."));
        }
        _ => panic!("expected a refusal"),
    }
}

#[test]
fn welcome_help() {
    match plan_welcome("!welcome", &Vec::new(), "7") {
        WelcomePlan::Help(e) => {
            assert_eq!(e.title, "Welcome Setup Instructions");
            assert_eq!(e.image.as_deref(), Some("https://devimorris.tech/example.png"));
        }
        _ => panic!("expected help"),
    }
}

#[test]
fn welcome_reports() {
    assert_eq!(welcome_report("42", true).description.as_deref(), Some("Welcome message sent to <#42>."));
    assert_eq!(welcome_report("42", false).title, "Failed");
    assert_eq!(channel_of("<#9>", "1"), "9");
    assert_eq!(channel_of("#general", "1"), "1");
}

#[test]
fn greet_saves_settings() {
    let content = "!greet Welcome {ping} to us! | <#5> | true";
    match plan_greet(content, &words(content), "1", Some("g".to_string())) {
        GreetPlan::Save(s) => {
            assert_eq!(s.guild_id, "g");
            assert_eq!(s.channel_id, "5");
            assert_eq!(s.enabled, "true");
            assert_eq!(s.text, "Welcome {ping} to us!");
        }
        _ => panic!("expected a save"),
    }
}

#[test]
fn greeting_alias_keeps_the_tail_of_its_name() {
    let content = "!greeting Hi | 7 | yes";
    match plan_greet(content, &words(content), "1", Some("g".to_string())) {
        GreetPlan::Save(s) => {
            assert_eq!(s.text, "ing Hi");
            assert_eq!(s.channel_id, "7");
            assert_eq!(s.enabled, "false");
        }
        _ => panic!("expected a save"),
    }
}

#[test]
fn greet_refusals() {
    let content = "!greet Hi | <#5>";
    match plan_greet(content, &words(content), "1", Some("g".to_string())) {
        GreetPlan::Refuse(e) => assert_eq!(e.title, "Invalid Format"),
        _ => panic!("expected a refusal"),
    }
    let content = "!greet Hi | x | true";
    match plan_greet(content, &words(content), "1", None) {
        GreetPlan::Ignore => {}
        _ => panic!("expected nothing"),
    }
    match plan_greet("!greet ?", &strings(&["?"]), "1", None) {
        GreetPlan::Help(e) => assert_eq!(e.title, "Greeting Setup"),
        _ => panic!("expected help"),
    }
    assert_eq!(greet_report("5", true).description.as_deref(), Some("Automatic greeting successfully set for <#5>"));
    assert_eq!(greet_report("5", false).title, "Database Error");
}

#[test]
fn welcome_keeps_any_captcha_type() {
    let content = "!welcome title: Hi text: Yo start_roles: <@&1> captcha: true captcha_type: emoji";
    match plan_welcome(content, &words(content), "7") {
        WelcomePlan::Post(s) => assert_eq!(s.captcha_type, "emoji"),
        _ => panic!("expected a post"),
    }
    for kind in ["digits", "letters", "special", "letters_digits", "full"] {
        let content = format!("!welcome title: Hi text: Yo captcha_type: {kind}");
        match plan_welcome(&content, &words(&content), "7") {
            WelcomePlan::Post(s) => assert_eq!(s.captcha_type, kind),
            _ => panic!("expected a post"),
        }
    }
}
