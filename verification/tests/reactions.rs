use jupabot::captcha::{answer_dm, new_challenge, CaptchaStore, DmAnswer};
use jupabot::reactions::{reaction_step, ReactionAction, ReactionEvent, ReactionState};
use jupabot::records::WelcomeMessageRecord;

fn record(roles: &str, captcha: &str, len: Option<u32>) -> WelcomeMessageRecord {
    WelcomeMessageRecord {
        id: "r".to_string(),
        guild_id: "9".to_string(),
        message_id: "m".to_string(),
        channel_id: "c".to_string(),
        roles: roles.to_string(),
        captcha: captcha.to_string(),
        captcha_type: "digits".to_string(),
        captcha_len: len,
    }
}

fn added(user: &str, guild: Option<&str>) -> ReactionEvent {
    ReactionEvent::Added {
        user_id: user.to_string(),
        bot_id: "bot".to_string(),
        message_id: "m".to_string(),
        guild_id: guild.map(String::from),
    }
}

#[test]
fn own_reactions_are_ignored() {
    let (s, a) = reaction_step(ReactionState::Idle, added("bot", Some("9")));
    assert!(matches!(s, ReactionState::Idle));
    assert!(matches!(a, ReactionAction::Done));
}

#[test]
fn reaction_gives_roles() {
    let (s, a) = reaction_step(ReactionState::Idle, added("u", Some("9")));
    match a {
        ReactionAction::FindRecord { message_id } => assert_eq!(message_id, "m"),
        _ => panic!("expected a lookup"),
    }
    let (s, a) = reaction_step(s, ReactionEvent::Record(Some(record("1, 2", "false", None))));
    match a {
        ReactionAction::FetchMemberRoles { guild_id, user_id } => {
            assert_eq!(guild_id, "9");
            assert_eq!(user_id, "u");
        }
        _ => panic!("expected a role lookup"),
    }
    let (s, a) = reaction_step(s, ReactionEvent::MemberRoles(vec!["7".to_string()]));
    assert!(matches!(s, ReactionState::Idle));
    match a {
        ReactionAction::GiveRoles { guild_id, user_id, role_ids } => {
            assert_eq!(guild_id, "9");
            assert_eq!(user_id, "u");
            assert_eq!(role_ids, vec!["1".to_string(), "2".to_string()]);
        }
        _ => panic!("expected roles"),
    }
}

#[test]
fn reaction_starts_a_captcha() {
    let (s, _) = reaction_step(ReactionState::Idle, added("u", Some("9")));
    let (s, _) = reaction_step(s, ReactionEvent::Record(Some(record("1", "true", Some(9)))));
    let (_, a) = reaction_step(s, ReactionEvent::MemberRoles(Vec::new()));
    match a {
        ReactionAction::StartCaptcha { guild_id, user_id, roles, length, charset } => {
            assert_eq!(guild_id, "9");
            assert_eq!(user_id, "u");
            assert_eq!(roles, "1");
            assert_eq!(length, 6);
            assert_eq!(charset, "digits");
        }
        _ => panic!("expected a CAPTCHA"),
    }
}

#[test]
fn reaction_stops_early() {
    let (s, _) = reaction_step(ReactionState::Idle, added("u", Some("9")));
    let (_, a) = reaction_step(s, ReactionEvent::Record(None));
    assert!(matches!(a, ReactionAction::Done));
    let (s, _) = reaction_step(ReactionState::Idle, added("u", None));
    let (_, a) = reaction_step(s, ReactionEvent::Record(Some(record("1", "false", None))));
    assert!(matches!(a, ReactionAction::Done));
    let (s, _) = reaction_step(ReactionState::Idle, added("u", Some("9")));
    let (s, _) = reaction_step(s, ReactionEvent::Record(Some(record("1, 2", "false", None))));
    let (_, a) = reaction_step(s, ReactionEvent::MemberRoles(vec!["2".to_string()]));
    assert!(matches!(a, ReactionAction::Done));
    let (_, a) = reaction_step(ReactionState::Idle, ReactionEvent::MemberRoles(Vec::new()));
    assert!(matches!(a, ReactionAction::Done));
}

#[test]
fn direct_message_answers() {
    let mut store = CaptchaStore::new();
    store.insert("u".to_string(), new_challenge("1,2", "9", "AbC"));
    assert!(matches!(answer_dm(&mut store, true, "u", "abc"), DmAnswer::NotPending));
    assert!(matches!(answer_dm(&mut store, false, "x", "abc"), DmAnswer::NotPending));
    match answer_dm(&mut store, false, "u", "nope") {
        DmAnswer::Wrong(e) => assert_eq!(e.title, "Error"),
        _ => panic!("expected a wrong answer"),
    }
    assert!(store.get("u").is_some());
    match answer_dm(&mut store, false, "u", "  ABC ") {
        DmAnswer::Solved { guild_id, role_ids, reply } => {
            assert_eq!(guild_id, "9");
            assert_eq!(role_ids, vec!["1".to_string(), "2".to_string()]);
            assert_eq!(reply.title, "Success");
        }
        _ => panic!("expected a solved challenge"),
    }
    assert!(store.get("u").is_none());
}
