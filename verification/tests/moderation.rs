use jupabot::moderation::{
    channel_ref, day_count, mute_end, outcome, plan_moderation, resolve_unban, BanEntry, ModPlan,
    ModRequest, Moderation,
};

fn strings(v: &[&str]) -> Vec<String> {
    v.iter().map(|s| s.to_string()).collect()
}

fn plan(m: Moderation, args: &[&str], replied: Option<&str>) -> ModPlan {
    plan_moderation(m, &strings(args), Some("9".to_string()), &"77".to_string(), replied.map(String::from), 0)
}

fn run(p: ModPlan) -> ModRequest {
    match p {
        ModPlan::Run(r) => r,
        _ => panic!("expected the command to run"),
    }
}

fn ban(id: &str, username: &str, discriminator: &str, global: Option<&str>) -> BanEntry {
    BanEntry {
        user_id: id.to_string(),
        username: username.to_string(),
        discriminator: discriminator.to_string(),
        global_name: global.map(String::from),
    }
}

#[test]
fn ban_with_reason() {
    let r = run(plan(Moderation::Ban, &["<@123>", "spamming", "a", "lot"], None));
    assert_eq!(r.guild_id, "9");
    assert_eq!(r.target_id, "123");
    assert_eq!(r.reason.as_deref(), Some("spamming a lot"));
    assert!(r.duration_secs.is_none());
    assert!(r.delete_days.is_none());
    assert!(r.until.is_none());
}

#[test]
fn ban_for_a_day_clearing_a_week() {
    let r = run(plan(Moderation::Ban, &["<@42>", "1d", "7", "behaves", "provocatively"], None));
    assert_eq!(r.target_id, "42");
    assert_eq!(r.duration_secs, Some(86400));
    assert_eq!(r.delete_days, Some(7));
    assert_eq!(r.reason.as_deref(), Some("behaves provocatively"));
}

#[test]
fn ban_permanent_clearing_messages() {
    let r = run(plan(Moderation::Ban, &["<@42>", "7", "behaves", "provocatively"], None));
    assert!(r.duration_secs.is_none());
    assert_eq!(r.delete_days, Some(7));
    assert_eq!(r.reason.as_deref(), Some("behaves provocatively"));
    let r = run(plan(Moderation::Ban, &["<@42>", "10", "days"], None));
    assert!(r.delete_days.is_none());
    assert_eq!(r.reason.as_deref(), Some("10 days"));
    let r = run(plan(Moderation::Ban, &["<@42>"], None));
    assert!(r.reason.is_none() && r.duration_secs.is_none() && r.delete_days.is_none());
}

#[test]
fn day_counts() {
    assert_eq!(day_count("0"), Some(0));
    assert_eq!(day_count("7"), Some(7));
    assert_eq!(day_count("8"), None);
    assert_eq!(day_count("07"), None);
}

#[test]
fn unban_by_id() {
    let r = run(plan(Moderation::Unban, &["55", "sorry"], None));
    assert_eq!(r.target_id, "55");
    assert!(r.reason.is_none());
}

#[test]
fn unban_by_name_looks_up_the_bans() {
    match plan(Moderation::Unban, &["Caramel"], None) {
        ModPlan::FindBan { guild_id, query } => {
            assert_eq!(guild_id, "9");
            assert_eq!(query, "Caramel");
        }
        _ => panic!("expected a lookup"),
    }
    let bans = vec![
        ban("1", "bob", "0001", None),
        ban("2", "caramel.foxpaws", "0000", Some("Caramel")),
        ban("3", "caramel", "0002", Some("Caramel")),
    ];
    assert_eq!(run(resolve_unban("9".to_string(), &bans, "Caramel")).target_id, "2");
    assert_eq!(run(resolve_unban("9".to_string(), &bans, "caramel.foxpaws")).target_id, "2");
    assert_eq!(run(resolve_unban("9".to_string(), &bans, "caramel#0002")).target_id, "3");
    assert_eq!(run(resolve_unban("9".to_string(), &bans, "bob")).guild_id, "9");
    match resolve_unban("9".to_string(), &bans, "alice") {
        ModPlan::Refuse { reply, transient } => {
            assert_eq!(reply.title, "Invalid Target");
            assert_eq!(reply.description.as_deref(), Some("Please provide a valid user ID or username."));
            assert!(!transient);
        }
        _ => panic!("expected a refusal"),
    }
}

#[test]
fn mute_here_for_ten_minutes() {
    let r = run(plan(Moderation::Mute, &["<@!1>", "10min", "here", "bad"], None));
    assert_eq!(r.target_id, "1");
    assert_eq!(r.duration_secs, Some(600));
    assert_eq!(r.channel_id.as_deref(), Some("77"));
    assert!(r.until.is_none());
    assert_eq!(r.reason.as_deref(), Some("bad"));
}

#[test]
fn mute_everywhere_for_ten_minutes() {
    let r = run(plan(Moderation::Mute, &["<@42>", "10min", "everywhere", "Provoker!"], None));
    assert!(r.channel_id.is_none());
    assert_eq!(r.until.as_deref(), Some("1970-01-01T00:10:00Z"));
    assert_eq!(r.reason.as_deref(), Some("Provoker!"));
}

#[test]
fn mute_in_a_named_channel() {
    let r = run(plan(Moderation::Mute, &["<@42>", "10min", "<#555>", "Provoker!"], None));
    assert_eq!(r.channel_id.as_deref(), Some("555"));
    assert_eq!(r.duration_secs, Some(600));
    assert_eq!(r.reason.as_deref(), Some("Provoker!"));
}

#[test]
fn mute_without_duration_is_permanent() {
    let r = run(plan(Moderation::Mute, &["<@42>"], None));
    assert!(r.duration_secs.is_none());
    assert!(r.until.is_none());
    assert!(r.channel_id.is_none());
    assert!(r.reason.is_none());
    let r = run(plan(Moderation::Mute, &["1", "loud"], None));
    assert_eq!(r.reason.as_deref(), Some("loud"));
    assert!(r.until.is_none());
}

#[test]
fn timeout_ends() {
    assert_eq!(mute_end(86400, 60), "1970-01-02T00:01:00Z");
    assert_eq!(mute_end(u64::MAX, 1), "1970-01-01T00:00:00Z");
}

#[test]
fn channel_references() {
    assert_eq!(channel_ref("<#123>").as_deref(), Some("123"));
    assert_eq!(channel_ref("123").as_deref(), Some("123"));
    assert_eq!(channel_ref("<#>"), None);
    assert_eq!(channel_ref("<#12a>"), None);
    assert_eq!(channel_ref("general"), None);
}

#[test]
fn unmute_in_a_channel_or_everywhere() {
    let r = run(plan(Moderation::Unmute, &["<@1>", "<#5>"], None));
    assert_eq!(r.channel_id.as_deref(), Some("5"));
    let r = run(plan(Moderation::Unmute, &["<@1>", "123456789012345678"], None));
    assert_eq!(r.channel_id.as_deref(), Some("123456789012345678"));
    let r = run(plan(Moderation::Unmute, &["<@1>"], None));
    assert!(r.channel_id.is_none());
}

#[test]
fn replied_author_stands_in_for_the_member() {
    let r = run(plan(Moderation::Kick, &[], Some("8")));
    assert_eq!(r.target_id, "8");
    assert!(r.reason.is_none());
    let r = run(plan(Moderation::Kick, &["spam"], Some("8")));
    assert_eq!(r.target_id, "8");
    assert_eq!(r.reason.as_deref(), Some("spam"));
    let r = run(plan(Moderation::Ban, &["1d", "spam"], Some("8")));
    assert_eq!(r.target_id, "8");
    assert_eq!(r.duration_secs, Some(86400));
    let r = run(plan(Moderation::Kick, &["<@3>", "x"], Some("8")));
    assert_eq!(r.target_id, "3");
    let r = run(plan(Moderation::Ban, &["42", "spam"], Some("8")));
    assert_eq!(r.target_id, "42");
    assert_eq!(r.reason.as_deref(), Some("spam"));
    let r = run(plan(Moderation::Mute, &["42", "10min"], Some("8")));
    assert_eq!(r.target_id, "42");
    assert_eq!(r.duration_secs, Some(600));
    let r = run(plan(Moderation::Unmute, &["42"], Some("8")));
    assert_eq!(r.target_id, "42");
    match plan(Moderation::Unban, &[], Some("8")) {
        ModPlan::Help(e) => assert_eq!(e.title, "Command \"unban\""),
        _ => panic!("expected help"),
    }
}

#[test]
fn help_when_no_arguments() {
    match plan(Moderation::Kick, &[], None) {
        ModPlan::Help(e) => assert_eq!(e.title, "Command \"kick\""),
        _ => panic!("expected help"),
    }
    match plan_moderation(Moderation::Ban, &strings(&["?"]), None, &"77".to_string(), Some("8".to_string()), 0) {
        ModPlan::Help(e) => assert_eq!(e.title, "Command \"ban\""),
        _ => panic!("expected help"),
    }
}

#[test]
fn refused_outside_a_guild() {
    match plan_moderation(Moderation::Ban, &strings(&["1"]), None, &"77".to_string(), None, 0) {
        ModPlan::Refuse { reply, transient } => {
            assert_eq!(reply.description.as_deref(), Some("This command can only be used in a server."));
            assert!(!transient);
        }
        _ => panic!("expected a refusal"),
    }
    match plan_moderation(Moderation::Unmute, &strings(&["1"]), None, &"77".to_string(), None, 0) {
        ModPlan::Refuse { transient, .. } => assert!(transient),
        _ => panic!("expected a refusal"),
    }
}

#[test]
fn refused_invalid_target() {
    match plan(Moderation::Kick, &["bob"], None) {
        ModPlan::Refuse { reply, .. } => {
            assert_eq!(reply.title, "Invalid Target");
            assert_eq!(reply.description.as_deref(), Some("Please provide a valid member mention or ID."))
        }
        _ => panic!("expected a refusal"),
    }
}

#[test]
fn outcome_reports() {
    let e = outcome(Moderation::Ban, "5", &Some("spam".to_string()), true);
    assert_eq!(e.title, "Member Banned");
    assert_eq!(e.description.as_deref(), Some("Banned <@5>.\n**Reason:** spam"));
    let e = outcome(Moderation::Unmute, "5", &Some("x".to_string()), true);
    assert_eq!(e.description.as_deref(), Some("Unmuted <@5>."));
    let e = outcome(Moderation::Mute, "5", &None, false);
    assert_eq!(e.title, "Failed to Mute");
    assert_eq!(e.description.as_deref(), Some("Make sure the bot has permissions (Timeout Members)."));
}
