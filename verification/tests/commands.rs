use jupabot::admin::{access_denied, admin_verdict, owner_grants, permits_moderation, roles_grant, RoleInfo};
use jupabot::commands::{
    animal_embed, avatar_reply, clear_count, clear_report, clear_usage, command_named, count_bots,
    first_n, guild_created, is_help_request, latency_embed, parse_command, serverinfo_embed,
    serverinfo_help, Animal, Command, UserInfo,
};
use jupabot::embed::{embed, embed_error, embed_image, embed_success, COLOR, ERROR_COLOR, LOGO, SUCCESS_COLOR};
use jupabot::help::help;

fn strings(v: &[&str]) -> Vec<String> {
    v.iter().map(|s| s.to_string()).collect()
}

#[test]
fn embed_kinds() {
    let e = embed("T");
    assert_eq!(e.color, COLOR);
    assert_eq!(e.title, "T");
    assert_eq!(e.thumbnail.as_deref(), Some(LOGO));
    let f = e.footer.unwrap();
    assert_eq!(f.text, "JupaBot");
    assert_eq!(f.icon_url.as_deref(), Some(LOGO));
    assert_eq!(embed_success("S").color, SUCCESS_COLOR);
    assert_eq!(embed_error("E").color, ERROR_COLOR);
    let i = embed_image("I", "http://pic");
    assert_eq!(i.image.as_deref(), Some("http://pic"));
    assert!(i.thumbnail.is_none());
}

#[test]
fn commands_are_read_after_the_prefix() {
    assert_eq!(parse_command("  !ping ? "), Some(("ping".to_string(), strings(&["?"]))));
    assert_eq!(
        parse_command("!!ban  <@1>   spam  now"),
        Some(("ban".to_string(), strings(&["<@1>", "spam", "now"])))
    );
    assert_eq!(parse_command("!"), Some((String::new(), Vec::new())));
    assert_eq!(parse_command("hello !ping"), None);
}

#[test]
fn command_names() {
    assert_eq!(command_named("ping"), Some(Command::Ping));
    assert_eq!(command_named("greeting"), Some(Command::Greet));
    assert_eq!(command_named("greet"), Some(Command::Greet));
    assert_eq!(command_named("serverinfo"), Some(Command::ServerInfo));
    assert_eq!(command_named("Ping"), None);
}

#[test]
fn help_request_is_a_question_mark() {
    assert!(is_help_request(&strings(&["?"])));
    assert!(!is_help_request(&strings(&["x", "?"])));
    assert!(!is_help_request(&Vec::new()));
}

#[test]
fn help_overview_and_entries() {
    let o = help(&Vec::new());
    assert_eq!(o.title, "Available commands");
    assert_eq!(o.fields.len(), 3);
    assert_eq!(o.fields[2].value, "`!dog`  `!cat`  `!fox`  `!duck`");
    let b = help(&strings(&["ban"]));
    assert_eq!(b.title, "Command \"ban\"");
    assert_eq!(b.fields.len(), 5);
    assert_eq!(
        b.description.as_deref(),
        Some("**Ban member from server**\nBans specified member from server permanently or temporary and clears his messages (up to 7 days).")
    );
    let p = help(&strings(&["ping"]));
    assert_eq!(p.title, "!ping");
    assert_eq!(p.fields[0].value, "`!ping`");
}

#[test]
fn help_for_unknown_command() {
    let u = help(&strings(&["zzz"]));
    assert_eq!(u.title, "Unknown command");
    assert_eq!(u.description.as_deref(), Some("`!zzz` is not a known command."));
}

#[test]
fn latency_reply() {
    let e = latency_embed(42);
    assert_eq!(e.title, "Pong! 🏓");
    assert_eq!(e.fields[0].name, "Latency");
    assert_eq!(e.fields[0].value, "42 ms");
    assert!(e.fields[0].inline);
}

#[test]
fn avatar_of_first_mention_or_author() {
    let author = UserInfo { id: "13".to_string(), username: "ann".to_string(), avatar: None };
    let e = avatar_reply(&Vec::new(), &author);
    assert_eq!(e.title, "ann's avatar");
    assert_eq!(e.image.as_deref(), Some("https://fluxerstatic.com/avatars/1.png"));
    let bob = UserInfo { id: "7".to_string(), username: "bob".to_string(), avatar: Some("a_ff".to_string()) };
    let e = avatar_reply(&vec![bob], &author);
    assert_eq!(e.title, "bob's avatar");
    assert_eq!(e.image.as_deref(), Some("https://fluxerusercontent.com/avatars/7/a_ff.gif"));
}

#[test]
fn animals() {
    let c = animal_embed(Animal::Cat, Some("/cat/abc".to_string()));
    assert_eq!(c.title, "Random Cat 🐈");
    assert_eq!(c.image.as_deref(), Some("https://cataas.com/cat/abc"));
    let c = animal_embed(Animal::Cat, Some("https://x/y".to_string()));
    assert_eq!(c.image.as_deref(), Some("https://x/y"));
    let d = animal_embed(Animal::Dog, Some("/dog".to_string()));
    assert_eq!(d.image.as_deref(), Some("/dog"));
    let f = animal_embed(Animal::Fox, None);
    assert_eq!(f.title, "Error");
    assert_eq!(f.description.as_deref(), Some("Failed to fetch fox image."));
}

#[test]
fn clear_counts() {
    assert_eq!(clear_count(&strings(&["50"])), Some(50));
    assert_eq!(clear_count(&strings(&["+1"])), Some(1));
    assert_eq!(clear_count(&strings(&["100"])), Some(100));
    assert_eq!(clear_count(&strings(&["0"])), None);
    assert_eq!(clear_count(&strings(&["101"])), None);
    assert_eq!(clear_count(&strings(&["x"])), None);
    assert_eq!(clear_count(&Vec::new()), None);
    assert_eq!(clear_usage().description.as_deref(), Some("Usage: `!clean <1-100>`"));
}

#[test]
fn clear_reports() {
    assert_eq!(clear_report(0, true).title, "Nothing to delete");
    let d = clear_report(12, true);
    assert_eq!(d.title, "Done");
    assert_eq!(d.description.as_deref(), Some("Deleted **12** messages."));
    assert_eq!(clear_report(12, false).title, "Failed");
    assert_eq!(first_n(strings(&["a", "b", "c"]), 2), strings(&["a", "b"]));
    assert_eq!(first_n(strings(&["a"]), 5), strings(&["a"]));
}

#[test]
fn serverinfo_card() {
    assert_eq!(guild_created("0"), "01.01.2015 00:00:00 UTC");
    assert_eq!(guild_created("abc"), "Unknown");
    let e = serverinfo_embed("0", "Home", &Some("h1".to_string()), &vec![Some(true), None, Some(false), Some(true)]);
    assert_eq!(e.title, "Information about Home");
    assert_eq!(e.thumbnail.as_deref(), Some("https://fluxerusercontent.com/icons/0/h1.png"));
    assert_eq!(e.fields[0].value, "`0`");
    assert_eq!(
        e.fields[1].value,
        "<:people:1478146494952821960> Total: **4**\n<:member:1478148900809766436> Members: 2\n<:bot:1478148899341760035> Bots: 2"
    );
    assert_eq!(e.fields[2].value, "01.01.2015 00:00:00 UTC");
    let e = serverinfo_embed("1", "X", &None, &Vec::new());
    assert_eq!(e.thumbnail.as_deref(), Some(""));
    assert_eq!(count_bots(&vec![Some(true), Some(true)]), 2);
    assert_eq!(serverinfo_help().title, "!serverinfo");
}

#[test]
fn moderation_permissions() {
    assert!(permits_moderation(8));
    assert!(permits_moderation(32 | 1024));
    assert!(permits_moderation(2));
    assert!(!permits_moderation(16));
    assert!(!permits_moderation(0));
    let roles = vec![
        RoleInfo { id: Some("r1".to_string()), permissions: Some("1024".to_string()) },
        RoleInfo { id: Some("r2".to_string()), permissions: Some("8".to_string()) },
    ];
    assert!(roles_grant(&strings(&["r2"]), &roles));
    assert!(!roles_grant(&strings(&["r1"]), &roles));
    assert!(!roles_grant(&strings(&["r3"]), &roles));
    let bad = vec![RoleInfo { id: Some("r1".to_string()), permissions: Some("x".to_string()) }];
    assert!(!roles_grant(&strings(&["r1"]), &bad));
    assert!(owner_grants(&Some("5".to_string()), &"5".to_string()));
    assert!(!owner_grants(&None, &"5".to_string()));
    assert_eq!(access_denied().title, "Access Denied");
}

#[test]
fn help_for_clear_and_serverinfo() {
    let c = help(&strings(&["clear"]));
    assert_eq!(c.title, "!clear");
    assert_eq!(c.fields[0].value, "`!clear <1-100>`");
    let s = help(&strings(&["serverinfo"]));
    assert_eq!(s.title, serverinfo_help().title);
    assert_eq!(s.description, serverinfo_help().description);
    assert_eq!(s.fields[0].value, "`!serverinfo`");
}

#[test]
fn admin_verdicts() {
    let roles = vec![RoleInfo { id: Some("r2".to_string()), permissions: Some("8".to_string()) }];
    assert!(admin_verdict(&Some("5".to_string()), &"5".to_string(), &Vec::new(), &Vec::new()));
    assert!(admin_verdict(&None, &"5".to_string(), &strings(&["r2"]), &roles));
    assert!(!admin_verdict(&Some("6".to_string()), &"5".to_string(), &strings(&["r1"]), &roles));
    assert!(!admin_verdict(&None, &"5".to_string(), &Vec::new(), &Vec::new()));
}
