use jupabot::captcha::{is_solved, new_challenge, solved_embed, wrong_embed, CaptchaStore};
use jupabot::events::{
    captcha_length, decode_payload, flag_set, greeting_avatar, greeting_handle, greeting_name,
    greeting_image, greeting_picture, greeting_text, holds_any_role, member_role_route, split_role_list,
};
use jupabot::records::PbEndpoints;

fn strings(v: &[&str]) -> Vec<String> {
    v.iter().map(|s| s.to_string()).collect()
}

#[test]
fn challenge_answer_is_lower_case() {
    let st = new_challenge("1,2", "g", "AbC");
    assert_eq!(st.answer, "abc");
    assert!(is_solved(&st, "  ABC \n"));
    assert!(is_solved(&st, "AbC"));
    assert!(!is_solved(&st, "abd"));
}

#[test]
fn store_read_after_write() {
    let mut s = CaptchaStore::new();
    assert!(s.get("u1").is_none());
    s.insert("u1".to_string(), new_challenge("1", "g", "x"));
    s.insert("u2".to_string(), new_challenge("2", "g", "y"));
    s.insert("u1".to_string(), new_challenge("3", "h", "z"));
    let a = s.get("u1").unwrap();
    assert_eq!(a.roles, "3");
    assert_eq!(a.guild_id, "h");
    assert_eq!(a.answer, "z");
    s.remove("u1");
    assert!(s.get("u1").is_none());
    assert_eq!(s.get("u2").unwrap().answer, "y");
}

#[test]
fn captcha_replies() {
    assert_eq!(solved_embed().title, "Success");
    assert_eq!(wrong_embed().title, "Error");
}

#[test]
fn role_lists() {
    assert_eq!(split_role_list(" 1, ,2 ,"), strings(&["1", "2"]));
    assert_eq!(split_role_list(""), Vec::<String>::new());
    assert!(holds_any_role(&strings(&["a", "b"]), &strings(&["c", "b"])));
    assert!(!holds_any_role(&strings(&["a"]), &strings(&["c"])));
    assert_eq!(member_role_route("g", "u", "r"), "/guilds/g/members/u/roles/r");
}

#[test]
fn recorded_roles_come_back() {
    let content = "!welcome title: t text: x start_roles: <@&11> 22,<@&33>";
    let args: Vec<String> = content.split_whitespace().skip(1).map(|w| w.to_string()).collect();
    match jupabot::welcome::plan_welcome(content, &args, "c") {
        jupabot::welcome::WelcomePlan::Post(s) => {
            assert_eq!(s.roles, "11,22,33");
            assert_eq!(split_role_list(&s.roles), strings(&["11", "22", "33"]));
        }
        _ => panic!("expected a post"),
    }
}

#[test]
fn flags_and_lengths() {
    assert!(flag_set("true"));
    assert!(!flag_set("True"));
    assert_eq!(captcha_length(None), 5);
    assert_eq!(captcha_length(Some(1)), 3);
    assert_eq!(captcha_length(Some(9)), 6);
    assert_eq!(captcha_length(Some(4)), 4);
}

#[test]
fn payloads_are_decoded() {
    assert_eq!(decode_payload("data:image/png;base64,aGk="), b"hi".to_vec());
    assert_eq!(decode_payload("aGk="), b"hi".to_vec());
    assert_eq!(decode_payload("not base64!"), Vec::<u8>::new());
    assert_eq!(greeting_picture(Some("aGk=".to_string()), vec![1, 2]), b"hi".to_vec());
    assert_eq!(greeting_picture(None, vec![1, 2]), vec![1, 2]);
}

#[test]
fn greeting_details() {
    assert_eq!(greeting_text("5", &Some("Hi {ping}! {ping}".to_string())), "Hi <@5>! <@5>");
    assert_eq!(greeting_text("5", &Some("Plain".to_string())), "Plain");
    assert_eq!(greeting_text("5", &Some(String::new())), "<@5>");
    assert_eq!(greeting_text("5", &None), "<@5>");
    assert_eq!(
        greeting_avatar("12", &Some("abc".to_string())),
        "https://fluxerusercontent.com/avatars/12/abc.png?size=256"
    );
    assert_eq!(greeting_avatar("12", &None), "https://fluxerusercontent.com/embed/avatars/2.png");
    assert_eq!(greeting_avatar("x", &None), "https://fluxerusercontent.com/embed/avatars/0.png");
    assert_eq!(greeting_name(None, Some("G".to_string()), "u".to_string()), "G");
    assert_eq!(greeting_name(Some("N".to_string()), Some("G".to_string()), "u".to_string()), "N");
    assert_eq!(greeting_name(None, None, "u".to_string()), "u");
    assert_eq!(greeting_handle("ann"), "@ann");
}

#[test]
fn database_addresses() {
    let p = PbEndpoints::new("http://127.0.0.1:8090//");
    assert_eq!(p.base_url(), "http://127.0.0.1:8090");
    assert_eq!(
        p.welcome_lookup("m1"),
        "http://127.0.0.1:8090/api/collections/welcome_messages/records?filter=(message_id='m1')"
    );
    assert_eq!(p.welcome_records(), "http://127.0.0.1:8090/api/collections/welcome_messages/records");
    assert_eq!(
        p.greeting_lookup("g"),
        "http://127.0.0.1:8090/api/collections/greetings/records?filter=(guild_id='g')"
    );
    assert_eq!(
        p.greeting_save(&Some("r1".to_string())),
        (true, "http://127.0.0.1:8090/api/collections/greetings/records/r1".to_string())
    );
    assert_eq!(
        p.greeting_save(&None),
        (false, "http://127.0.0.1:8090/api/collections/greetings/records".to_string())
    );
}

#[test]
fn greeting_image_from_the_reply() {
    assert_eq!(greeting_image(br#"{"image_base64":"aGk="}"#), b"hi".to_vec());
    assert_eq!(greeting_image(br#"{"other":"aGk="}"#), br#"{"other":"aGk="}"#.to_vec());
    assert_eq!(greeting_image(br#"{"image_base64":5}"#), br#"{"image_base64":5}"#.to_vec());
    assert_eq!(greeting_image(&[0x89, 0x50, 0x4e, 0x47]), vec![0x89, 0x50, 0x4e, 0x47]);
}
