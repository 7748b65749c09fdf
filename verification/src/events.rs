//! What the bot decides when a member reacts to a welcome message, answers a
//! CAPTCHA, or joins a guild with a greeting set up.
use vstd::prelude::*;
use crate::external::{base64_decoded, decode_base64, json_str_field, json_string_field};
use crate::ids::{extract_id_spec, opt_view, user_mention};
use crate::text::{
    Sep, all_digits, append, append_str, chars_of, dec, decimal, is_digit, is_sep, is_ws, join,
    keep_non_empty, lemma_replace_absent, lemma_split_join, non_empty, occurs_at, parse_u64,
    parse_u64_spec, replace, replace_chars, same_as_str, split, split_chars, string_of,
    strings_of, texts, trim, trim_all, trim_each,
};
use crate::welcome::{clamp, ids_in, role_list};

verus! {

/// The role ids in a comma-separated list: each piece trimmed, empty pieces dropped.
pub open spec fn role_list_items(roles: Seq<char>) -> Seq<Seq<char>> {
    non_empty(trim_all(split(roles, Sep::Char(','))))
}

/// The role ids in the comma-separated list `roles`.
pub fn split_role_list(roles: &str) -> (r: Vec<String>)
    ensures
        texts(r@) == role_list_items(roles@),
{
    let c = chars_of(roles);
    let pieces = split_chars(&c, Sep::Char(','));
    let trimmed = trim_each(&pieces);
    let kept = keep_non_empty(trimmed);
    strings_of(&kept)
}

/// A member with the roles `member_roles` already holds one of `wanted`.
pub open spec fn holds_any(member_roles: Seq<Seq<char>>, wanted: Seq<Seq<char>>) -> bool {
    exists|i: int| 0 <= i < wanted.len() && member_roles.contains(#[trigger] wanted[i])
}

/// Whether a member with the roles `member_roles` already holds one of `wanted`;
/// such a member is left alone when reacting to a welcome message.
pub fn holds_any_role(member_roles: &Vec<String>, wanted: &Vec<String>) -> (r: bool)
    ensures
        r == holds_any(texts(member_roles@), texts(wanted@)),
{
    let mut i: usize = 0;
    while i < wanted.len()
        invariant
            i <= wanted.len(),
            forall|k: int| 0 <= k < i ==> !texts(member_roles@).contains(#[trigger] texts(wanted@)[k]),
        decreases wanted.len() - i,
    {
        let mut j: usize = 0;
        while j < member_roles.len()
            invariant
                i < wanted.len(),
                j <= member_roles.len(),
                forall|k: int| 0 <= k < j ==> member_roles@[k]@ != wanted@[i as int]@,
            decreases member_roles.len() - j,
        {
            if member_roles[j] == wanted[i] {
                assert(texts(member_roles@)[j as int] == texts(wanted@)[i as int]);
                return true;
            }
            j = j + 1;
        }
        assert(!texts(member_roles@).contains(texts(wanted@)[i as int])) by {
            assert forall|k: int| 0 <= k < texts(member_roles@).len() implies texts(member_roles@)[k]
                != texts(wanted@)[i as int] by {
                assert(texts(member_roles@)[k] == member_roles@[k]@);
            }
        }
        i = i + 1;
    }
    false
}

/// Whether a record's flag is on: it is exactly `true` (a welcome record's
/// `captcha`, a greeting record's `enabled`).
pub fn flag_set(flag: &str) -> (r: bool)
    ensures
        r == (flag@ == "true"@),
{
    same_as_str(&chars_of(flag), "true")
}

/// The length of the CAPTCHA to draw: the recorded length, 5 when none is
/// recorded, brought into the range 3 to 6.
pub open spec fn captcha_length_spec(len: Option<u32>) -> u32 {
    clamp(
        match len {
            Some(n) => n as int,
            None => 5,
        },
        3,
        6,
    ) as u32
}

/// The length of the CAPTCHA to draw.
pub fn captcha_length(len: Option<u32>) -> (r: u32)
    ensures
        r == captcha_length_spec(len),
        3 <= r <= 6,
{
    let n = match len {
        Some(n) => n,
        None => 5,
    };
    if n < 3 {
        3
    } else if n > 6 {
        6
    } else {
        n
    }
}

/// The path of the REST route that gives role `role_id` to member `user_id` of guild `guild_id`.
pub open spec fn member_role_route_spec(guild_id: Seq<char>, user_id: Seq<char>, role_id: Seq<char>) -> Seq<char> {
    "/guilds/"@ + guild_id + "/members/"@ + user_id + "/roles/"@ + role_id
}

/// The route that gives role `role_id` to member `user_id` of guild `guild_id`.
pub fn member_role_route(guild_id: &str, user_id: &str, role_id: &str) -> (r: String)
    ensures
        r@ == member_role_route_spec(guild_id@, user_id@, role_id@),
{
    let mut v = chars_of("/guilds/");
    append_str(&mut v, guild_id);
    append_str(&mut v, "/members/");
    append_str(&mut v, user_id);
    append_str(&mut v, "/roles/");
    append_str(&mut v, role_id);
    string_of(&v)
}

/// The marker that the picture services put before base64 PNG data.
pub const PNG_DATA_PREFIX: &'static str = "data:image/png;base64,";

/// The picture in a base64 payload: every `data:image/png;base64,` marker
/// removed, then decoded; no bytes when the rest is not valid base64.
pub open spec fn payload_bytes(b64: Seq<char>) -> Seq<u8> {
    match base64_decoded(replace(b64, PNG_DATA_PREFIX@, Seq::empty())) {
        Some(v) => v,
        None => Seq::empty(),
    }
}

/// The picture in the base64 payload `b64`.
pub fn decode_payload(b64: &str) -> (r: Vec<u8>)
    ensures
        r@ == payload_bytes(b64@),
{
    let c = chars_of(b64);
    let marker = chars_of(PNG_DATA_PREFIX);
    proof {
        reveal_strlit("data:image/png;base64,");
    }
    let empty: Vec<char> = Vec::new();
    let clean = replace_chars(&c, &marker, &empty);
    let s = string_of(&clean);
    match decode_base64(s.as_str()) {
        Some(v) => v,
        None => Vec::new(),
    }
}

/// The greeting picture from the greeting service's reply: the decoded
/// `image_base64` field when the reply is JSON holding one, else the raw reply.
pub open spec fn greeting_picture_spec(image_base64: Option<Seq<char>>, raw: Seq<u8>) -> Seq<u8> {
    match image_base64 {
        Some(b) => payload_bytes(b),
        None => raw,
    }
}

/// The greeting picture from the greeting service's reply `raw`, whose JSON
/// field `image_base64` is given when there is one.
pub fn greeting_picture(image_base64: Option<String>, raw: Vec<u8>) -> (r: Vec<u8>)
    ensures
        r@ == greeting_picture_spec(opt_view(image_base64), raw@),
{
    match image_base64 {
        Some(b) => decode_payload(b.as_str()),
        None => raw,
    }
}

/// The greeting picture from the raw reply `body` of the greeting service:
/// the decoded `image_base64` field when the reply is JSON holding one as a
/// string, else the reply itself.
pub fn greeting_image(body: &[u8]) -> (r: Vec<u8>)
    ensures
        r@ == greeting_picture_spec(json_str_field(body@, "image_base64"@), body@),
{
    let field = json_string_field(body, "image_base64");
    let raw = vstd::slice::slice_to_vec(body);
    greeting_picture(field, raw)
}

/// The picture of a joining user for the greeting service: their avatar of
/// size 256 when they have one, else one of five default avatars chosen by
/// their id (0 when it is not a number) modulo 5.
pub open spec fn greeting_avatar_spec(user_id: Seq<char>, avatar: Option<Seq<char>>) -> Seq<char> {
    match avatar {
        Some(h) => "https://fluxerusercontent.com/avatars/"@ + user_id + "/"@ + h + ".png?size=256"@,
        None => "https://fluxerusercontent.com/embed/avatars/"@ + dec(
            match parse_u64_spec(user_id) {
                Some(n) => (n % 5) as nat,
                None => 0,
            },
        ) + ".png"@,
    }
}

/// The picture of the joining user `user_id` with avatar hash `avatar`.
pub fn greeting_avatar(user_id: &str, avatar: &Option<String>) -> (r: String)
    ensures
        r@ == greeting_avatar_spec(user_id@, opt_view(*avatar)),
{
    match avatar {
        Some(h) => {
            let mut v = chars_of("https://fluxerusercontent.com/avatars/");
            append_str(&mut v, user_id);
            append_str(&mut v, "/");
            append_str(&mut v, h.as_str());
            append_str(&mut v, ".png?size=256");
            string_of(&v)
        },
        None => {
            let n = match parse_u64(&chars_of(user_id)) {
                Some(n) => n % 5,
                None => 0,
            };
            let mut v = chars_of("https://fluxerusercontent.com/embed/avatars/");
            append(&mut v, &decimal(n));
            append_str(&mut v, ".png");
            string_of(&v)
        },
    }
}

/// The name a joining member is greeted with: their nickname, else their
/// global name, else their user name.
pub open spec fn greeting_name_spec(nick: Option<Seq<char>>, global: Option<Seq<char>>, username: Seq<char>) -> Seq<char> {
    match nick {
        Some(n) => n,
        None => match global {
            Some(g) => g,
            None => username,
        },
    }
}

/// The name a joining member is greeted with.
pub fn greeting_name(nick: Option<String>, global: Option<String>, username: String) -> (r: String)
    ensures
        r@ == greeting_name_spec(opt_view(nick), opt_view(global), username@),
{
    match nick {
        Some(n) => n,
        None => match global {
            Some(g) => g,
            None => username,
        },
    }
}

/// The handle a joining member is shown with: `@` and their user name.
pub fn greeting_handle(username: &str) -> (r: String)
    ensures
        r@ == "@"@ + username@,
{
    let mut v = chars_of("@");
    append_str(&mut v, username);
    string_of(&v)
}

/// The text posted with the greeting picture: the configured text with every
/// `{ping}` replaced by a mention of the member, or only the mention when no
/// text, or an empty one, is configured.
pub open spec fn greeting_text_spec(user_id: Seq<char>, text: Option<Seq<char>>) -> Seq<char> {
    match text {
        Some(t) => if t.len() > 0 {
            replace(t, "{ping}"@, user_mention(user_id))
        } else {
            user_mention(user_id)
        },
        None => user_mention(user_id),
    }
}

/// The text posted with the greeting picture of member `user_id`.
pub fn greeting_text(user_id: &str, text: &Option<String>) -> (r: String)
    ensures
        r@ == greeting_text_spec(user_id@, opt_view(*text)),
{
    let mut m = chars_of("<@");
    append_str(&mut m, user_id);
    append_str(&mut m, ">");
    proof {
        reveal_strlit("<@");
        reveal_strlit(">");
        assert(m@ =~= user_mention(user_id@));
    }
    match text {
        Some(t) => {
            let tc = chars_of(t.as_str());
            if tc.len() > 0 {
                let ping = chars_of("{ping}");
                proof {
                    reveal_strlit("{ping}");
                }
                string_of(&replace_chars(&tc, &ping, &m))
            } else {
                string_of(&m)
            }
        },
        None => string_of(&m),
    }
}


proof fn lemma_ids_shape(ps: Seq<Seq<char>>)
    ensures
        forall|k: int| 0 <= k < ids_in(ps).len() ==> all_digits(#[trigger] ids_in(ps)[k]) && ids_in(ps)[k].len() > 0,
    decreases ps.len(),
{
    if ps.len() > 0 {
        lemma_ids_shape(ps.drop_last());
        let r = ids_in(ps.drop_last());
        match extract_id_spec(ps.last()) {
            Some(x) => {
                assert(all_digits(x) && x.len() > 0);
                assert(ids_in(ps) == r.push(x));
                assert forall|k: int| 0 <= k < ids_in(ps).len() implies all_digits(#[trigger] ids_in(ps)[k]) && ids_in(ps)[k].len() > 0 by {
                    if k < r.len() {
                        assert(ids_in(ps)[k] == r[k]);
                    }
                }
            },
            None => {},
        }
    }
}

proof fn lemma_digit_strings_kept(qs: Seq<Seq<char>>)
    requires
        forall|k: int| 0 <= k < qs.len() ==> all_digits(#[trigger] qs[k]) && qs[k].len() > 0,
    ensures
        non_empty(trim_all(qs)) == qs,
    decreases qs.len(),
{
    if qs.len() > 0 {
        let init = qs.drop_last();
        lemma_digit_strings_kept(init);
        let l = qs[qs.len() - 1];
        assert(all_digits(l) && l.len() > 0);
        assert(trim(l) == l) by {
            assert(is_digit(l[0]) && is_digit(l[l.len() - 1]));
            assert(!is_ws(l[0]) && !is_ws(l.last()));
        }
        assert(trim_all(qs).drop_last() =~= trim_all(init));
        assert(trim_all(qs).last() == l);
    } else {
        assert(trim_all(qs) =~= qs);
    }
}

/// A configured greeting text without `{ping}` is posted as it is.
pub proof fn lemma_greeting_without_ping(user_id: Seq<char>, text: Seq<char>)
    requires
        text.len() > 0,
        forall|i: int| !occurs_at(text, "{ping}"@, i),
    ensures
        greeting_text_spec(user_id, Some(text)) == text,
{
    reveal_strlit("{ping}");
    lemma_replace_absent(text, "{ping}"@, user_mention(user_id));
}

/// The roles that `!welcome` records for its `start_roles:` value are exactly
/// the roles that reacting to the welcome message gives: the comma-separated
/// list it stores splits back into the role ids named in that value, in order.
pub proof fn lemma_recorded_roles_round_trip(start_roles: Seq<char>)
    ensures
        role_list_items(role_list(start_roles)) == ids_in(split(start_roles, Sep::CommaOrWhitespace)),
{
    let ids = ids_in(split(start_roles, Sep::CommaOrWhitespace));
    lemma_ids_shape(split(start_roles, Sep::CommaOrWhitespace));
    if ids.len() == 0 {
        reveal_strlit(",");
        assert(join(ids, ","@) =~= Seq::<char>::empty());
        let sp = split(Seq::<char>::empty(), Sep::Char(','));
        assert(sp =~= seq![Seq::<char>::empty()]);
        let t = trim_all(sp);
        assert(t =~= seq![Seq::<char>::empty()]);
        assert(t.drop_last() =~= Seq::<Seq<char>>::empty());
        assert(non_empty(t.drop_last()) =~= Seq::<Seq<char>>::empty());
        assert(non_empty(t) =~= ids);
    } else {
        assert forall|k: int, i: int| 0 <= k < ids.len() && 0 <= i < ids[k].len() implies !is_sep(Sep::Char(','), #[trigger] ids[k][i]) by {
            assert(is_digit(ids[k][i]));
        }
        reveal_strlit(",");
        assert(","@ =~= seq![',']);
        lemma_split_join(ids, Sep::Char(','), ',');
        lemma_digit_strings_kept(ids);
    }
}

} // verus!
