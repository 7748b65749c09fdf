//! The `!welcome` command: reading its `key: value` parameters out of the
//! message, and what it posts.
use vstd::prelude::*;
use crate::embed::{Embed, EmbedView, embed, embed_error, embed_image, embed_success,
    error_card, picture_card, plain_card, success_card};
use crate::ids::{channel_mention, extract_id_chars, extract_id_spec};
use crate::text::{
    Sep, all_ascii_digits, all_digits, append_str, chars_of, ends_with, find, find_chars,
    has_prefix, has_suffix, join, join_chars, lemma_find_from, occurs_at, parse_u64,
    parse_u64_spec, same_as_str, slice, split, split_chars, starts_with, string_of, texts, trim,
    trim_chars, views,
};

verus! {

// ---------------------------------------------------------------------------
// The parameter keys
// ---------------------------------------------------------------------------

/// The number of parameter keys.
pub const KEY_COUNT: usize = 7;

/// The `k`-th parameter key with its colon: `title:`, `text:`, `reaction:`,
/// `start_roles:`, `captcha:`, `captcha_type:`, `captcha_len:`.
pub open spec fn key(k: int) -> Seq<char> {
    if k == 0 {
        seq!['t', 'i', 't', 'l', 'e', ':']
    } else if k == 1 {
        seq!['t', 'e', 'x', 't', ':']
    } else if k == 2 {
        seq!['r', 'e', 'a', 'c', 't', 'i', 'o', 'n', ':']
    } else if k == 3 {
        seq!['s', 't', 'a', 'r', 't', '_', 'r', 'o', 'l', 'e', 's', ':']
    } else if k == 4 {
        seq!['c', 'a', 'p', 't', 'c', 'h', 'a', ':']
    } else if k == 5 {
        seq!['c', 'a', 'p', 't', 'c', 'h', 'a', '_', 't', 'y', 'p', 'e', ':']
    } else {
        seq!['c', 'a', 'p', 't', 'c', 'h', 'a', '_', 'l', 'e', 'n', ':']
    }
}

fn key_chars(k: usize) -> (v: Vec<char>)
    requires
        k < KEY_COUNT,
    ensures
        v@ == key(k as int),
{
    let v = if k == 0 {
        vec!['t', 'i', 't', 'l', 'e', ':']
    } else if k == 1 {
        vec!['t', 'e', 'x', 't', ':']
    } else if k == 2 {
        vec!['r', 'e', 'a', 'c', 't', 'i', 'o', 'n', ':']
    } else if k == 3 {
        vec!['s', 't', 'a', 'r', 't', '_', 'r', 'o', 'l', 'e', 's', ':']
    } else if k == 4 {
        vec!['c', 'a', 'p', 't', 'c', 'h', 'a', ':']
    } else if k == 5 {
        vec!['c', 'a', 'p', 't', 'c', 'h', 'a', '_', 't', 'y', 'p', 'e', ':']
    } else {
        vec!['c', 'a', 'p', 't', 'c', 'h', 'a', '_', 'l', 'e', 'n', ':']
    };
    assert(v@ =~= key(k as int));
    v
}

/// Each key is at least three characters long and has its only colon at its end.
proof fn lemma_key_shape(k: int)
    requires
        0 <= k < 7,
    ensures
        key(k).len() >= 5,
        key(k)[key(k).len() - 1] == ':',
        forall|m: int| 0 <= m < key(k).len() - 1 ==> key(k)[m] != ':',
{
}

/// Two different keys differ in their two characters before the colon.
proof fn lemma_key_endings(a: int, b: int)
    requires
        0 <= a < 7,
        0 <= b < 7,
        a != b,
    ensures
        key(a)[key(a).len() - 3] != key(b)[key(b).len() - 3] || key(a)[key(a).len() - 2] != key(
            b,
        )[key(b).len() - 2],
{
}

/// Occurrences of two different keys in a text never overlap, so the value
/// of a key always lies between its key and the next one.
pub proof fn lemma_keys_disjoint(s: Seq<char>, a: int, b: int, i: int, j: int)
    requires
        0 <= a < 7,
        0 <= b < 7,
        a != b,
        occurs_at(s, key(a), i),
        occurs_at(s, key(b), j),
        i < j,
    ensures
        i + key(a).len() <= j,
{
    let p = key(a);
    let q = key(b);
    lemma_key_shape(a);
    lemma_key_shape(b);
    let e = i + p.len();
    let f = j + q.len();
    if j < e {
        assert(s.subrange(i, e)[p.len() - 1] == s[e - 1]);
        assert(s.subrange(j, f)[q.len() - 1] == s[f - 1]);
        if f < e {
            assert(s.subrange(i, e)[f - 1 - i] == s[f - 1]);
            assert(p[f - 1 - i] == ':');
        } else if f > e {
            assert(s.subrange(j, f)[e - 1 - j] == s[e - 1]);
            assert(q[e - 1 - j] == ':');
        } else {
            lemma_key_endings(a, b);
            assert(s.subrange(i, e)[p.len() - 2] == s[e - 2]);
            assert(s.subrange(j, f)[q.len() - 2] == s[f - 2]);
            assert(s.subrange(i, e)[p.len() - 3] == s[e - 3]);
            assert(s.subrange(j, f)[q.len() - 3] == s[f - 3]);
        }
    }
}

// ---------------------------------------------------------------------------
// Reading the parameters
// ---------------------------------------------------------------------------

/// Where the value of a key found at `i` ends: at the first key found after
/// `i`, among the keys from index `k` on, or at the end of the text.
pub open spec fn value_end(s: Seq<char>, i: int, k: int) -> int
    decreases 7 - k,
{
    if k >= 7 {
        s.len() as int
    } else {
        let e = value_end(s, i, k + 1);
        match find(s, key(k)) {
            Some(j) => if i < j && j < e {
                j
            } else {
                e
            },
            None => e,
        }
    }
}

/// The value of key `k` in `s`: the trimmed text from the end of its first
/// occurrence to the next key found after it, or to the end; `None` when the
/// key does not occur.
pub open spec fn key_value(s: Seq<char>, k: int) -> Option<Seq<char>> {
    match find(s, key(k)) {
        Some(i) => Some(trim(s.subrange(i + key(k).len(), value_end(s, i, 0)))),
        None => None,
    }
}

proof fn lemma_find_occurs(s: Seq<char>, p: Seq<char>)
    ensures
        find(s, p) matches Some(i) ==> occurs_at(s, p, i),
{
    lemma_find_from(s, p, 0);
}

/// The text a key's value is read from never starts after it ends: it runs
/// from the end of the key to the next key or to the end of the message.
pub proof fn lemma_value_bounds(s: Seq<char>, a: int, i: int, k: int)
    requires
        0 <= a < 7,
        0 <= k,
        find(s, key(a)) == Some(i),
    ensures
        i + key(a).len() <= value_end(s, i, k) <= s.len(),
    decreases 7 - k,
{
    lemma_find_occurs(s, key(a));
    if k < 7 {
        lemma_value_bounds(s, a, i, k + 1);
        match find(s, key(k)) {
            Some(j) => {
                if i < j {
                    lemma_find_occurs(s, key(k));
                    lemma_keys_disjoint(s, a, k, i, j);
                }
            },
            None => {},
        }
    }
}

/// Where each key first occurs in `s`.
fn key_positions(s: &Vec<char>) -> (r: Vec<Option<usize>>)
    ensures
        r.len() == KEY_COUNT,
        forall|k: int|
            0 <= k < 7 ==> match #[trigger] r@[k] {
                Some(i) => find(s@, key(k)) == Some(i as int),
                None => find(s@, key(k)) is None,
            },
{
    let mut r: Vec<Option<usize>> = Vec::new();
    let mut k: usize = 0;
    while k < KEY_COUNT
        invariant
            k <= KEY_COUNT,
            r.len() == k,
            forall|m: int|
                0 <= m < k ==> match #[trigger] r@[m] {
                    Some(i) => find(s@, key(m)) == Some(i as int),
                    None => find(s@, key(m)) is None,
                },
        decreases KEY_COUNT - k,
    {
        let kc = key_chars(k);
        r.push(find_chars(s, &kc));
        k = k + 1;
    }
    r
}

/// The values of all keys in `s`, in key order.
fn key_values(s: &Vec<char>) -> (r: Vec<Option<Vec<char>>>)
    ensures
        r.len() == KEY_COUNT,
        forall|k: int|
            0 <= k < 7 ==> match #[trigger] r@[k] {
                Some(v) => key_value(s@, k) == Some(v@),
                None => key_value(s@, k) is None,
            },
{
    let pos = key_positions(s);
    let mut r: Vec<Option<Vec<char>>> = Vec::new();
    let mut k: usize = 0;
    while k < KEY_COUNT
        invariant
            k <= KEY_COUNT,
            r.len() == k,
            pos.len() == KEY_COUNT,
            forall|m: int|
                0 <= m < 7 ==> match #[trigger] pos@[m] {
                    Some(i) => find(s@, key(m)) == Some(i as int),
                    None => find(s@, key(m)) is None,
                },
            forall|m: int|
                0 <= m < k ==> match #[trigger] r@[m] {
                    Some(v) => key_value(s@, m) == Some(v@),
                    None => key_value(s@, m) is None,
                },
        decreases KEY_COUNT - k,
    {
        match pos[k] {
            None => {
                r.push(None);
            },
            Some(i) => {
                let mut e: usize = s.len();
                let mut m: usize = KEY_COUNT;
                while m > 0
                    invariant
                        m <= KEY_COUNT,
                        pos.len() == KEY_COUNT,
                        forall|t: int|
                            0 <= t < 7 ==> match #[trigger] pos@[t] {
                                Some(x) => find(s@, key(t)) == Some(x as int),
                                None => find(s@, key(t)) is None,
                            },
                        e == value_end(s@, i as int, m as int),
                    decreases m,
                {
                    m = m - 1;
                    match pos[m] {
                        Some(j) => {
                            if i < j && j < e {
                                e = j;
                            }
                        },
                        None => {},
                    }
                }
                let kc = key_chars(k);
                proof {
                    lemma_value_bounds(s@, k as int, i as int, 0);
                }
                let start = i + kc.len();
                let v = slice(s, start, e);
                let t = trim_chars(&v);
                r.push(Some(t));
            },
        }
        k = k + 1;
    }
    r
}

// ---------------------------------------------------------------------------
// The command
// ---------------------------------------------------------------------------

/// The channel that `arg` names: the id inside a channel mention `<#id>`, a
/// bare numeric id, or else `fallback`.
pub open spec fn channel_ref(arg: Seq<char>, fallback: Seq<char>) -> Seq<char> {
    if starts_with(arg, "<#"@) && ends_with(arg, ">"@) {
        arg.subrange(2, arg.len() - 1)
    } else if all_digits(arg) && arg.len() > 0 {
        arg
    } else {
        fallback
    }
}

/// The channel that `arg` names, or `fallback`.
pub fn channel_of(arg: &str, fallback: &str) -> (r: String)
    ensures
        r@ == channel_ref(arg@, fallback@),
{
    let a = chars_of(arg);
    let open = chars_of("<#");
    let close = chars_of(">");
    proof {
        reveal_strlit("<#");
        reveal_strlit(">");
    }
    if has_prefix(&a, &open) && has_suffix(&a, &close) {
        proof {
            assert(a@.take(2)[1] == '#');
            assert(a@.skip(a@.len() - 1)[0] == '>');
        }
        let inner = slice(&a, 2, a.len() - 1);
        string_of(&inner)
    } else if all_ascii_digits(&a) && a.len() > 0 {
        string_of(&a)
    } else {
        crate::embed::owned(fallback)
    }
}

/// The role ids named in the pieces `ps`, in order; pieces naming none are skipped.
pub open spec fn ids_in(ps: Seq<Seq<char>>) -> Seq<Seq<char>>
    decreases ps.len(),
{
    if ps.len() == 0 {
        Seq::empty()
    } else {
        let r = ids_in(ps.drop_last());
        match extract_id_spec(ps.last()) {
            Some(x) => r.push(x),
            None => r,
        }
    }
}

/// The role ids named in `roles` (separated by commas or white space), joined with commas.
pub open spec fn role_list(roles: Seq<char>) -> Seq<char> {
    join(ids_in(split(roles, Sep::CommaOrWhitespace)), ","@)
}

/// The role ids named in `roles`, joined with commas.
pub fn role_ids(roles: &Vec<char>) -> (r: Vec<char>)
    ensures
        r@ == role_list(roles@),
{
    let ps = split_chars(roles, Sep::CommaOrWhitespace);
    let mut ids: Vec<Vec<char>> = Vec::new();
    let mut i: usize = 0;
    while i < ps.len()
        invariant
            i <= ps.len(),
            views(ids@) == ids_in(views(ps@).take(i as int)),
        decreases ps.len() - i,
    {
        let ghost before = views(ids@);
        assert(views(ps@).take(i + 1).drop_last() =~= views(ps@).take(i as int));
        assert(views(ps@)[i as int] == ps@[i as int]@);
        match extract_id_chars(&ps[i]) {
            Some(x) => {
                ids.push(x);
                assert(views(ids@) =~= before.push(x@));
            },
            None => {},
        }
        i = i + 1;
    }
    assert(views(ps@).take(ps.len() as int) =~= views(ps@));
    let comma = chars_of(",");
    join_chars(&ids, &comma)
}

/// The emoji to react with, from the `reaction:` value: a custom emoji
/// `<:name:id>` or `<a:name:id>` loses its brackets and prefix; anything else is kept.
pub open spec fn clean_emoji_spec(e: Seq<char>) -> Seq<char> {
    if starts_with(e, "<:"@) && ends_with(e, ">"@) {
        e.subrange(2, e.len() - 1)
    } else if starts_with(e, "<a:"@) && ends_with(e, ">"@) {
        e.subrange(3, e.len() - 1)
    } else {
        e
    }
}

/// The emoji to react with, from the `reaction:` value.
pub fn clean_emoji(e: &Vec<char>) -> (r: Vec<char>)
    ensures
        r@ == clean_emoji_spec(e@),
{
    let a = chars_of("<:");
    let b = chars_of("<a:");
    let close = chars_of(">");
    proof {
        reveal_strlit("<:");
        reveal_strlit("<a:");
        reveal_strlit(">");
    }
    if has_prefix(e, &a) && has_suffix(e, &close) {
        proof {
            assert(e@.take(2)[1] == ':');
            assert(e@.skip(e@.len() - 1)[0] == '>');
        }
        slice(e, 2, e.len() - 1)
    } else if has_prefix(e, &b) && has_suffix(e, &close) {
        proof {
            assert(e@.take(3)[2] == ':');
            assert(e@.skip(e@.len() - 1)[0] == '>');
        }
        slice(e, 3, e.len() - 1)
    } else {
        e.clone()
    }
}

/// The reaction the bot adds when none is given.
pub const DEFAULT_REACTION: &'static str = "online:1478144903587734729";

/// What `str::parse::<u32>` gives.
pub open spec fn parse_u32_spec(s: Seq<char>) -> Option<u32> {
    match parse_u64_spec(s) {
        Some(n) => if n <= u32::MAX {
            Some(n as u32)
        } else {
            None
        },
        None => None,
    }
}

/// `v` brought into the range from `lo` to `hi`.
pub open spec fn clamp(v: int, lo: int, hi: int) -> int {
    if v < lo {
        lo
    } else if v > hi {
        hi
    } else {
        v
    }
}

/// The CAPTCHA length from the `captcha_len:` value: the number it holds, 5
/// when it holds none, brought into the range 3 to 6.
pub open spec fn captcha_len_spec(s: Seq<char>) -> u32 {
    clamp(
        match parse_u32_spec(s) {
            Some(n) => n as int,
            None => 5,
        },
        3,
        6,
    ) as u32
}

/// A welcome message to post, as `!welcome` describes it.
pub struct WelcomeSetup {
    /// The channel to post in.
    pub channel_id: String,
    /// The card to post.
    pub card: Embed,
    /// The emoji to react with.
    pub reaction: String,
    /// The ids of the roles to give, joined with commas.
    pub roles: String,
    /// The `captcha:` value (`false` when not given).
    pub captcha: String,
    /// The `captcha_type:` value (`letters_digits` when not given).
    pub captcha_type: String,
    /// The CAPTCHA length, from 3 to 6.
    pub captcha_len: u32,
}

/// What `!welcome` does.
pub enum WelcomePlan {
    /// Post the instructions as a plain reply.
    Help(Embed),
    /// Post `reply` as a transient reply and stop.
    Refuse(Embed),
    /// Post the welcome message.
    Post(WelcomeSetup),
}

/// The value of a `WelcomeSetup`.
pub struct SetupView {
    pub channel_id: Seq<char>,
    pub card: EmbedView,
    pub reaction: Seq<char>,
    pub roles: Seq<char>,
    pub captcha: Seq<char>,
    pub captcha_type: Seq<char>,
    pub captcha_len: u32,
}

/// The value of a `WelcomePlan`.
pub enum WelcomePlanView {
    Help(EmbedView),
    Refuse(EmbedView),
    Post(SetupView),
}

impl View for WelcomeSetup {
    type V = SetupView;

    open spec fn view(&self) -> SetupView {
        SetupView {
            channel_id: self.channel_id@,
            card: self.card@,
            reaction: self.reaction@,
            roles: self.roles@,
            captcha: self.captcha@,
            captcha_type: self.captcha_type@,
            captcha_len: self.captcha_len,
        }
    }
}

impl View for WelcomePlan {
    type V = WelcomePlanView;

    open spec fn view(&self) -> WelcomePlanView {
        match self {
            WelcomePlan::Help(e) => WelcomePlanView::Help(e@),
            WelcomePlan::Refuse(e) => WelcomePlanView::Refuse(e@),
            WelcomePlan::Post(s) => WelcomePlanView::Post(s@),
        }
    }
}

/// The address of the picture that illustrates `!welcome`.
pub const EXAMPLE_IMAGE: &'static str = "https://devimorris.tech/example.png";

/// How to use `!welcome`.
pub const WELCOME_HELP: &'static str = "Creates a welcome message with an automatic role given upon reacting.\n\
                **Format:** `!welcome #channel title: <title> text: <text> reaction: <emoji> start_roles: <role1>, <role2> captcha: <true/false> captcha_type: <type> captcha_len: <3-6>`\n\n\
                **Parameters:**\n\
                `#channel` - The channel to send the message (as a mention, must be the first argument).\n\
                `title:` - Title of the embed.\n\
                `text:` - Main content of the embed.\n\
                `reaction:` - Emoji to add to the message for users to click.\n\
                `start_roles:` - Comma separated roles (mentions or IDs) to give.\n\
                `captcha:` - (Optional, default `false`) If `true`, a CAPTCHA will be sent via DM before giving roles.\n\
                `captcha_type:` - (Optional, default `letters_digits`) The character set for the CAPTCHA. Available types: `digits`, `letters`, `special`, `letters_digits`, `full`.\n\
                `captcha_len:` - (Optional, default `5`) The length of the CAPTCHA string (between `3` and `6`).\n\
                \n\
                **Example:**\n\
                `!welcome #general title: Welcome! text: Click to get access! reaction: ✅ start_roles: @Member captcha: true captcha_type: letters_digits captcha_len: 5`";

/// The reply when `title:` or `text:` is missing.
pub const MISSING_PARTS: &'static str = "Please provide both `title:` and `text:` parameters.\nExample: `!welcome #channel title: Hello! text: Welcome here! reaction: 😃 start_roles: @Role1 captcha: true captcha_type: letters_digits captcha_len: 5`";

/// The instructions card of `!welcome`.
pub open spec fn welcome_help_card() -> EmbedView {
    picture_card("Welcome Setup Instructions"@, EXAMPLE_IMAGE@).describe(WELCOME_HELP@).picture(
        EXAMPLE_IMAGE@,
    )
}

/// The value of key `k`, or `default` when the key is missing.
pub open spec fn value_or(s: Seq<char>, k: int, default: Seq<char>) -> Seq<char> {
    match key_value(s, k) {
        Some(v) => v,
        None => default,
    }
}

/// What `!welcome` does, given the full message text `content`, its words
/// after the command `args` and the channel it was posted in: without
/// arguments or with `?` it shows its instructions; the first argument may
/// name the target channel; it refuses when `title:` or `text:` is missing
/// or empty; otherwise it posts a card with that title and text in the target
/// channel, reacts with the given emoji (or a default one), and records the
/// role ids, the CAPTCHA settings and their defaults.
pub open spec fn welcome_spec(content: Seq<char>, args: Seq<Seq<char>>, channel: Seq<char>) -> WelcomePlanView {
    if args.len() == 0 || args[0] == "?"@ {
        WelcomePlanView::Help(welcome_help_card())
    } else if key_value(content, 0) is None || key_value(content, 1) is None {
        WelcomePlanView::Refuse(error_card("Invalid Format"@).describe(MISSING_PARTS@))
    } else {
        let title = value_or(content, 0, Seq::empty());
        let text = value_or(content, 1, Seq::empty());
        if title.len() == 0 || text.len() == 0 {
            WelcomePlanView::Refuse(
                error_card("Empty Content"@).describe("Title and text cannot be empty."@),
            )
        } else {
            WelcomePlanView::Post(
                SetupView {
                    channel_id: channel_ref(args[0], channel),
                    card: plain_card(title).describe(text),
                    reaction: match key_value(content, 2) {
                        Some(e) => clean_emoji_spec(e),
                        None => DEFAULT_REACTION@,
                    },
                    roles: role_list(value_or(content, 3, Seq::empty())),
                    captcha: value_or(content, 4, "false"@),
                    captcha_type: value_or(content, 5, "letters_digits"@),
                    captcha_len: captcha_len_spec(value_or(content, 6, "5"@)),
                },
            )
        }
    }
}

fn value_or_exec(values: &Vec<Option<Vec<char>>>, k: usize, default: &str) -> (r: Vec<char>)
    requires
        k < values.len(),
    ensures
        r@ == match values@[k as int] {
            Some(v) => v@,
            None => default@,
        },
{
    match &values[k] {
        Some(v) => v.clone(),
        None => chars_of(default),
    }
}

/// What `!welcome` does with the message text `content`, its arguments `args`
/// and its channel `channel`.
pub fn plan_welcome(content: &str, args: &Vec<String>, channel: &str) -> (r: WelcomePlan)
    ensures
        r@ == welcome_spec(content@, texts(args@), channel@),
{
    if args.len() == 0 || same_as_str(&chars_of(args[0].as_str()), "?") {
        return WelcomePlan::Help(
            embed_image("Welcome Setup Instructions", EXAMPLE_IMAGE).description_str(
                WELCOME_HELP,
            ).image(EXAMPLE_IMAGE),
        );
    }
    let s = chars_of(content);
    let values = key_values(&s);
    if values[0].is_none() || values[1].is_none() {
        return WelcomePlan::Refuse(embed_error("Invalid Format").description_str(MISSING_PARTS));
    }
    let title = value_or_exec(&values, 0, "");
    let text = value_or_exec(&values, 1, "");
    proof {
        reveal_strlit("");
    }
    if title.len() == 0 || text.len() == 0 {
        return WelcomePlan::Refuse(
            embed_error("Empty Content").description_str("Title and text cannot be empty."),
        );
    }
    let channel_id = channel_of(args[0].as_str(), channel);
    let t = string_of(&title);
    let card = embed(t.as_str()).description(string_of(&text));
    let reaction = match &values[2] {
        Some(e) => string_of(&clean_emoji(e)),
        None => crate::embed::owned(DEFAULT_REACTION),
    };
    let roles = string_of(&role_ids(&value_or_exec(&values, 3, "")));
    let captcha = string_of(&value_or_exec(&values, 4, "false"));
    let captcha_type = string_of(&value_or_exec(&values, 5, "letters_digits"));
    let len_text = value_or_exec(&values, 6, "5");
    let n: u32 = match parse_u64(&len_text) {
        Some(n) => if n <= 0xffff_ffff {
            n as u32
        } else {
            5
        },
        None => 5,
    };
    let captcha_len: u32 = if n < 3 {
        3
    } else if n > 6 {
        6
    } else {
        n
    };
    WelcomePlan::Post(
        WelcomeSetup { channel_id, card, reaction, roles, captcha, captcha_type, captcha_len },
    )
}

/// Whether the welcome message is recorded: only when it gives some role.
pub fn records_roles(setup: &WelcomeSetup) -> (r: bool)
    ensures
        r == (setup.roles@.len() > 0),
{
    !setup.roles.as_str().is_empty()
}

/// The report of `!welcome` once posting to `channel_id` succeeded or failed.
pub open spec fn welcome_report_card(channel_id: Seq<char>, ok: bool) -> EmbedView {
    if ok {
        success_card("Success"@).describe(
            "Welcome message sent to "@ + channel_mention(channel_id) + "."@,
        )
    } else {
        error_card("Failed"@).describe(
            "Could not send the message. Make sure the bot has permissions in that channel."@,
        )
    }
}

/// The report of `!welcome`; it is posted as a transient reply, with a check
/// mark after a success.
pub fn welcome_report(channel_id: &str, ok: bool) -> (e: Embed)
    ensures
        e@ == welcome_report_card(channel_id@, ok),
{
    if ok {
        let mut d = chars_of("Welcome message sent to <#");
        append_str(&mut d, channel_id);
        append_str(&mut d, ">.");
        proof {
            reveal_strlit("Welcome message sent to <#");
            reveal_strlit("Welcome message sent to ");
            reveal_strlit(">.");
            reveal_strlit(".");
            assert(d@ =~= "Welcome message sent to "@ + channel_mention(channel_id@) + "."@);
        }
        embed_success("Success").description(string_of(&d))
    } else {
        embed_error("Failed").description_str(
            "Could not send the message. Make sure the bot has permissions in that channel.",
        )
    }
}

} // verus!
