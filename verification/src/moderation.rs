//! The moderation commands `!ban`, `!unban`, `!kick`, `!mute` and `!unmute`:
//! what to do with their arguments, and what to answer afterwards.
use vstd::prelude::*;
use crate::duration::{duration_spec, parse_duration};
use crate::embed::{Embed, EmbedView, embed_error, embed_success, error_card, success_card};
use crate::help::{help, help_reply};
use crate::ids::{extract_id, extract_id_spec, lemma_extract_id_of_mention, opt_view, user_mention};
use crate::text::{
    all_ascii_digits, all_digits, append_str, chars_of, digit_value, is_digit, join, join_from,
    same_as_str, slice, starts_with, string_of, texts, trim,
};
use crate::time::{civil, iso, iso_8601};

verus! {

/// The moderation commands.
#[derive(Clone, Copy, PartialEq, Eq, Structural, Debug)]
pub enum Moderation {
    Ban,
    Unban,
    Kick,
    Mute,
    Unmute,
}

/// The name of the command.
pub open spec fn moderation_name(m: Moderation) -> Seq<char> {
    match m {
        Moderation::Ban => "ban"@,
        Moderation::Unban => "unban"@,
        Moderation::Kick => "kick"@,
        Moderation::Mute => "mute"@,
        Moderation::Unmute => "unmute"@,
    }
}

/// Refusals of `!mute` and `!unmute` are posted as transient moderation replies;
/// those of the other commands as plain replies.
pub open spec fn refusals_transient(m: Moderation) -> bool {
    m == Moderation::Mute || m == Moderation::Unmute
}

/// The parameters from index `start` on, joined with spaces, if there are any.
pub open spec fn reason_from(p: Seq<Seq<char>>, start: int) -> Option<Seq<char>> {
    if p.len() > start {
        Some(join(p.skip(start), " "@))
    } else {
        None
    }
}

/// A number of days of messages for `!ban` to clear: one digit from 0 to 7.
pub open spec fn is_day_count(t: Seq<char>) -> bool {
    t.len() == 1 && '0' <= t[0] && t[0] <= '7'
}

/// The channel that `t` names: a channel mention `<#id>` or a bare id, an id
/// being a non-empty run of ASCII digits.
pub open spec fn channel_ref_spec(t: Seq<char>) -> Option<Seq<char>> {
    if t.len() >= 3 && t[0] == '<' && t[1] == '#' && t[t.len() - 1] == '>' {
        let id = t.subrange(2, t.len() - 1);
        if all_digits(id) && id.len() > 0 {
            Some(id)
        } else {
            None
        }
    } else if all_digits(t) && t.len() > 0 {
        Some(t)
    } else {
        None
    }
}

/// Where the scope argument `t` of `!mute`, posted in the channel `here`, lets
/// the mute apply: `here` in that channel, `everywhere` on the whole server
/// (`Some(None)`), a channel reference in that channel; `None` when `t` is no
/// scope.
pub open spec fn scope_spec(t: Seq<char>, here: Seq<char>) -> Option<Option<Seq<char>>> {
    if t == "here"@ {
        Some(Some(here))
    } else if t == "everywhere"@ {
        Some(None)
    } else {
        match channel_ref_spec(t) {
            Some(c) => Some(Some(c)),
            None => None,
        }
    }
}

/// The length of a ban: its first parameter, when that is a duration with a
/// unit (a bare number counts days of messages instead).
pub open spec fn ban_duration(p: Seq<Seq<char>>) -> Option<u64> {
    if p.len() > 0 && !all_digits(p[0]) {
        duration_spec(p[0])
    } else {
        None
    }
}

/// Where the days-to-clear parameter of `!ban` may stand.
pub open spec fn ban_days_at(p: Seq<Seq<char>>) -> int {
    if ban_duration(p) is Some {
        1
    } else {
        0
    }
}

/// The number of days of messages that `!ban` clears, when given.
pub open spec fn ban_days(p: Seq<Seq<char>>) -> Option<u64> {
    let i = ban_days_at(p);
    if p.len() > i && is_day_count(p[i]) {
        Some(digit_value(p[i][0]) as u64)
    } else {
        None
    }
}

/// Where the reason of `!ban` begins.
pub open spec fn ban_reason_at(p: Seq<Seq<char>>) -> int {
    ban_days_at(p) + if ban_days(p) is Some {
        1int
    } else {
        0int
    }
}

/// The length of a mute: its first parameter, when that is a duration.
pub open spec fn mute_duration(p: Seq<Seq<char>>) -> Option<u64> {
    if p.len() > 0 {
        duration_spec(p[0])
    } else {
        None
    }
}

/// Where the scope parameter of `!mute` may stand.
pub open spec fn mute_scope_at(p: Seq<Seq<char>>) -> int {
    if mute_duration(p) is Some {
        1
    } else {
        0
    }
}

/// The scope given to `!mute` posted in the channel `here`, if any.
pub open spec fn mute_scope(p: Seq<Seq<char>>, here: Seq<char>) -> Option<Option<Seq<char>>> {
    let i = mute_scope_at(p);
    if p.len() > i {
        scope_spec(p[i], here)
    } else {
        None
    }
}

/// The channel that a mute applies to; none for the whole server, which is
/// the default mute mode when no scope is given.
pub open spec fn mute_channel(p: Seq<Seq<char>>, here: Seq<char>) -> Option<Seq<char>> {
    match mute_scope(p, here) {
        Some(c) => c,
        None => None,
    }
}

/// Where the reason of `!mute` begins.
pub open spec fn mute_reason_at(p: Seq<Seq<char>>, here: Seq<char>) -> int {
    mute_scope_at(p) + if mute_scope(p, here) is Some {
        1int
    } else {
        0int
    }
}

/// The end, in ISO 8601, of a timeout of `secs` seconds ordered at `now` (the
/// sum wraps around at 2^64).
pub open spec fn timeout_end(now: u64, secs: u64) -> Seq<char> {
    iso(civil(vstd::wrapping::u64_specs::wrapping_add(now, secs) as nat))
}

/// The end of a timed mute on the whole server; a mute in a channel, or a
/// permanent one, has none.
pub open spec fn mute_until(p: Seq<Seq<char>>, here: Seq<char>, now: u64) -> Option<Seq<char>> {
    match (mute_channel(p, here), mute_duration(p)) {
        (None, Some(secs)) => Some(timeout_end(now, secs)),
        _ => None,
    }
}

/// The channel named by the parameters of `!unmute`; none lifts the mute
/// everywhere.
pub open spec fn unmute_channel(p: Seq<Seq<char>>) -> Option<Seq<char>> {
    if p.len() > 0 {
        channel_ref_spec(p[0])
    } else {
        None
    }
}

/// What a moderation command goes on to do.
pub enum ModPlan {
    /// Post the command's help as a plain reply.
    Help(Embed),
    /// Post `reply` and stop; `transient` replies go through the moderation reply.
    Refuse { reply: Embed, transient: bool },
    /// Look `query` up among the users banned from the guild `guild_id`, and
    /// go on with `resolve_unban`.
    FindBan { guild_id: String, query: String },
    /// Carry the command out.
    Run(ModRequest),
}

/// A moderation action to carry out against `target_id` in the guild `guild_id`.
pub struct ModRequest {
    pub guild_id: String,
    pub target_id: String,
    pub reason: Option<String>,
    /// For a timed ban or mute: its length in seconds.
    pub duration_secs: Option<u64>,
    /// For a timed mute on the whole server: the end of the timeout, in ISO 8601.
    pub until: Option<String>,
    /// For `!mute` and `!unmute`: the channel concerned; none for the whole server.
    pub channel_id: Option<String>,
    /// For `!ban`: the number of days of the member's messages to delete.
    pub delete_days: Option<u64>,
}

/// The value of a `ModRequest`.
pub struct ModRequestView {
    pub guild_id: Seq<char>,
    pub target_id: Seq<char>,
    pub reason: Option<Seq<char>>,
    pub duration_secs: Option<u64>,
    pub until: Option<Seq<char>>,
    pub channel_id: Option<Seq<char>>,
    pub delete_days: Option<u64>,
}

impl View for ModRequest {
    type V = ModRequestView;

    open spec fn view(&self) -> ModRequestView {
        ModRequestView {
            guild_id: self.guild_id@,
            target_id: self.target_id@,
            reason: opt_view(self.reason),
            duration_secs: self.duration_secs,
            until: opt_view(self.until),
            channel_id: opt_view(self.channel_id),
            delete_days: self.delete_days,
        }
    }
}

/// The value of a `ModPlan`.
pub enum ModPlanView {
    Help(EmbedView),
    Refuse(EmbedView, bool),
    FindBan(Seq<char>, Seq<char>),
    Run(ModRequestView),
}

impl View for ModPlan {
    type V = ModPlanView;

    open spec fn view(&self) -> ModPlanView {
        match self {
            ModPlan::Help(e) => ModPlanView::Help(e@),
            ModPlan::Refuse { reply, transient } => ModPlanView::Refuse(reply@, *transient),
            ModPlan::FindBan { guild_id, query } => ModPlanView::FindBan(guild_id@, query@),
            ModPlan::Run(r) => ModPlanView::Run(r@),
        }
    }
}

/// The action that `m` takes in the guild `g` against `t`, with the
/// parameters `p` that follow the member, posted in the channel `here` at
/// UNIX time `now`:
/// - `!ban [duration] [days to clear] [reason]`;
/// - `!kick [reason]`;
/// - `!mute [duration] [here | everywhere | #channel | channel id] [reason]`,
///   on the whole server when no scope is given, permanent when no duration is;
/// - `!unmute [#channel | channel id]`, everywhere when no channel is given;
/// - `!unban`, which takes no parameters.
pub open spec fn request_spec(
    m: Moderation,
    g: Seq<char>,
    t: Seq<char>,
    p: Seq<Seq<char>>,
    here: Seq<char>,
    now: u64,
) -> ModRequestView {
    match m {
        Moderation::Ban => ModRequestView {
            guild_id: g,
            target_id: t,
            reason: reason_from(p, ban_reason_at(p)),
            duration_secs: ban_duration(p),
            until: None,
            channel_id: None,
            delete_days: ban_days(p),
        },
        Moderation::Kick => ModRequestView {
            guild_id: g,
            target_id: t,
            reason: reason_from(p, 0),
            duration_secs: None,
            until: None,
            channel_id: None,
            delete_days: None,
        },
        Moderation::Mute => ModRequestView {
            guild_id: g,
            target_id: t,
            reason: reason_from(p, mute_reason_at(p, here)),
            duration_secs: mute_duration(p),
            until: mute_until(p, here, now),
            channel_id: mute_channel(p, here),
            delete_days: None,
        },
        Moderation::Unmute => ModRequestView {
            guild_id: g,
            target_id: t,
            reason: None,
            duration_secs: None,
            until: None,
            channel_id: unmute_channel(p),
            delete_days: None,
        },
        Moderation::Unban => ModRequestView {
            guild_id: g,
            target_id: t,
            reason: None,
            duration_secs: None,
            until: None,
            channel_id: None,
            delete_days: None,
        },
    }
}

/// Whether the author `replied` of the message that the command answers
/// stands in for the member: for every command but `!unban`, when the member
/// is left out, that is when there are no arguments or the first one names no
/// member (neither a mention `<@…>` nor an id).
pub open spec fn targets_replied(
    m: Moderation,
    args: Seq<Seq<char>>,
    replied: Option<Seq<char>>,
) -> bool {
    m != Moderation::Unban && replied is Some && !(args.len() > 0 && extract_id_spec(args[0]) is Some)
}

/// What the moderation command `m` does with the arguments `args`, posted in
/// the channel `here` of the guild `guild_id` (none in a direct message) at
/// UNIX time `now`, in answer to a message by `replied` (if any): with `?`,
/// or without arguments and without a replied author to act on, it shows its
/// help; outside a guild it refuses; otherwise it acts on the replied author
/// (see `targets_replied`) or on the member that the first argument names,
/// with the parameters that follow; for `!unban` a first argument that is no
/// id is a name to look up among the bans; any other first argument that
/// names no member is refused.
pub open spec fn plan_spec(
    m: Moderation,
    args: Seq<Seq<char>>,
    guild_id: Option<Seq<char>>,
    here: Seq<char>,
    replied: Option<Seq<char>>,
    now: u64,
) -> ModPlanView {
    if (args.len() > 0 && args[0] == "?"@) || (args.len() == 0 && !targets_replied(m, args, replied)) {
        ModPlanView::Help(help_reply(seq![moderation_name(m)]))
    } else {
        match guild_id {
            None => ModPlanView::Refuse(
                error_card("Error"@).describe("This command can only be used in a server."@),
                refusals_transient(m),
            ),
            Some(g) => if targets_replied(m, args, replied) {
                ModPlanView::Run(request_spec(m, g, replied->0, args, here, now))
            } else {
                match extract_id_spec(args[0]) {
                    None => if m == Moderation::Unban {
                        ModPlanView::FindBan(g, args[0])
                    } else {
                        ModPlanView::Refuse(
                            error_card("Invalid Target"@).describe(
                                "Please provide a valid member mention or ID."@,
                            ),
                            refusals_transient(m),
                        )
                    },
                    Some(t) => ModPlanView::Run(request_spec(m, g, t, args.skip(1), here, now)),
                }
            },
        }
    }
}

/// A banned user, as the guild's ban list gives it.
pub struct BanEntry {
    pub user_id: String,
    pub username: String,
    pub discriminator: String,
    pub global_name: Option<String>,
}

/// The value of a `BanEntry`.
pub struct BanEntryView {
    pub user_id: Seq<char>,
    pub username: Seq<char>,
    pub discriminator: Seq<char>,
    pub global_name: Option<Seq<char>>,
}

impl View for BanEntry {
    type V = BanEntryView;

    open spec fn view(&self) -> BanEntryView {
        BanEntryView {
            user_id: self.user_id@,
            username: self.username@,
            discriminator: self.discriminator@,
            global_name: opt_view(self.global_name),
        }
    }
}

/// The values of a list of bans.
pub open spec fn ban_views(bans: Seq<BanEntry>) -> Seq<BanEntryView> {
    bans.map_values(|b: BanEntry| b@)
}

/// Whether `query` names the banned user `b`: by username, by global name,
/// or by tag `username#discriminator`.
pub open spec fn ban_matches(b: BanEntryView, query: Seq<char>) -> bool {
    b.username == query || b.global_name == Some(query) || b.username + seq!['#'] + b.discriminator
        == query
}

/// The id of the first banned user that `query` names.
pub open spec fn first_ban_match(bans: Seq<BanEntryView>, query: Seq<char>) -> Option<Seq<char>>
    decreases bans.len(),
{
    if bans.len() == 0 {
        None
    } else if ban_matches(bans[0], query) {
        Some(bans[0].user_id)
    } else {
        first_ban_match(bans.drop_first(), query)
    }
}

/// `!unban <name>` in the guild `g`, given the guild's bans: it unbans the
/// first banned user that the name matches, and refuses when none does.
pub open spec fn resolve_unban_spec(
    g: Seq<char>,
    bans: Seq<BanEntryView>,
    query: Seq<char>,
) -> ModPlanView {
    match first_ban_match(bans, query) {
        Some(id) => ModPlanView::Run(request_spec(Moderation::Unban, g, id, seq![], seq![], 0)),
        None => ModPlanView::Refuse(
            error_card("Invalid Target"@).describe("Please provide a valid user ID or username."@),
            false,
        ),
    }
}

/// The name of the command.
pub fn moderation_name_str(m: Moderation) -> (r: &'static str)
    ensures
        r@ == moderation_name(m),
{
    match m {
        Moderation::Ban => "ban",
        Moderation::Unban => "unban",
        Moderation::Kick => "kick",
        Moderation::Mute => "mute",
        Moderation::Unmute => "unmute",
    }
}

/// The number of days that `t` gives `!ban` to clear, if it is one.
pub fn day_count(t: &str) -> (r: Option<u64>)
    ensures
        r == (if is_day_count(t@) {
            Some(digit_value(t@[0]) as u64)
        } else {
            None::<u64>
        }),
{
    let v = chars_of(t);
    if v.len() == 1 && '0' <= v[0] && v[0] <= '7' {
        Some((v[0] as u32 - '0' as u32) as u64)
    } else {
        None
    }
}

/// The channel that `t` names, if it is a channel mention or an id.
pub fn channel_ref(t: &str) -> (r: Option<String>)
    ensures
        opt_view(r) == channel_ref_spec(t@),
{
    let v = chars_of(t);
    let n = v.len();
    if n >= 3 && v[0] == '<' && v[1] == '#' && v[n - 1] == '>' {
        let id = slice(&v, 2, n - 1);
        if id.len() > 0 && all_ascii_digits(&id) {
            Some(string_of(&id))
        } else {
            None
        }
    } else if n > 0 && all_ascii_digits(&v) {
        Some(string_of(&v))
    } else {
        None
    }
}

/// Where the scope argument `t` of `!mute`, posted in the channel `here`, lets
/// the mute apply.
pub fn mute_scope_of(t: &str, here: &String) -> (r: Option<Option<String>>)
    ensures
        (match r {
            Some(c) => Some(opt_view(c)),
            None => None,
        }) == scope_spec(t@, here@),
{
    let v = chars_of(t);
    proof {
        reveal_strlit("here");
        reveal_strlit("everywhere");
    }
    if same_as_str(&v, "here") {
        Some(Some(here.clone()))
    } else if same_as_str(&v, "everywhere") {
        Some(None)
    } else {
        match channel_ref(t) {
            Some(c) => Some(Some(c)),
            None => None,
        }
    }
}

/// The end, in ISO 8601, of a timeout of `secs` seconds ordered at `now`.
pub fn mute_end(now: u64, secs: u64) -> (r: String)
    ensures
        r@ == timeout_end(now, secs),
{
    iso_8601(now.wrapping_add(secs))
}

/// The parameters from index `start` of `args` on, joined with spaces.
fn reason_at(args: &Vec<String>, start: usize) -> (r: Option<String>)
    ensures
        opt_view(r) == reason_from(texts(args@), start as int),
{
    if start < args.len() {
        Some(join_from(args, start, " "))
    } else {
        None
    }
}

proof fn lemma_skip_skip(s: Seq<Seq<char>>, a: int, b: int)
    requires
        0 <= a <= s.len(),
        0 <= b,
    ensures
        reason_from(s.skip(a), b) == reason_from(s, a + b),
{
    if s.skip(a).len() > b {
        assert(s.skip(a).skip(b) =~= s.skip(a + b));
    }
}

/// The action that `m` takes in the guild `g` against `t`, with the
/// parameters `args[base..]`, posted in the channel `here` at UNIX time `now`.
pub fn request(
    m: Moderation,
    g: String,
    t: String,
    args: &Vec<String>,
    base: usize,
    here: &String,
    now: u64,
) -> (r: ModRequest)
    requires
        base <= args.len(),
    ensures
        r@ == request_spec(m, g@, t@, texts(args@).skip(base as int), here@, now),
{
    let ghost p = texts(args@).skip(base as int);
    assert forall|k: int| 0 <= k < p.len() implies #[trigger] p[k] == args@[base + k]@ by {}
    let mut i: usize = base;
    match m {
        Moderation::Ban => {
            let mut duration: Option<u64> = None;
            if i < args.len() && !all_ascii_digits(&chars_of(args[i].as_str())) {
                duration = parse_duration(args[i].as_str());
                if duration.is_some() {
                    i = i + 1;
                }
            }
            assert(duration == ban_duration(p));
            assert(i - base == ban_days_at(p));
            let mut days: Option<u64> = None;
            if i < args.len() {
                days = day_count(args[i].as_str());
                if days.is_some() {
                    i = i + 1;
                }
            }
            assert(days == ban_days(p));
            assert(i - base == ban_reason_at(p));
            let reason = reason_at(args, i);
            proof {
                lemma_skip_skip(texts(args@), base as int, ban_reason_at(p));
            }
            ModRequest {
                guild_id: g,
                target_id: t,
                reason,
                duration_secs: duration,
                until: None,
                channel_id: None,
                delete_days: days,
            }
        },
        Moderation::Kick => {
            let reason = reason_at(args, i);
            proof {
                lemma_skip_skip(texts(args@), base as int, 0);
            }
            ModRequest {
                guild_id: g,
                target_id: t,
                reason,
                duration_secs: None,
                until: None,
                channel_id: None,
                delete_days: None,
            }
        },
        Moderation::Mute => {
            let mut duration: Option<u64> = None;
            if i < args.len() {
                duration = parse_duration(args[i].as_str());
                if duration.is_some() {
                    i = i + 1;
                }
            }
            assert(duration == mute_duration(p));
            assert(i - base == mute_scope_at(p));
            let mut scope: Option<Option<String>> = None;
            if i < args.len() {
                scope = mute_scope_of(args[i].as_str(), here);
                if scope.is_some() {
                    i = i + 1;
                }
            }
            assert(i - base == mute_reason_at(p, here@));
            let channel: Option<String> = match scope {
                Some(c) => c,
                None => None,
            };
            assert(opt_view(channel) == mute_channel(p, here@));
            let until = match (&channel, duration) {
                (None, Some(secs)) => Some(mute_end(now, secs)),
                _ => None,
            };
            let reason = reason_at(args, i);
            proof {
                lemma_skip_skip(texts(args@), base as int, mute_reason_at(p, here@));
            }
            ModRequest {
                guild_id: g,
                target_id: t,
                reason,
                duration_secs: duration,
                until,
                channel_id: channel,
                delete_days: None,
            }
        },
        Moderation::Unmute => {
            let channel = if i < args.len() {
                channel_ref(args[i].as_str())
            } else {
                None
            };
            ModRequest {
                guild_id: g,
                target_id: t,
                reason: None,
                duration_secs: None,
                until: None,
                channel_id: channel,
                delete_days: None,
            }
        },
        Moderation::Unban => ModRequest {
            guild_id: g,
            target_id: t,
            reason: None,
            duration_secs: None,
            until: None,
            channel_id: None,
            delete_days: None,
        },
    }
}

/// What the moderation command `m` does with `args`, posted in the channel
/// `channel_id` of the guild `guild_id` at time `now`, in answer to a message
/// by `replied_author` if any.
pub fn plan_moderation(
    m: Moderation,
    args: &Vec<String>,
    guild_id: Option<String>,
    channel_id: &String,
    replied_author: Option<String>,
    now: u64,
) -> (r: ModPlan)
    ensures
        r@ == plan_spec(
            m,
            texts(args@),
            opt_view(guild_id),
            channel_id@,
            opt_view(replied_author),
            now,
        ),
{
    let ghost a = texts(args@);
    let question = args.len() > 0 && same_as_str(&chars_of(args[0].as_str()), "?");
    let first_id: Option<String> = if args.len() > 0 {
        extract_id(args[0].as_str())
    } else {
        None
    };
    proof {
        if args.len() > 0 {
            assert(a[0] == args@[0]@);
        }
    }
    let replied = m != Moderation::Unban && replied_author.is_some() && first_id.is_none();
    assert(replied == targets_replied(m, a, opt_view(replied_author)));
    if question || (args.len() == 0 && !replied) {
        let mut h: Vec<String> = Vec::new();
        h.push(crate::embed::owned(moderation_name_str(m)));
        assert(texts(h@) =~= seq![moderation_name(m)]);
        return ModPlan::Help(help(&h));
    }
    let transient = m == Moderation::Mute || m == Moderation::Unmute;
    let g = match guild_id {
        None => {
            return ModPlan::Refuse {
                reply: embed_error("Error").description_str(
                    "This command can only be used in a server.",
                ),
                transient,
            };
        },
        Some(g) => g,
    };
    if replied {
        let t = replied_author.unwrap();
        assert(texts(args@).skip(0) =~= texts(args@));
        return ModPlan::Run(request(m, g, t, args, 0, channel_id, now));
    }
    match first_id {
        None => {
            if m == Moderation::Unban {
                ModPlan::FindBan { guild_id: g, query: args[0].clone() }
            } else {
                ModPlan::Refuse {
                    reply: embed_error("Invalid Target").description_str(
                        "Please provide a valid member mention or ID.",
                    ),
                    transient,
                }
            }
        },
        Some(t) => ModPlan::Run(request(m, g, t, args, 1, channel_id, now)),
    }
}

/// The id of the first of `bans` that `query` names.
pub fn find_ban(bans: &Vec<BanEntry>, query: &str) -> (r: Option<String>)
    ensures
        opt_view(r) == first_ban_match(ban_views(bans@), query@),
{
    let q = chars_of(query);
    let ghost all = ban_views(bans@);
    let mut i: usize = 0;
    assert(all.skip(0) =~= all);
    while i < bans.len()
        invariant
            i <= bans.len(),
            q@ == query@,
            all == ban_views(bans@),
            first_ban_match(all, q@) == first_ban_match(all.skip(i as int), q@),
        decreases bans.len() - i,
    {
        let b = &bans[i];
        let by_name = same_as_str(&q, b.username.as_str());
        let by_global = match &b.global_name {
            Some(n) => same_as_str(&q, n.as_str()),
            None => false,
        };
        let mut tag = chars_of(b.username.as_str());
        append_str(&mut tag, "#");
        append_str(&mut tag, b.discriminator.as_str());
        let by_tag = same_as_str(&q, string_of(&tag).as_str());
        proof {
            reveal_strlit("#");
            assert("#"@ =~= seq!['#']);
            assert(all.skip(i as int)[0] == b@);
            assert(all.skip(i as int).drop_first() =~= all.skip(i + 1));
        }
        if by_name || by_global || by_tag {
            return Some(b.user_id.clone());
        }
        i = i + 1;
    }
    None
}

/// `!unban <query>` in the guild `guild_id`, given the guild's `bans`: the
/// first banned user that `query` names is unbanned; none named is refused.
pub fn resolve_unban(guild_id: String, bans: &Vec<BanEntry>, query: &str) -> (r: ModPlan)
    ensures
        r@ == resolve_unban_spec(guild_id@, ban_views(bans@), query@),
{
    match find_ban(bans, query) {
        Some(id) => ModPlan::Run(
            ModRequest {
                guild_id,
                target_id: id,
                reason: None,
                duration_secs: None,
                until: None,
                channel_id: None,
                delete_days: None,
            },
        ),
        None => ModPlan::Refuse {
            reply: embed_error("Invalid Target").description_str(
                "Please provide a valid user ID or username.",
            ),
            transient: false,
        },
    }
}

/// The report after the moderation command `m` was carried out against
/// `target` with `reason`, successfully or not.
pub open spec fn outcome_card(
    m: Moderation,
    target: Seq<char>,
    reason: Option<Seq<char>>,
    ok: bool,
) -> EmbedView {
    let verb = match m {
        Moderation::Ban => "Banned "@,
        Moderation::Unban => "Unbanned "@,
        Moderation::Kick => "Kicked "@,
        Moderation::Mute => "Muted "@,
        Moderation::Unmute => "Unmuted "@,
    };
    let done = verb + user_mention(target) + "."@;
    if ok {
        let title = match m {
            Moderation::Ban => "Member Banned"@,
            Moderation::Unban => "Member Unbanned"@,
            Moderation::Kick => "Member Kicked"@,
            Moderation::Mute => "Member Muted"@,
            Moderation::Unmute => "Member Unmuted"@,
        };
        let text = match reason {
            Some(r) => if m == Moderation::Ban || m == Moderation::Kick || m == Moderation::Mute {
                done + "\n**Reason:** "@ + r
            } else {
                done
            },
            None => done,
        };
        success_card(title).describe(text)
    } else {
        match m {
            Moderation::Ban => error_card("Failed to Ban"@).describe(
                "Make sure the bot has permissions and the user's role is lower than the bot's."@,
            ),
            Moderation::Unban => error_card("Failed to Unban"@).describe(
                "Make sure the bot has permissions or the user is actually banned."@,
            ),
            Moderation::Kick => error_card("Failed to Kick"@).describe(
                "Make sure the bot has permissions and the user's role is lower than the bot's."@,
            ),
            Moderation::Mute => error_card("Failed to Mute"@).describe(
                "Make sure the bot has permissions (Timeout Members)."@,
            ),
            Moderation::Unmute => error_card("Failed to Unmute"@).describe(
                "Make sure the bot has permissions."@,
            ),
        }
    }
}

/// The report after the moderation command `m` ran against `target` with
/// `reason`; `ok` tells whether the guild accepted it. A success is posted as
/// a transient reply with a check mark, a failure without.
pub fn outcome(m: Moderation, target: &str, reason: &Option<String>, ok: bool) -> (e: Embed)
    ensures
        e@ == outcome_card(m, target@, opt_view(*reason), ok),
{
    if ok {
        let verb = match m {
            Moderation::Ban => "Banned ",
            Moderation::Unban => "Unbanned ",
            Moderation::Kick => "Kicked ",
            Moderation::Mute => "Muted ",
            Moderation::Unmute => "Unmuted ",
        };
        let title = match m {
            Moderation::Ban => "Member Banned",
            Moderation::Unban => "Member Unbanned",
            Moderation::Kick => "Member Kicked",
            Moderation::Mute => "Member Muted",
            Moderation::Unmute => "Member Unmuted",
        };
        let mut text = chars_of(verb);
        append_str(&mut text, "<@");
        append_str(&mut text, target);
        append_str(&mut text, ">.");
        assert(text@ =~= verb@ + user_mention(target@) + "."@) by {
            reveal_strlit("<@");
            reveal_strlit(">.");
            reveal_strlit(".");
        }
        if m == Moderation::Ban || m == Moderation::Kick || m == Moderation::Mute {
            match reason {
                Some(r) => {
                    append_str(&mut text, "\n**Reason:** ");
                    append_str(&mut text, r.as_str());
                },
                None => {},
            }
        }
        embed_success(title).description(string_of(&text))
    } else {
        match m {
            Moderation::Ban => embed_error("Failed to Ban").description_str(
                "Make sure the bot has permissions and the user's role is lower than the bot's.",
            ),
            Moderation::Unban => embed_error("Failed to Unban").description_str(
                "Make sure the bot has permissions or the user is actually banned.",
            ),
            Moderation::Kick => embed_error("Failed to Kick").description_str(
                "Make sure the bot has permissions and the user's role is lower than the bot's.",
            ),
            Moderation::Mute => embed_error("Failed to Mute").description_str(
                "Make sure the bot has permissions (Timeout Members).",
            ),
            Moderation::Unmute => embed_error("Failed to Unmute").description_str(
                "Make sure the bot has permissions.",
            ),
        }
    }
}


/// In a guild, a moderation command whose first argument mentions a member
/// (`<@id>`) is carried out against that member, in that guild, whether or not
/// it answers a message.
pub proof fn lemma_mention_targets_member(
    m: Moderation,
    id: Seq<char>,
    rest: Seq<Seq<char>>,
    guild_id: Seq<char>,
    here: Seq<char>,
    replied: Option<Seq<char>>,
    now: u64,
)
    requires
        all_digits(id),
        id.len() > 0,
    ensures
        plan_spec(m, seq![user_mention(id)] + rest, Some(guild_id), here, replied, now) matches ModPlanView::Run(r)
            && r.guild_id == guild_id && r.target_id == id,
{
    lemma_extract_id_of_mention(id);
    let args = seq![user_mention(id)] + rest;
    assert(args[0] == user_mention(id));
    reveal_strlit("?");
    assert(args[0] != "?"@) by {
        assert(user_mention(id).len() != "?"@.len());
    }
}

/// In a guild, a moderation command whose first argument names a member, as a
/// mention or as an id, is carried out against that member, also when it
/// answers another user's message.
pub proof fn lemma_named_member_wins(
    m: Moderation,
    args: Seq<Seq<char>>,
    t: Seq<char>,
    guild_id: Seq<char>,
    here: Seq<char>,
    replied: Option<Seq<char>>,
    now: u64,
)
    requires
        args.len() > 0,
        extract_id_spec(args[0]) == Some(t),
    ensures
        plan_spec(m, args, Some(guild_id), here, replied, now) matches ModPlanView::Run(r)
            && r.guild_id == guild_id && r.target_id == t,
{
    reveal_strlit("?");
    if args[0] == "?"@ {
        assert(args[0] =~= seq!['?']);
        assert(trim(seq!['?']) =~= seq!['?']) by {
            reveal_with_fuel(crate::text::trim_start, 2);
            reveal_with_fuel(crate::text::trim_end, 2);
            assert(seq!['?'].drop_first() =~= Seq::<char>::empty());
            assert(seq!['?'].drop_last() =~= Seq::<char>::empty());
        }
        assert(!is_digit(seq!['?'][0]));
        assert(!starts_with(seq!['?'], seq!['<', '@']));
    }
}

/// `!mute <member> <duration>` with no channel scope after the duration (no
/// scope at all, `everywhere`, or a reason that names no channel) is a timeout
/// on the whole server that ends `duration` after `now` (the sum wraps around
/// at 2^64): it always has an end.
pub proof fn lemma_timed_mute_has_end(
    args: Seq<Seq<char>>,
    t: Seq<char>,
    g: Seq<char>,
    here: Seq<char>,
    replied: Option<Seq<char>>,
    now: u64,
    secs: u64,
)
    requires
        args.len() >= 2,
        extract_id_spec(args[0]) == Some(t),
        duration_spec(args[1]) == Some(secs),
        args.len() == 2 || (args[2] != "here"@ && channel_ref_spec(args[2]) is None),
    ensures
        plan_spec(Moderation::Mute, args, Some(g), here, replied, now) matches ModPlanView::Run(r)
            && r.guild_id == g && r.target_id == t && r.duration_secs == Some(secs)
            && r.channel_id is None && r.until == Some(
            iso(civil(vstd::wrapping::u64_specs::wrapping_add(now, secs) as nat)),
        ),
{
    lemma_named_member_wins(Moderation::Mute, args, t, g, here, replied, now);
    let p = args.skip(1);
    assert(p[0] == args[1]);
    if args.len() > 2 {
        assert(p[1] == args[2]);
    }
}

/// `!mute <member> <duration> here` mutes the member in the channel the
/// command was posted in, for that duration, with no server-wide timeout.
pub proof fn lemma_timed_mute_here(
    args: Seq<Seq<char>>,
    t: Seq<char>,
    g: Seq<char>,
    here: Seq<char>,
    replied: Option<Seq<char>>,
    now: u64,
    secs: u64,
)
    requires
        args.len() >= 3,
        extract_id_spec(args[0]) == Some(t),
        duration_spec(args[1]) == Some(secs),
        args[2] == "here"@,
    ensures
        plan_spec(Moderation::Mute, args, Some(g), here, replied, now) matches ModPlanView::Run(r)
            && r.target_id == t && r.duration_secs == Some(secs) && r.channel_id == Some(here)
            && r.until is None,
{
    lemma_named_member_wins(Moderation::Mute, args, t, g, here, replied, now);
    let p = args.skip(1);
    assert(p[0] == args[1]);
    assert(p[1] == args[2]);
}

/// `!ban <member> <duration> <days> [reason…]`, with a duration that carries a
/// unit and a days count from 0 to 7, bans the member for that long, clears
/// that many days of their messages, and gives the remaining words, joined
/// with spaces, as the reason.
pub proof fn lemma_timed_ban(
    args: Seq<Seq<char>>,
    t: Seq<char>,
    g: Seq<char>,
    here: Seq<char>,
    replied: Option<Seq<char>>,
    now: u64,
    secs: u64,
)
    requires
        args.len() >= 3,
        extract_id_spec(args[0]) == Some(t),
        !all_digits(args[1]),
        duration_spec(args[1]) == Some(secs),
        args[2].len() == 1,
        '0' <= args[2][0] <= '7',
    ensures
        plan_spec(Moderation::Ban, args, Some(g), here, replied, now) matches ModPlanView::Run(r)
            && r.target_id == t && r.duration_secs == Some(secs) && r.delete_days == Some(
            (args[2][0] as int - '0' as int) as u64,
        ) && r.reason == (if args.len() > 3 {
            Some(join(args.skip(3), " "@))
        } else {
            None::<Seq<char>>
        }) && r.until is None && r.channel_id is None,
{
    lemma_named_member_wins(Moderation::Ban, args, t, g, here, replied, now);
    let p = args.skip(1);
    assert(p[0] == args[1]);
    assert(p[1] == args[2]);
    assert(p.skip(2) =~= args.skip(3));
}

/// `!kick <member> [reason…]` kicks the member and gives every word after the
/// member, joined with spaces, as the reason.
pub proof fn lemma_kick_reason(
    args: Seq<Seq<char>>,
    t: Seq<char>,
    g: Seq<char>,
    here: Seq<char>,
    replied: Option<Seq<char>>,
    now: u64,
)
    requires
        args.len() >= 1,
        extract_id_spec(args[0]) == Some(t),
    ensures
        plan_spec(Moderation::Kick, args, Some(g), here, replied, now) matches ModPlanView::Run(r)
            && r.guild_id == g && r.target_id == t && r.reason == (if args.len() > 1 {
            Some(join(args.skip(1), " "@))
        } else {
            None::<Seq<char>>
        }) && r.duration_secs is None && r.delete_days is None,
{
    lemma_named_member_wins(Moderation::Kick, args, t, g, here, replied, now);
    assert(args.skip(1).skip(0) =~= args.skip(1));
}

} // verus!
