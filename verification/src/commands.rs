//! Reading a command out of a message, and the replies of the simple commands.
use vstd::prelude::*;
use crate::embed::{
    Embed, EmbedView, PREFIX, embed, embed_error, embed_image, error_card, picture_card,
    plain_card,
};
use crate::external::{guild_icon_url, guild_icon_url_spec, snowflake_millis, snowflake_timestamp};
use crate::help::help_entry;
use crate::time::{civil, dotted, time_from_secs};
use crate::text::{Sep, is_sep, is_ws, join, lemma_join_ends, lemma_non_empty_keeps, lemma_split_join, non_empty, split, trim_end, trim_start, parse_u64, parse_u64_spec, 
    append, append_str, chars_of, dec, decimal, has_prefix, same_as_str, starts_with,
    string_of, strings_of, strip_leading, strip_leading_chars, texts, trim, trim_chars, views,
    words, words_of,
};

verus! {

/// The command name and arguments in a message text: the trimmed text must
/// start with the prefix; all leading prefixes are dropped and the rest is
/// split into words, the first of which names the command (empty when there
/// is no word).
pub open spec fn command_of(content: Seq<char>) -> Option<(Seq<char>, Seq<Seq<char>>)> {
    let c = trim(content);
    if !starts_with(c, PREFIX@) {
        None
    } else {
        let w = words(strip_leading(c, PREFIX@));
        if w.len() == 0 {
            Some((Seq::empty(), Seq::empty()))
        } else {
            Some((w[0], w.drop_first()))
        }
    }
}

/// The command name and arguments in the message text `content`, or `None`
/// when the text does not start with the prefix.
pub fn parse_command(content: &str) -> (r: Option<(String, Vec<String>)>)
    ensures
        r matches Some(p) ==> command_of(content@) == Some((p.0@, texts(p.1@))),
        r is None ==> command_of(content@) is None,
{
    let v = chars_of(content);
    let c = trim_chars(&v);
    let p = chars_of(PREFIX);
    if !has_prefix(&c, &p) {
        return None;
    }
    let rest = strip_leading_chars(&c, &p);
    let w = words_of(&rest);
    if w.len() == 0 {
        let r = (String::new(), Vec::new());
        assert(texts(r.1@) =~= Seq::<Seq<char>>::empty());
        return Some(r);
    }
    let name = string_of(&w[0]);
    let mut args: Vec<Vec<char>> = Vec::new();
    let mut i: usize = 1;
    while i < w.len()
        invariant
            1 <= i <= w.len(),
            views(args@) == views(w@).subrange(1, i as int),
        decreases w.len() - i,
    {
        let ghost before = views(args@);
        args.push(w[i].clone());
        assert(views(args@) =~= before.push(w@[i as int]@));
        assert(views(w@)[i as int] == w@[i as int]@);
        assert(views(args@) =~= views(w@).subrange(1, i + 1));
        i = i + 1;
    }
    assert(views(w@).drop_first() =~= views(w@).subrange(1, w.len() as int));
    let strs = strings_of(&args);
    Some((name, strs))
}

/// A message made of the prefix and of words separated by single spaces,
/// the first of which does not start with the prefix, is read as the command
/// its first word names, with the other words as arguments.
pub proof fn lemma_command_round_trip(name: Seq<char>, args: Seq<Seq<char>>)
    requires
        name.len() > 0,
        name[0] != '!',
        forall|i: int| 0 <= i < name.len() ==> !is_ws(#[trigger] name[i]),
        forall|k: int| 0 <= k < args.len() ==> #[trigger] args[k].len() > 0,
        forall|k: int, i: int| 0 <= k < args.len() && 0 <= i < args[k].len() ==> !is_ws(#[trigger] args[k][i]),
    ensures
        command_of(PREFIX@ + join(seq![name] + args, seq![' '])) == Some((name, args)),
{
    reveal_strlit("!");
    let ws = seq![name] + args;
    assert(ws[0] == name);
    assert forall|k: int| 0 <= k < ws.len() implies #[trigger] ws[k].len() > 0 by {
        if k > 0 {
            assert(ws[k] == args[k - 1]);
        }
    }
    assert forall|k: int, i: int| 0 <= k < ws.len() && 0 <= i < ws[k].len() implies !is_sep(Sep::Whitespace, #[trigger] ws[k][i]) by {
        if k > 0 {
            assert(ws[k] == args[k - 1]);
        }
    }
    let j = join(ws, seq![' ']);
    lemma_join_ends(ws, seq![' ']);
    let content = PREFIX@ + j;
    assert(PREFIX@ =~= seq!['!']);
    assert(content[0] == '!');
    assert(content.last() == ws.last().last());
    let lw = ws[ws.len() - 1];
    assert(!is_ws(lw[lw.len() - 1]));
    assert(trim_start(content) == content);
    assert(trim_end(content) == content);
    assert(starts_with(content, PREFIX@)) by {
        assert(content.take(1) =~= seq!['!']);
    }
    assert(content.skip(1) =~= j);
    assert(!starts_with(j, PREFIX@)) by {
        if starts_with(j, PREFIX@) {
            assert(j.take(1)[0] == '!');
        }
    }
    assert(strip_leading(j, PREFIX@) == j);
    assert(content.skip(PREFIX@.len() as int) =~= j);
    assert(strip_leading(content, PREFIX@) == j);
    lemma_split_join(ws, Sep::Whitespace, ' ');
    lemma_non_empty_keeps(ws);
    assert(words(j) == ws);
    assert(ws.drop_first() =~= args);
}

/// The commands the bot knows.
#[derive(Clone, Copy, PartialEq, Eq, Structural, Debug)]
pub enum Command {
    Ping,
    Help,
    Dog,
    Cat,
    Fox,
    Duck,
    Avatar,
    ServerInfo,
    Clear,
    Ban,
    Unban,
    Kick,
    Mute,
    Unmute,
    Welcome,
    Greet,
}

/// The command called `name`, if there is one (`greet` is also called `greeting`).
pub open spec fn command_named_spec(name: Seq<char>) -> Option<Command> {
    if name == "ping"@ {
        Some(Command::Ping)
    } else if name == "help"@ {
        Some(Command::Help)
    } else if name == "dog"@ {
        Some(Command::Dog)
    } else if name == "cat"@ {
        Some(Command::Cat)
    } else if name == "fox"@ {
        Some(Command::Fox)
    } else if name == "duck"@ {
        Some(Command::Duck)
    } else if name == "avatar"@ {
        Some(Command::Avatar)
    } else if name == "serverinfo"@ {
        Some(Command::ServerInfo)
    } else if name == "clear"@ {
        Some(Command::Clear)
    } else if name == "ban"@ {
        Some(Command::Ban)
    } else if name == "unban"@ {
        Some(Command::Unban)
    } else if name == "kick"@ {
        Some(Command::Kick)
    } else if name == "mute"@ {
        Some(Command::Mute)
    } else if name == "unmute"@ {
        Some(Command::Unmute)
    } else if name == "welcome"@ {
        Some(Command::Welcome)
    } else if name == "greet"@ || name == "greeting"@ {
        Some(Command::Greet)
    } else {
        None
    }
}


/// Different names name different commands; only `greet` has a second name,
/// `greeting`.
pub proof fn lemma_command_names_distinct(a: Seq<char>, b: Seq<char>)
    requires
        command_named_spec(a) is Some,
        command_named_spec(a) == command_named_spec(b),
        command_named_spec(a) != Some(Command::Greet),
    ensures
        a == b,
{
}

/// Each moderation command is reached under its own name: `!ban` runs the
/// ban, `!unban` the unban, `!kick` the kick, `!mute` the mute and `!unmute`
/// the unmute.
pub proof fn lemma_moderation_names()
    ensures
        command_named_spec("ban"@) == Some(Command::Ban),
        command_named_spec("unban"@) == Some(Command::Unban),
        command_named_spec("kick"@) == Some(Command::Kick),
        command_named_spec("mute"@) == Some(Command::Mute),
        command_named_spec("unmute"@) == Some(Command::Unmute),
{
    reveal_strlit("ping");
    reveal_strlit("help");
    reveal_strlit("dog");
    reveal_strlit("cat");
    reveal_strlit("fox");
    reveal_strlit("duck");
    reveal_strlit("avatar");
    reveal_strlit("serverinfo");
    reveal_strlit("clear");
    reveal_strlit("ban");
    reveal_strlit("unban");
    reveal_strlit("kick");
    reveal_strlit("mute");
    reveal_strlit("unmute");
    assert("ping"@.len() == 4 && "ping"@[0] == 'p');
    assert("help"@.len() == 4 && "help"@[0] == 'h');
    assert("dog"@.len() == 3 && "dog"@[0] == 'd');
    assert("cat"@.len() == 3 && "cat"@[0] == 'c');
    assert("fox"@.len() == 3 && "fox"@[0] == 'f');
    assert("duck"@.len() == 4 && "duck"@[0] == 'd');
    assert("avatar"@.len() == 6 && "avatar"@[0] == 'a');
    assert("serverinfo"@.len() == 10 && "serverinfo"@[0] == 's');
    assert("clear"@.len() == 5 && "clear"@[0] == 'c');
    assert("ban"@.len() == 3 && "ban"@[0] == 'b');
    assert("unban"@.len() == 5 && "unban"@[0] == 'u');
    assert("kick"@.len() == 4 && "kick"@[0] == 'k');
    assert("mute"@.len() == 4 && "mute"@[0] == 'm');
    assert("unmute"@.len() == 6 && "unmute"@[0] == 'u');
}

/// The command called `name`, if there is one.
pub fn command_named(name: &str) -> (r: Option<Command>)
    ensures
        r == command_named_spec(name@),
{
    let n = chars_of(name);
    if same_as_str(&n, "ping") {
        Some(Command::Ping)
    } else if same_as_str(&n, "help") {
        Some(Command::Help)
    } else if same_as_str(&n, "dog") {
        Some(Command::Dog)
    } else if same_as_str(&n, "cat") {
        Some(Command::Cat)
    } else if same_as_str(&n, "fox") {
        Some(Command::Fox)
    } else if same_as_str(&n, "duck") {
        Some(Command::Duck)
    } else if same_as_str(&n, "avatar") {
        Some(Command::Avatar)
    } else if same_as_str(&n, "serverinfo") {
        Some(Command::ServerInfo)
    } else if same_as_str(&n, "clear") {
        Some(Command::Clear)
    } else if same_as_str(&n, "ban") {
        Some(Command::Ban)
    } else if same_as_str(&n, "unban") {
        Some(Command::Unban)
    } else if same_as_str(&n, "kick") {
        Some(Command::Kick)
    } else if same_as_str(&n, "mute") {
        Some(Command::Mute)
    } else if same_as_str(&n, "unmute") {
        Some(Command::Unmute)
    } else if same_as_str(&n, "welcome") {
        Some(Command::Welcome)
    } else if same_as_str(&n, "greet") || same_as_str(&n, "greeting") {
        Some(Command::Greet)
    } else {
        None
    }
}

/// The arguments ask for the command's help: the first one is `?`.
pub open spec fn asks_help(args: Seq<Seq<char>>) -> bool {
    args.len() > 0 && args[0] == "?"@
}

/// Whether the first argument is `?`.
pub fn is_help_request(args: &Vec<String>) -> (r: bool)
    ensures
        r == asks_help(texts(args@)),
{
    if args.len() == 0 {
        return false;
    }
    let a = chars_of(args[0].as_str());
    same_as_str(&a, "?")
}

/// The `!ping` reply once the round trip took `ms` milliseconds.
pub open spec fn latency_card(ms: nat) -> EmbedView {
    plain_card("Pong! 🏓"@).field("Latency"@, dec(ms) + " ms"@, true)
}

/// The `!ping` reply once the round trip took `ms` milliseconds.
pub fn latency_embed(ms: u64) -> (e: Embed)
    ensures
        e@ == latency_card(ms as nat),
{
    let mut v = decimal(ms);
    append_str(&mut v, " ms");
    embed("Pong! 🏓").field("Latency", string_of(&v), true)
}

/// The `!avatar` reply: the picture at `url` of the user called `username`.
pub open spec fn avatar_card(username: Seq<char>, url: Seq<char>) -> EmbedView {
    picture_card(username + "'s avatar"@, url)
}

/// The `!avatar` reply for the user called `username` whose avatar is at `url`.
pub fn avatar_embed(username: &str, url: &str) -> (e: Embed)
    ensures
        e@ == avatar_card(username@, url@),
{
    let mut t = chars_of(username);
    append_str(&mut t, "'s avatar");
    let title = string_of(&t);
    embed_image(title.as_str(), url)
}

/// A user as the commands see one.
pub struct UserInfo {
    pub id: String,
    pub username: String,
    /// The avatar hash, when the user has an avatar.
    pub avatar: Option<String>,
}

/// The `!avatar` reply: the first mentioned user's avatar, else the author's.
pub open spec fn avatar_reply_card(mentions: Seq<UserInfo>, author: UserInfo) -> EmbedView {
    let u = if mentions.len() > 0 {
        mentions[0]
    } else {
        author
    };
    avatar_card(
        u.username@,
        crate::external::display_avatar_url_spec(u.id@, crate::embed::opt_text(u.avatar)),
    )
}

/// The `!avatar` reply for a message by `author` that mentions `mentions`.
pub fn avatar_reply(mentions: &Vec<UserInfo>, author: &UserInfo) -> (e: Embed)
    ensures
        e@ == avatar_reply_card(mentions@, *author),
{
    let u = if mentions.len() > 0 {
        &mentions[0]
    } else {
        author
    };
    let url = crate::external::display_avatar_url(u.id.as_str(), &u.avatar);
    avatar_embed(u.username.as_str(), url.as_str())
}

/// The reply to `!serverinfo` outside a guild (a plain text message).
pub const SERVER_ONLY: &'static str = "This command only works in a server.";

/// The help card of `!serverinfo`.
pub open spec fn serverinfo_help_card() -> EmbedView {
    plain_card("!serverinfo"@).describe("Shows information about the current server."@).field(
        "Usage"@,
        "`!serverinfo`"@,
        false,
    )
}

/// The help card of `!serverinfo`.
pub fn serverinfo_help() -> (e: Embed)
    ensures
        e@ == serverinfo_help_card(),
{
    embed("!serverinfo").description_str("Shows information about the current server.").field_str(
        "Usage",
        "`!serverinfo`",
        false,
    )
}

/// `!help serverinfo` shows the same card as `!serverinfo ?`.
pub proof fn lemma_serverinfo_help_agrees()
    ensures
        help_entry("serverinfo"@) == Some(serverinfo_help_card()),
{
    reveal_strlit("serverinfo");
    reveal_strlit("ping");
    reveal_strlit("dog");
    reveal_strlit("cat");
    reveal_strlit("fox");
    reveal_strlit("duck");
    reveal_strlit("avatar");
    reveal_strlit("help");
    assert("serverinfo"@.len() == 10);
    assert("ping"@.len() == 4 && "dog"@.len() == 3 && "cat"@.len() == 3 && "fox"@.len() == 3);
    assert("duck"@.len() == 4 && "avatar"@.len() == 6 && "help"@.len() == 4);
}

/// The animals the bot can show.
#[derive(Clone, Copy, PartialEq, Eq, Structural, Debug)]
pub enum Animal {
    Dog,
    Cat,
    Fox,
    Duck,
}

/// The title of the picture card of `a`.
pub open spec fn animal_title(a: Animal) -> Seq<char> {
    match a {
        Animal::Dog => "Random Dog 🐕"@,
        Animal::Cat => "Random Cat 🐈"@,
        Animal::Fox => "Random Fox 🦊"@,
        Animal::Duck => "Random Duck 🦆"@,
    }
}

/// The text of the error card when no picture of `a` could be had.
pub open spec fn animal_failure(a: Animal) -> Seq<char> {
    match a {
        Animal::Dog => "Failed to fetch dog image."@,
        Animal::Cat => "Failed to fetch cat image."@,
        Animal::Fox => "Failed to fetch fox image."@,
        Animal::Duck => "Failed to fetch duck image."@,
    }
}

/// Where the cat picture named `url` by the cat service is: `url` itself when
/// it starts with `http`, else `url` on the service's host.
pub open spec fn cat_url(url: Seq<char>) -> Seq<char> {
    if starts_with(url, "http"@) {
        url
    } else {
        "https://cataas.com"@ + url
    }
}

/// The reply to an animal command when the service named the picture `url`,
/// or gave none.
pub open spec fn animal_card(a: Animal, url: Option<Seq<char>>) -> EmbedView {
    match url {
        Some(u) => picture_card(
            animal_title(a),
            if a == Animal::Cat {
                cat_url(u)
            } else {
                u
            },
        ),
        None => error_card("Error"@).describe(animal_failure(a)),
    }
}

/// The reply to an animal command given the picture address the service
/// named, if it named one.
pub fn animal_embed(a: Animal, url: Option<String>) -> (e: Embed)
    ensures
        e@ == animal_card(a, crate::embed::opt_text(url)),
{
    match url {
        Some(u) => {
            let title = match a {
                Animal::Dog => "Random Dog 🐕",
                Animal::Cat => "Random Cat 🐈",
                Animal::Fox => "Random Fox 🦊",
                Animal::Duck => "Random Duck 🦆",
            };
            if a == Animal::Cat {
                let uc = chars_of(u.as_str());
                let http = chars_of("http");
                let full = if has_prefix(&uc, &http) {
                    u
                } else {
                    let mut v = chars_of("https://cataas.com");
                    append(&mut v, &uc);
                    string_of(&v)
                };
                embed_image(title, full.as_str())
            } else {
                embed_image(title, u.as_str())
            }
        },
        None => {
            let msg = match a {
                Animal::Dog => "Failed to fetch dog image.",
                Animal::Cat => "Failed to fetch cat image.",
                Animal::Fox => "Failed to fetch fox image.",
                Animal::Duck => "Failed to fetch duck image.",
            };
            embed_error("Error").description_str(msg)
        },
    }
}


// ---------------------------------------------------------------------------
// !clear
// ---------------------------------------------------------------------------

/// How many messages `!clear` is asked to delete: its first argument, when it
/// is a number from 1 to 100.
pub open spec fn clear_count_spec(args: Seq<Seq<char>>) -> Option<u64> {
    if args.len() > 0 {
        match parse_u64_spec(args[0]) {
            Some(n) => if 1 <= n <= 100 {
                Some(n)
            } else {
                None
            },
            None => None,
        }
    } else {
        None
    }
}

/// How many messages `!clear` is asked to delete, or `None` for a wrong usage.
pub fn clear_count(args: &Vec<String>) -> (r: Option<u64>)
    ensures
        r == clear_count_spec(texts(args@)),
{
    if args.len() == 0 {
        return None;
    }
    match parse_u64(&chars_of(args[0].as_str())) {
        Some(n) => if 1 <= n && n <= 100 {
            Some(n)
        } else {
            None
        },
        None => None,
    }
}

/// The reply to a wrong usage of `!clear`.
pub open spec fn clear_usage_card() -> EmbedView {
    error_card("Invalid usage"@).describe("Usage: `!clean <1-100>`"@)
}

/// The reply to a wrong usage of `!clear`.
pub fn clear_usage() -> (e: Embed)
    ensures
        e@ == clear_usage_card(),
{
    embed_error("Invalid usage").description_str("Usage: `!clean <1-100>`")
}

/// The first `n` of `ids` (all of them when there are fewer).
pub fn first_n(ids: Vec<String>, n: u64) -> (r: Vec<String>)
    ensures
        r@ == ids@.take(if n < ids@.len() { n as int } else { ids@.len() as int }),
{
    let mut r: Vec<String> = Vec::new();
    let mut i: usize = 0;
    while i < ids.len() && (i as u64) < n
        invariant
            i <= ids.len(),
            i <= n,
            r@ == ids@.take(i as int),
        decreases ids.len() - i,
    {
        r.push(ids[i].clone());
        i = i + 1;
        assert(r@ =~= ids@.take(i as int));
    }
    r
}

/// The report of `!clear` after `deleted` messages were chosen for deletion
/// and the deletion succeeded or not: none chosen means nothing to delete.
pub open spec fn clear_report_card(deleted: nat, ok: bool) -> EmbedView {
    if deleted == 0 {
        error_card("Nothing to delete"@)
    } else if ok {
        crate::embed::success_card("Done"@).describe("Deleted **"@ + dec(deleted) + "** messages."@)
    } else {
        error_card("Failed"@).describe("Missing permissions or messages are too old."@)
    }
}

/// The report of `!clear`; it is posted as a transient reply, with a check
/// mark only after a successful deletion.
pub fn clear_report(deleted: u64, ok: bool) -> (e: Embed)
    ensures
        e@ == clear_report_card(deleted as nat, ok),
{
    if deleted == 0 {
        embed_error("Nothing to delete")
    } else if ok {
        let mut d = chars_of("Deleted **");
        append(&mut d, &decimal(deleted));
        append_str(&mut d, "** messages.");
        crate::embed::embed_success("Done").description(string_of(&d))
    } else {
        embed_error("Failed").description_str("Missing permissions or messages are too old.")
    }
}

// ---------------------------------------------------------------------------
// !serverinfo
// ---------------------------------------------------------------------------

/// The number of members whose bot flag is set.
pub open spec fn bot_count(flags: Seq<Option<bool>>) -> nat
    decreases flags.len(),
{
    if flags.len() == 0 {
        0
    } else {
        bot_count(flags.drop_last()) + if flags.last() == Some(true) {
            1nat
        } else {
            0nat
        }
    }
}

/// The number of members, given their bot flags, that are bots.
pub fn count_bots(flags: &Vec<Option<bool>>) -> (r: usize)
    ensures
        r == bot_count(flags@),
        r <= flags.len(),
{
    let mut n: usize = 0;
    let mut i: usize = 0;
    while i < flags.len()
        invariant
            i <= flags.len(),
            n == bot_count(flags@.take(i as int)),
            n <= i,
        decreases flags.len() - i,
    {
        assert(flags@.take(i + 1).drop_last() =~= flags@.take(i as int));
        if flags[i] == Some(true) {
            n = n + 1;
        }
        i = i + 1;
    }
    assert(flags@.take(flags.len() as int) =~= flags@);
    n
}

/// When the guild with id `guild_id` was created, as `DD.MM.YYYY HH:MM:SS UTC`,
/// or `Unknown` when the id is not a number.
pub open spec fn created_text(guild_id: Seq<char>) -> Seq<char> {
    match snowflake_millis(guild_id) {
        Some(ms) => dotted(civil((ms / 1000) as nat)),
        None => "Unknown"@,
    }
}

/// When the guild with id `guild_id` was created.
pub fn guild_created(guild_id: &str) -> (r: String)
    ensures
        r@ == created_text(guild_id@),
{
    match snowflake_timestamp(guild_id) {
        Some(ms) => time_from_secs(ms / 1000),
        None => crate::embed::owned("Unknown"),
    }
}

/// The `!serverinfo` card of the guild `guild_id` called `name`, whose icon
/// hash is `icon` and whose members have the bot flags `bots`: its icon (empty
/// without one), id, member counts and creation time.
pub open spec fn serverinfo_card(
    guild_id: Seq<char>,
    name: Seq<char>,
    icon: Option<Seq<char>>,
    bots: Seq<Option<bool>>,
) -> EmbedView {
    let total = bots.len();
    let b = bot_count(bots);
    plain_card("Information about "@ + name).thumb(
        match guild_icon_url_spec(guild_id, icon) {
            Some(u) => u,
            None => Seq::empty(),
        },
    ).field("Guild ID"@, "`"@ + guild_id + "`"@, false).field(
        "**Members:**"@,
        "<:people:1478146494952821960> Total: **"@ + dec(total) + "**\n<:member:1478148900809766436> Members: "@
            + dec((total - b) as nat) + "\n<:bot:1478148899341760035> Bots: "@ + dec(b),
        false,
    ).field("<:online:1478144903587734729>  Created"@, created_text(guild_id), false)
}

/// The `!serverinfo` card of a guild.
pub fn serverinfo_embed(
    guild_id: &str,
    name: &str,
    icon: &Option<String>,
    bots: &Vec<Option<bool>>,
) -> (e: Embed)
    ensures
        e@ == serverinfo_card(
            guild_id@,
            name@,
            crate::embed::opt_text(*icon),
            bots@,
        ),
{
    let total = bots.len();
    let b = count_bots(bots);
    let humans = total - b;
    let mut title = chars_of("Information about ");
    append_str(&mut title, name);
    let icon_url = match guild_icon_url(guild_id, icon) {
        Some(u) => u,
        None => String::new(),
    };
    let mut id_text = chars_of("`");
    append_str(&mut id_text, guild_id);
    append_str(&mut id_text, "`");
    let mut members = chars_of("<:people:1478146494952821960> Total: **");
    append(&mut members, &decimal(total as u64));
    append_str(&mut members, "**\n<:member:1478148900809766436> Members: ");
    append(&mut members, &decimal(humans as u64));
    append_str(&mut members, "\n<:bot:1478148899341760035> Bots: ");
    append(&mut members, &decimal(b as u64));
    let t = string_of(&title);
    embed(t.as_str()).thumbnail(icon_url).field("Guild ID", string_of(&id_text), false).field(
        "**Members:**",
        string_of(&members),
        false,
    ).field("<:online:1478144903587734729>  Created", guild_created(guild_id), false)
}

} // verus!
