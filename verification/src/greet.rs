//! The `!greet` command, which sets up the image greeting of new members.
use vstd::prelude::*;
use crate::embed::{Embed, EmbedView, embed, embed_error, embed_success, error_card, plain_card,
    success_card};
use crate::ids::{channel_mention, opt_view};
use crate::text::{
    Sep, append_str, chars_of, same_as_str, split, split_chars, string_of,
    strip_leading, strip_leading_chars, texts, trim, trim_all, trim_chars, trim_each, views,
};
use crate::welcome::{channel_of, channel_ref};

verus! {

/// How to use `!greet`.
pub const GREET_HELP: &'static str = "Creates an automatic image greeting for new server members.\n\
                **Format:** `!greet <text> | <#channel> | <true/false>`\n\n\
                **Parameters:**\n\
                `<text>` - The text to send along with the image. You can use `{ping}` to mention the user.\n\
                `<#channel>` - The channel to send the image greeting.\n\
                `<true/false>` - Whether the greeting is enabled or not.\n\n\
                **Example:**\n\
                `!greet Welcome {ping} to the server! | #general | true`";

/// The reply when fewer than three parameters are given.
pub const GREET_FORMAT: &'static str = "Please provide text, channel, and true/false parameter separated by `|`.\nExample: `!greet Welcome {ping} | #general | true`";

/// The instructions card of `!greet`.
pub open spec fn greet_help_card() -> EmbedView {
    plain_card("Greeting Setup"@).describe(GREET_HELP@)
}

/// The greeting settings to save.
pub struct GreetingSetup {
    pub guild_id: String,
    pub channel_id: String,
    /// `true` or `false`.
    pub enabled: String,
    pub text: String,
}

/// What `!greet` does.
pub enum GreetPlan {
    /// Post the instructions as a plain reply.
    Help(Embed),
    /// Post `reply` as a transient reply and stop.
    Refuse(Embed),
    /// Do nothing (the command was not posted in a guild).
    Ignore,
    /// Save the settings.
    Save(GreetingSetup),
}

/// The value of a `GreetPlan`; `Save` holds the guild, channel, enabled flag and text.
pub enum GreetPlanView {
    Help(EmbedView),
    Refuse(EmbedView),
    Ignore,
    Save(Seq<char>, Seq<char>, Seq<char>, Seq<char>),
}

impl View for GreetPlan {
    type V = GreetPlanView;

    open spec fn view(&self) -> GreetPlanView {
        match self {
            GreetPlan::Help(e) => GreetPlanView::Help(e@),
            GreetPlan::Refuse(e) => GreetPlanView::Refuse(e@),
            GreetPlan::Ignore => GreetPlanView::Ignore,
            GreetPlan::Save(s) => GreetPlanView::Save(
                s.guild_id@,
                s.channel_id@,
                s.enabled@,
                s.text@,
            ),
        }
    }
}

/// The parameters of `!greet`: the message text without leading `!greet`s,
/// then without leading `!greeting`s, trimmed, split at `|`, each piece trimmed.
pub open spec fn greet_parts(content: Seq<char>) -> Seq<Seq<char>> {
    trim_all(
        split(trim(strip_leading(strip_leading(content, "!greet"@), "!greeting"@)), Sep::Char('|')),
    )
}

/// What `!greet` does, given the full message text, its words after the
/// command, its channel and its guild: without arguments or with `?` it shows
/// its instructions; with fewer than three `|`-separated parameters it
/// refuses; outside a guild it does nothing; otherwise it saves the text, the
/// channel the second parameter names (this channel when it names none) and
/// whether the third parameter is exactly `true`.
pub open spec fn greet_spec(
    content: Seq<char>,
    args: Seq<Seq<char>>,
    channel: Seq<char>,
    guild: Option<Seq<char>>,
) -> GreetPlanView {
    if args.len() == 0 || args[0] == "?"@ {
        GreetPlanView::Help(greet_help_card())
    } else {
        let parts = greet_parts(content);
        if parts.len() < 3 {
            GreetPlanView::Refuse(error_card("Invalid Format"@).describe(GREET_FORMAT@))
        } else {
            match guild {
                None => GreetPlanView::Ignore,
                Some(g) => GreetPlanView::Save(
                    g,
                    channel_ref(parts[1], channel),
                    if parts[2] == "true"@ {
                        "true"@
                    } else {
                        "false"@
                    },
                    parts[0],
                ),
            }
        }
    }
}

/// What `!greet` does with the message text `content`, its arguments, its
/// channel and its guild.
pub fn plan_greet(content: &str, args: &Vec<String>, channel: &str, guild: Option<String>) -> (r:
    GreetPlan)
    ensures
        r@ == greet_spec(content@, texts(args@), channel@, opt_view(guild)),
{
    if args.len() == 0 || same_as_str(&chars_of(args[0].as_str()), "?") {
        return GreetPlan::Help(embed("Greeting Setup").description_str(GREET_HELP));
    }
    let c = chars_of(content);
    let a = strip_leading_chars(&c, &chars_of("!greet"));
    let b = strip_leading_chars(&a, &chars_of("!greeting"));
    let t = trim_chars(&b);
    let pieces = split_chars(&t, Sep::Char('|'));
    let parts = trim_each(&pieces);
    assert(views(parts@) == greet_parts(content@));
    if parts.len() < 3 {
        assert(views(parts@).len() == parts@.len());
        return GreetPlan::Refuse(embed_error("Invalid Format").description_str(GREET_FORMAT));
    }
    assert(views(parts@)[0] == parts@[0]@ && views(parts@)[1] == parts@[1]@ && views(parts@)[2]
        == parts@[2]@);
    let g = match guild {
        None => return GreetPlan::Ignore,
        Some(g) => g,
    };
    let ch = string_of(&parts[1]);
    let channel_id = channel_of(ch.as_str(), channel);
    let enabled = if same_as_str(&parts[2], "true") {
        crate::embed::owned("true")
    } else {
        crate::embed::owned("false")
    };
    GreetPlan::Save(
        GreetingSetup { guild_id: g, channel_id, enabled, text: string_of(&parts[0]) },
    )
}

/// The report of `!greet` once saving the settings for `channel_id` succeeded or failed.
pub open spec fn greet_report_card(channel_id: Seq<char>, ok: bool) -> EmbedView {
    if ok {
        success_card("Greeting Configured"@).describe(
            "Automatic greeting successfully set for "@ + channel_mention(channel_id),
        )
    } else {
        error_card("Database Error"@).describe(
            "Could not save greeting settings. Please try again."@,
        )
    }
}

/// The report of `!greet`; it is posted as a transient reply without check mark.
pub fn greet_report(channel_id: &str, ok: bool) -> (e: Embed)
    ensures
        e@ == greet_report_card(channel_id@, ok),
{
    if ok {
        let mut d = chars_of("Automatic greeting successfully set for <#");
        append_str(&mut d, channel_id);
        append_str(&mut d, ">");
        proof {
            reveal_strlit("Automatic greeting successfully set for <#");
            reveal_strlit("Automatic greeting successfully set for ");
            reveal_strlit(">");
            assert(d@ =~= "Automatic greeting successfully set for "@ + channel_mention(
                channel_id@,
            ));
        }
        embed_success("Greeting Configured").description(string_of(&d))
    } else {
        embed_error("Database Error").description_str(
            "Could not save greeting settings. Please try again.",
        )
    }
}

} // verus!
