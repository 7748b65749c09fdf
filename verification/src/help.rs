//! The `!help` command: what the bot says about each of its commands.
use vstd::prelude::*;
use crate::embed::{Embed, EmbedView, embed, plain_card};
use crate::text::{chars_of, same_as_str};

verus! {

/// The help card for the command `cmd`, if it is one that has help.
pub open spec fn help_entry(cmd: Seq<char>) -> Option<EmbedView> {
    if cmd == "ping"@ {
        Some(
            plain_card("!ping"@)
            .describe("Checks if the bot is online and measures response latency."@)
            .field("Usage"@, "`!ping`"@, false),
        )
    } else if cmd == "dog"@ {
        Some(
            plain_card("!dog"@)
            .describe("Shows a random dog image."@)
            .field("Usage"@, "`!dog`"@, false),
        )
    } else if cmd == "cat"@ {
        Some(
            plain_card("!cat"@)
            .describe("Shows a random cat image."@)
            .field("Usage"@, "`!cat`"@, false),
        )
    } else if cmd == "fox"@ {
        Some(
            plain_card("!fox"@)
            .describe("Shows a random fox image."@)
            .field("Usage"@, "`!fox`"@, false),
        )
    } else if cmd == "duck"@ {
        Some(
            plain_card("!duck"@)
            .describe("Shows a random duck image."@)
            .field("Usage"@, "`!duck`"@, false),
        )
    } else if cmd == "avatar"@ {
        Some(
            plain_card("!avatar"@)
            .describe("Shows your avatar or the avatar of a mentioned user."@)
            .field("Usage"@, "`!avatar` or `!avatar @user`"@, false),
        )
    } else if cmd == "help"@ {
        Some(
            plain_card("!help"@)
            .describe("Lists all available commands. Pass a command name to get details."@)
            .field("Usage"@, "`!help` or `!help <command>`"@, false),
        )
    } else if cmd == "serverinfo"@ {
        Some(
            plain_card("!serverinfo"@)
            .describe("Shows information about the current server."@)
            .field("Usage"@, "`!serverinfo`"@, false),
        )
    } else if cmd == "clear"@ {
        Some(
            plain_card("!clear"@)
            .describe("Deletes the given number of the latest messages in the current channel, from 1 to 100."@)
            .field("Usage"@, "`!clear <1-100>`"@, false),
        )
    } else if cmd == "ban"@ {
        Some(
            plain_card("Command \"ban\""@)
            .describe("**Ban member from server**\n\
                     Bans specified member from server permanently or temporary and clears his messages (up to 7 days)."@)
            .field("Usage"@, "`!ban <@Member | ID> [duration] [days to clear] [reason]`\n┗ Member parameter may be replaced with the author of the replied message."@, false)
            .field("Example 1"@, "`!ban @Member`\n┗ Bans member permanently."@, false)
            .field("Example 2"@, "`!ban @Member behaves provocatively`\n┗ Bans member permanently with specified reason."@, false)
            .field("Example 3"@, "`!ban @Member 7 behaves provocatively`\n┗ Bans member permanently with specified reason and clears his messages for 7 last days."@, false)
            .field("Example 4"@, "`!ban @Member 1d 7 behaves provocatively`\n┗ Bans member for one day with reason and clears his messages for 7 last days."@, false),
        )
    } else if cmd == "unban"@ {
        Some(
            plain_card("Command \"unban\""@)
            .describe("**Unban member from server**\n\
                     Unbans specified member from server by its ID, username or tag."@)
            .field("Usage"@, "`!unban <ID | Username | Tag>`"@, false)
            .field("Example 1"@, "`!unban 247734710682255361`\n┗ Unbans member by ID."@, false)
            .field("Example 2"@, "`!unban Caramel`\n┗ Unbans member by username by first match."@, false)
            .field("Example 3"@, "`!unban caramel.foxpaws`\n┗ Unbans member by full tag."@, false),
        )
    } else if cmd == "kick"@ {
        Some(
            plain_card("Command \"kick\""@)
            .describe("**Kick member from server**\n\
                     Kicks specified member from server."@)
            .field("Usage"@, "`!kick <@Member | ID> [reason]`\n┗ Member parameter may be replaced with the author of the replied message."@, false)
            .field("Example 1"@, "`!kick @Member`\n┗ Kicks specified member."@, false)
            .field("Example 2"@, "`!kick @Member behaves provocatively`\n┗ Kicks specified member with reason."@, false),
        )
    } else if cmd == "mute"@ {
        Some(
            plain_card("Command \"mute\""@)
            .describe("**Mute member in channel or globally on the whole server**\n\
                     Mutes specified member in channel or on the whole server permanently or temporary."@)
            .field("Usage"@, "`!mute <@Member | ID> [duration] [everywhere | here | #Channel] [reason]`\n┗ Member parameter may be replaced with the author of the replied message."@, false)
            .field("Example 1"@, "`!mute @Member`\n┗ Mutes specified member permanently in current text channel or on the whole server (depending on default mute mode)."@, false)
            .field("Example 2"@, "`!mute @Member 10min here`\n┗ Mutes specified member in current text channel for 10 minutes."@, false)
            .field("Example 3"@, "`!mute @Member 10min everywhere`\n┗ Mutes specified member everywhere for 10 minutes."@, false)
            .field("Example 4"@, "`!mute @Member 10min everywhere Provoker!`\n┗ Mutes specified member everywhere for 10 minutes and sets mute reason."@, false)
            .field("Example 5"@, "`!mute @Member 10min #Channel Provoker!`\n┗ Mutes specified member in specified channel for 10 minutes and sets mute reason."@, false),
        )
    } else if cmd == "unmute"@ {
        Some(
            plain_card("Command \"unmute\""@)
            .describe("**Unmute member in current channel or globally**\n\
                     Removes all restrictions done by \"!mute\" command in current channel or globally."@)
            .field("Usage"@, "`!unmute <@Member | ID> [#Channel | ID]`\n┗ Member parameter may be replaced with the author of the replied message."@, false)
            .field("Example 1"@, "`!unmute @Member`\n┗ Unmutes specified member in current channel or globally."@, false)
            .field("Example 2"@, "`!unmute @Member #Channel`\n┗ Unmutes specified member in specified channel or globally."@, false)
            .field("Example 3"@, "`!unmute @Member 123456789012345678`\n┗ Unmutes specified member by ID in the specified channel."@, false),
        )
    } else if cmd == "welcome"@ {
        Some(
            plain_card("Command \"welcome\""@)
            .describe("**Send a welcome message**\n\
                     Sends a custom welcome message to a specified channel with a predefined reaction."@)
            .field("Usage"@, "`!welcome [#channel] title: [Text] text: [Text]`"@, false)
            .field("Example"@, "`!welcome #general title: Welcome! text: Hello, new members!`\nIf channel is omitted, sends to the current channel."@, false),
        )
    } else {
        None
    }
}

/// The card for a command name that has no help.
pub open spec fn unknown_command_card(cmd: Seq<char>) -> EmbedView {
    plain_card("Unknown command"@).describe("`!"@ + cmd + "` is not a known command."@)
}

/// The card that lists every command.
pub open spec fn overview_card() -> EmbedView {
    plain_card("Available commands"@).describe(OVERVIEW@).field(
        "📋  Information"@,
        "`!help`  `!ping`  `!avatar`  `!serverinfo`"@,
        false,
    ).field(
        "🛡️  Moderation"@,
        "`!clear`  `!ban`  `!unban`  `!kick`  `!mute`  `!unmute`  `!welcome`"@,
        false,
    ).field("😄  Fun"@, "`!dog`  `!cat`  `!fox`  `!duck`"@, false)
}

/// The reply to `!help` with the arguments `args`: the card of the first
/// argument, or the overview when there is none.
pub open spec fn help_reply(args: Seq<Seq<char>>) -> EmbedView {
    if args.len() > 0 {
        match help_entry(args[0]) {
            Some(e) => e,
            None => unknown_command_card(args[0]),
        }
    } else {
        overview_card()
    }
}

/// The introduction of the command overview.
pub const OVERVIEW: &'static str = "Pass a command name to get details — `!help ping` — or add `?` after any command.\n\
             Example: `!ping ?`";

/// The help card for the command `cmd`, if it has one.
pub fn help_card(cmd: &str) -> (r: Option<Embed>)
    ensures
        r matches Some(e) ==> help_entry(cmd@) == Some(e@),
        r is None ==> help_entry(cmd@) is None,
{
    let c = chars_of(cmd);
    if same_as_str(&c, "ping") {
        Some(embed("!ping")
            .description_str("Checks if the bot is online and measures response latency.")
            .field_str("Usage", "`!ping`", false))
    } else if same_as_str(&c, "dog") {
        Some(embed("!dog")
            .description_str("Shows a random dog image.")
            .field_str("Usage", "`!dog`", false))
    } else if same_as_str(&c, "cat") {
        Some(embed("!cat")
            .description_str("Shows a random cat image.")
            .field_str("Usage", "`!cat`", false))
    } else if same_as_str(&c, "fox") {
        Some(embed("!fox")
            .description_str("Shows a random fox image.")
            .field_str("Usage", "`!fox`", false))
    } else if same_as_str(&c, "duck") {
        Some(embed("!duck")
            .description_str("Shows a random duck image.")
            .field_str("Usage", "`!duck`", false))
    } else if same_as_str(&c, "avatar") {
        Some(embed("!avatar")
            .description_str("Shows your avatar or the avatar of a mentioned user.")
            .field_str("Usage", "`!avatar` or `!avatar @user`", false))
    } else if same_as_str(&c, "help") {
        Some(embed("!help")
            .description_str("Lists all available commands. Pass a command name to get details.")
            .field_str("Usage", "`!help` or `!help <command>`", false))
    } else if same_as_str(&c, "serverinfo") {
        Some(embed("!serverinfo")
            .description_str("Shows information about the current server.")
            .field_str("Usage", "`!serverinfo`", false))
    } else if same_as_str(&c, "clear") {
        Some(embed("!clear")
            .description_str("Deletes the given number of the latest messages in the current channel, from 1 to 100.")
            .field_str("Usage", "`!clear <1-100>`", false))
    } else if same_as_str(&c, "ban") {
        Some(embed("Command \"ban\"")
            .description_str("**Ban member from server**\n\
                     Bans specified member from server permanently or temporary and clears his messages (up to 7 days).")
            .field_str("Usage", "`!ban <@Member | ID> [duration] [days to clear] [reason]`\n┗ Member parameter may be replaced with the author of the replied message.", false)
            .field_str("Example 1", "`!ban @Member`\n┗ Bans member permanently.", false)
            .field_str("Example 2", "`!ban @Member behaves provocatively`\n┗ Bans member permanently with specified reason.", false)
            .field_str("Example 3", "`!ban @Member 7 behaves provocatively`\n┗ Bans member permanently with specified reason and clears his messages for 7 last days.", false)
            .field_str("Example 4", "`!ban @Member 1d 7 behaves provocatively`\n┗ Bans member for one day with reason and clears his messages for 7 last days.", false))
    } else if same_as_str(&c, "unban") {
        Some(embed("Command \"unban\"")
            .description_str("**Unban member from server**\n\
                     Unbans specified member from server by its ID, username or tag.")
            .field_str("Usage", "`!unban <ID | Username | Tag>`", false)
            .field_str("Example 1", "`!unban 247734710682255361`\n┗ Unbans member by ID.", false)
            .field_str("Example 2", "`!unban Caramel`\n┗ Unbans member by username by first match.", false)
            .field_str("Example 3", "`!unban caramel.foxpaws`\n┗ Unbans member by full tag.", false))
    } else if same_as_str(&c, "kick") {
        Some(embed("Command \"kick\"")
            .description_str("**Kick member from server**\n\
                     Kicks specified member from server.")
            .field_str("Usage", "`!kick <@Member | ID> [reason]`\n┗ Member parameter may be replaced with the author of the replied message.", false)
            .field_str("Example 1", "`!kick @Member`\n┗ Kicks specified member.", false)
            .field_str("Example 2", "`!kick @Member behaves provocatively`\n┗ Kicks specified member with reason.", false))
    } else if same_as_str(&c, "mute") {
        Some(embed("Command \"mute\"")
            .description_str("**Mute member in channel or globally on the whole server**\n\
                     Mutes specified member in channel or on the whole server permanently or temporary.")
            .field_str("Usage", "`!mute <@Member | ID> [duration] [everywhere | here | #Channel] [reason]`\n┗ Member parameter may be replaced with the author of the replied message.", false)
            .field_str("Example 1", "`!mute @Member`\n┗ Mutes specified member permanently in current text channel or on the whole server (depending on default mute mode).", false)
            .field_str("Example 2", "`!mute @Member 10min here`\n┗ Mutes specified member in current text channel for 10 minutes.", false)
            .field_str("Example 3", "`!mute @Member 10min everywhere`\n┗ Mutes specified member everywhere for 10 minutes.", false)
            .field_str("Example 4", "`!mute @Member 10min everywhere Provoker!`\n┗ Mutes specified member everywhere for 10 minutes and sets mute reason.", false)
            .field_str("Example 5", "`!mute @Member 10min #Channel Provoker!`\n┗ Mutes specified member in specified channel for 10 minutes and sets mute reason.", false))
    } else if same_as_str(&c, "unmute") {
        Some(embed("Command \"unmute\"")
            .description_str("**Unmute member in current channel or globally**\n\
                     Removes all restrictions done by \"!mute\" command in current channel or globally.")
            .field_str("Usage", "`!unmute <@Member | ID> [#Channel | ID]`\n┗ Member parameter may be replaced with the author of the replied message.", false)
            .field_str("Example 1", "`!unmute @Member`\n┗ Unmutes specified member in current channel or globally.", false)
            .field_str("Example 2", "`!unmute @Member #Channel`\n┗ Unmutes specified member in specified channel or globally.", false)
            .field_str("Example 3", "`!unmute @Member 123456789012345678`\n┗ Unmutes specified member by ID in the specified channel.", false))
    } else if same_as_str(&c, "welcome") {
        Some(embed("Command \"welcome\"")
            .description_str("**Send a welcome message**\n\
                     Sends a custom welcome message to a specified channel with a predefined reaction.")
            .field_str("Usage", "`!welcome [#channel] title: [Text] text: [Text]`", false)
            .field_str("Example", "`!welcome #general title: Welcome! text: Hello, new members!`\nIf channel is omitted, sends to the current channel.", false))
    } else {
        None
    }
}

/// The card for a command name that has no help.
pub fn unknown_command(cmd: &str) -> (e: Embed)
    ensures
        e@ == unknown_command_card(cmd@),
{
    let mut d = chars_of("`!");
    crate::text::append_str(&mut d, cmd);
    crate::text::append_str(&mut d, "` is not a known command.");
    embed("Unknown command").description(crate::text::string_of(&d))
}

/// The reply to `!help` with the arguments `args`.
pub fn help(args: &Vec<String>) -> (e: Embed)
    ensures
        e@ == help_reply(args@.map_values(|a: String| a@)),
{
    if args.len() > 0 {
        let cmd = args[0].as_str();
        match help_card(cmd) {
            Some(e) => e,
            None => unknown_command(cmd),
        }
    } else {
        embed("Available commands").description_str(OVERVIEW).field_str(
            "📋  Information",
            "`!help`  `!ping`  `!avatar`  `!serverinfo`",
            false,
        ).field_str(
            "🛡️  Moderation",
            "`!clear`  `!ban`  `!unban`  `!kick`  `!mute`  `!unmute`  `!welcome`",
            false,
        ).field_str("😄  Fun", "`!dog`  `!cat`  `!fox`  `!duck`", false)
    }
}

} // verus!
