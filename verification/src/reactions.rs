//! What the bot does when someone reacts to a message: a step function from
//! the state of the handling and the latest event to the next state and the
//! action to perform, which the program carries out and answers with the
//! next event.
use vstd::prelude::*;
use crate::events::{
    captcha_length, captcha_length_spec, flag_set, holds_any, holds_any_role, role_list_items,
    split_role_list,
};
use crate::ids::opt_view;
use crate::records::{WelcomeMessageRecord, WelcomeRecordView};
use crate::text::texts;

verus! {

/// What happens while a reaction is handled.
pub enum ReactionEvent {
    /// `user_id` reacted to `message_id`, in the guild `guild_id` if any; the
    /// bot itself is `bot_id`.
    Added { user_id: String, bot_id: String, message_id: String, guild_id: Option<String> },
    /// The welcome record of the message, if there is one.
    Record(Option<WelcomeMessageRecord>),
    /// The roles that the reacting member holds (none when they could not be read).
    MemberRoles(Vec<String>),
}

/// How far the handling of a reaction has come.
pub enum ReactionState {
    /// Nothing is being handled.
    Idle,
    /// Waiting for the welcome record of the message `user_id` reacted to.
    AwaitingRecord { user_id: String, guild_id: Option<String> },
    /// Waiting for the roles of `user_id` in `guild_id`, to act on `record`.
    AwaitingRoles { user_id: String, guild_id: String, record: WelcomeMessageRecord },
}

/// What the program does next.
pub enum ReactionAction {
    /// Nothing more.
    Done,
    /// Look up the welcome record of `message_id` and answer with `Record`.
    FindRecord { message_id: String },
    /// Read the roles of `user_id` in `guild_id` and answer with `MemberRoles`.
    FetchMemberRoles { guild_id: String, user_id: String },
    /// Draw a CAPTCHA of `length` characters from `charset`, record the
    /// challenge for the roles `roles` (ids joined with commas) and send it to
    /// `user_id`.
    StartCaptcha { guild_id: String, user_id: String, roles: String, length: u32, charset: String },
    /// Give `user_id` the roles `role_ids` in `guild_id`.
    GiveRoles { guild_id: String, user_id: String, role_ids: Vec<String> },
}

/// The value of a `ReactionEvent`.
pub enum ReactionEventView {
    Added(Seq<char>, Seq<char>, Seq<char>, Option<Seq<char>>),
    Record(Option<WelcomeRecordView>),
    MemberRoles(Seq<Seq<char>>),
}

/// The value of a `ReactionState`.
pub enum ReactionStateView {
    Idle,
    AwaitingRecord(Seq<char>, Option<Seq<char>>),
    AwaitingRoles(Seq<char>, Seq<char>, WelcomeRecordView),
}

/// The value of a `ReactionAction`.
pub enum ReactionActionView {
    Done,
    FindRecord(Seq<char>),
    FetchMemberRoles(Seq<char>, Seq<char>),
    StartCaptcha(Seq<char>, Seq<char>, Seq<char>, u32, Seq<char>),
    GiveRoles(Seq<char>, Seq<char>, Seq<Seq<char>>),
}

impl View for ReactionEvent {
    type V = ReactionEventView;

    open spec fn view(&self) -> ReactionEventView {
        match self {
            ReactionEvent::Added { user_id, bot_id, message_id, guild_id } => ReactionEventView::Added(
                user_id@,
                bot_id@,
                message_id@,
                opt_view(*guild_id),
            ),
            ReactionEvent::Record(r) => ReactionEventView::Record(
                match r {
                    Some(rec) => Some(rec@),
                    None => None,
                },
            ),
            ReactionEvent::MemberRoles(rs) => ReactionEventView::MemberRoles(texts(rs@)),
        }
    }
}

impl View for ReactionState {
    type V = ReactionStateView;

    open spec fn view(&self) -> ReactionStateView {
        match self {
            ReactionState::Idle => ReactionStateView::Idle,
            ReactionState::AwaitingRecord { user_id, guild_id } => ReactionStateView::AwaitingRecord(
                user_id@,
                opt_view(*guild_id),
            ),
            ReactionState::AwaitingRoles { user_id, guild_id, record } =>
                ReactionStateView::AwaitingRoles(user_id@, guild_id@, record@),
        }
    }
}

impl View for ReactionAction {
    type V = ReactionActionView;

    open spec fn view(&self) -> ReactionActionView {
        match self {
            ReactionAction::Done => ReactionActionView::Done,
            ReactionAction::FindRecord { message_id } => ReactionActionView::FindRecord(message_id@),
            ReactionAction::FetchMemberRoles { guild_id, user_id } =>
                ReactionActionView::FetchMemberRoles(guild_id@, user_id@),
            ReactionAction::StartCaptcha { guild_id, user_id, roles, length, charset } =>
                ReactionActionView::StartCaptcha(guild_id@, user_id@, roles@, *length, charset@),
            ReactionAction::GiveRoles { guild_id, user_id, role_ids } => ReactionActionView::GiveRoles(
                guild_id@,
                user_id@,
                texts(role_ids@),
            ),
        }
    }
}

/// One step of handling a reaction:
/// - a reaction by the bot itself is ignored; any other asks for the welcome
///   record of the message;
/// - without a record, or outside a guild, nothing is done; otherwise the
///   member's roles are read;
/// - a member who already holds one of the record's roles is left alone;
///   when the record asks for a CAPTCHA (`captcha` is `true`) one is drawn with
///   the recorded length (see `captcha_length_spec`) and character set;
///   otherwise the record's roles are given;
/// - any other event ends the handling.
pub open spec fn reaction_step_spec(
    s: ReactionStateView,
    e: ReactionEventView,
) -> (ReactionStateView, ReactionActionView) {
    match (s, e) {
        (ReactionStateView::Idle, ReactionEventView::Added(u, b, m, g)) => if u == b {
            (ReactionStateView::Idle, ReactionActionView::Done)
        } else {
            (ReactionStateView::AwaitingRecord(u, g), ReactionActionView::FindRecord(m))
        },
        (ReactionStateView::AwaitingRecord(u, g), ReactionEventView::Record(r)) => match (r, g) {
            (Some(rec), Some(gid)) => (
                ReactionStateView::AwaitingRoles(u, gid, rec),
                ReactionActionView::FetchMemberRoles(gid, u),
            ),
            _ => (ReactionStateView::Idle, ReactionActionView::Done),
        },
        (ReactionStateView::AwaitingRoles(u, g, rec), ReactionEventView::MemberRoles(held)) => {
            let wanted = role_list_items(rec.roles);
            if holds_any(held, wanted) {
                (ReactionStateView::Idle, ReactionActionView::Done)
            } else if rec.captcha == "true"@ {
                (
                    ReactionStateView::Idle,
                    ReactionActionView::StartCaptcha(
                        g,
                        u,
                        rec.roles,
                        captcha_length_spec(rec.captcha_len),
                        rec.captcha_type,
                    ),
                )
            } else {
                (ReactionStateView::Idle, ReactionActionView::GiveRoles(g, u, wanted))
            }
        },
        _ => (ReactionStateView::Idle, ReactionActionView::Done),
    }
}

/// One step of handling a reaction (see `reaction_step_spec`).
pub fn reaction_step(s: ReactionState, e: ReactionEvent) -> (r: (ReactionState, ReactionAction))
    ensures
        (r.0@, r.1@) == reaction_step_spec(s@, e@),
{
    match (s, e) {
        (ReactionState::Idle, ReactionEvent::Added { user_id, bot_id, message_id, guild_id }) => {
            if user_id == bot_id {
                (ReactionState::Idle, ReactionAction::Done)
            } else {
                (
                    ReactionState::AwaitingRecord { user_id, guild_id },
                    ReactionAction::FindRecord { message_id },
                )
            }
        },
        (ReactionState::AwaitingRecord { user_id, guild_id }, ReactionEvent::Record(r)) => match (
            r,
            guild_id,
        ) {
            (Some(record), Some(gid)) => {
                let g2 = gid.clone();
                let u2 = user_id.clone();
                (
                    ReactionState::AwaitingRoles { user_id, guild_id: gid, record },
                    ReactionAction::FetchMemberRoles { guild_id: g2, user_id: u2 },
                )
            },
            _ => (ReactionState::Idle, ReactionAction::Done),
        },
        (
            ReactionState::AwaitingRoles { user_id, guild_id, record },
            ReactionEvent::MemberRoles(held),
        ) => {
            let wanted = split_role_list(record.roles.as_str());
            if holds_any_role(&held, &wanted) {
                (ReactionState::Idle, ReactionAction::Done)
            } else if flag_set(record.captcha.as_str()) {
                let length = captcha_length(record.captcha_len);
                (
                    ReactionState::Idle,
                    ReactionAction::StartCaptcha {
                        guild_id,
                        user_id,
                        roles: record.roles,
                        length,
                        charset: record.captcha_type,
                    },
                )
            } else {
                (
                    ReactionState::Idle,
                    ReactionAction::GiveRoles { guild_id, user_id, role_ids: wanted },
                )
            }
        },
        _ => (ReactionState::Idle, ReactionAction::Done),
    }
}

/// A member who already holds one of the welcome record's roles is left
/// alone, whether or not the record asks for a CAPTCHA: the handling ends.
pub proof fn lemma_holder_left_alone(
    u: Seq<char>,
    g: Seq<char>,
    rec: WelcomeRecordView,
    held: Seq<Seq<char>>,
    i: int,
)
    requires
        0 <= i < role_list_items(rec.roles).len(),
        held.contains(role_list_items(rec.roles)[i]),
    ensures
        reaction_step_spec(
            ReactionStateView::AwaitingRoles(u, g, rec),
            ReactionEventView::MemberRoles(held),
        ) == (ReactionStateView::Idle, ReactionActionView::Done),
{
    assert(holds_any(held, role_list_items(rec.roles)));
}

/// A member who holds none of the welcome record's roles is served: with the
/// CAPTCHA flag `true` a challenge of 3 to 6 characters is started for the
/// record's roles in that guild, otherwise exactly the record's roles are
/// given; either way the handling ends.
pub proof fn lemma_newcomer_served(
    u: Seq<char>,
    g: Seq<char>,
    rec: WelcomeRecordView,
    held: Seq<Seq<char>>,
)
    requires
        forall|i: int|
            0 <= i < role_list_items(rec.roles).len() ==> !held.contains(
                #[trigger] role_list_items(rec.roles)[i],
            ),
    ensures
        ({
            let (s, a) = reaction_step_spec(
                ReactionStateView::AwaitingRoles(u, g, rec),
                ReactionEventView::MemberRoles(held),
            );
            &&& s == ReactionStateView::Idle
            &&& rec.captcha == "true"@ ==> (a matches ReactionActionView::StartCaptcha(
                gg,
                uu,
                roles,
                len,
                charset,
            ) && gg == g && uu == u && roles == rec.roles && 3 <= len <= 6 && charset
                == rec.captcha_type)
            &&& rec.captcha != "true"@ ==> a == ReactionActionView::GiveRoles(
                g,
                u,
                role_list_items(rec.roles),
            )
        }),
{
    assert(!holds_any(held, role_list_items(rec.roles)));
}

/// A reaction by the bot itself is ignored, and any other reaction first asks
/// for the welcome record of the message reacted to.
pub proof fn lemma_reaction_start(
    u: Seq<char>,
    b: Seq<char>,
    m: Seq<char>,
    g: Option<Seq<char>>,
)
    ensures
        u == b ==> reaction_step_spec(
            ReactionStateView::Idle,
            ReactionEventView::Added(u, b, m, g),
        ) == (ReactionStateView::Idle, ReactionActionView::Done),
        u != b ==> reaction_step_spec(
            ReactionStateView::Idle,
            ReactionEventView::Added(u, b, m, g),
        ).1 == ReactionActionView::FindRecord(m),
{
}

} // verus!
