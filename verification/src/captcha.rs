//! Pending CAPTCHA challenges: which user must answer what, and the roles
//! that a right answer gives.
use vstd::prelude::*;
use crate::embed::{Embed, EmbedView, embed_error, embed_success, error_card, success_card};
use crate::external::{lowercase, to_lowercase};
use crate::events::{role_list_items, split_role_list};
use crate::text::{texts, trim, trim_str};

verus! {

/// A challenge sent to a user: the roles (ids joined with commas) to give in
/// the guild `guild_id` once they reply with `answer`.
pub struct CaptchaState {
    pub roles: String,
    pub guild_id: String,
    pub answer: String,
}

/// The value of a `CaptchaState`.
pub struct StateView {
    pub roles: Seq<char>,
    pub guild_id: Seq<char>,
    pub answer: Seq<char>,
}

impl View for CaptchaState {
    type V = StateView;

    open spec fn view(&self) -> StateView {
        StateView { roles: self.roles@, guild_id: self.guild_id@, answer: self.answer@ }
    }
}

impl CaptchaState {
    /// A copy of this challenge.
    pub fn duplicate(&self) -> (r: CaptchaState)
        ensures
            r@ == self@,
    {
        CaptchaState {
            roles: self.roles.clone(),
            guild_id: self.guild_id.clone(),
            answer: self.answer.clone(),
        }
    }
}

/// The challenge recorded when the CAPTCHA service drew `text`: the expected
/// answer is `text` in lower case.
pub open spec fn challenge_spec(roles: Seq<char>, guild_id: Seq<char>, text: Seq<char>) -> StateView {
    StateView { roles, guild_id, answer: lowercase(text) }
}

/// The challenge to record for the roles `roles` of guild `guild_id` when the
/// CAPTCHA service drew `text`.
pub fn new_challenge(roles: &str, guild_id: &str, text: &str) -> (r: CaptchaState)
    ensures
        r@ == challenge_spec(roles@, guild_id@, text@),
{
    CaptchaState {
        roles: crate::embed::owned(roles),
        guild_id: crate::embed::owned(guild_id),
        answer: to_lowercase(text),
    }
}

/// A reply solves the challenge when, trimmed and in lower case, it is the answer.
pub open spec fn solves(state: StateView, reply: Seq<char>) -> bool {
    lowercase(trim(reply)) == state.answer
}

/// Whether `reply` solves the challenge `state`.
pub fn is_solved(state: &CaptchaState, reply: &str) -> (r: bool)
    ensures
        r == solves(state@, reply@),
{
    let t = trim_str(reply);
    let l = to_lowercase(t.as_str());
    l == state.answer
}

/// The reply to a right answer.
pub open spec fn solved_card() -> EmbedView {
    success_card("Success"@).describe(
        "<:online:1478144903587734729> CAPTCHA solved! Roles have been assigned."@,
    )
}

/// The reply to a right answer.
pub fn solved_embed() -> (e: Embed)
    ensures
        e@ == solved_card(),
{
    embed_success("Success").description_str(
        "<:online:1478144903587734729> CAPTCHA solved! Roles have been assigned.",
    )
}

/// The reply to a wrong answer.
pub open spec fn wrong_card() -> EmbedView {
    error_card("Error"@).describe(
        "<:offline:1478144899431179463> Incorrect CAPTCHA. Please try again or re-click the reaction."@,
    )
}

/// The reply to a wrong answer.
pub fn wrong_embed() -> (e: Embed)
    ensures
        e@ == wrong_card(),
{
    embed_error("Error").description_str(
        "<:offline:1478144899431179463> Incorrect CAPTCHA. Please try again or re-click the reaction.",
    )
}

/// The text that comes with the CAPTCHA picture in the direct message.
pub const CAPTCHA_PROMPT: &'static str = "Please solve this CAPTCHA by replying with the text in the image.";

/// Replying with the text the CAPTCHA service drew, with any surrounding
/// white space, solves the challenge recorded for it.
pub proof fn lemma_drawn_text_solves(
    roles: Seq<char>,
    guild_id: Seq<char>,
    text: Seq<char>,
    reply: Seq<char>,
)
    requires
        trim(reply) == text,
    ensures
        solves(challenge_spec(roles, guild_id, text), reply),
{
}

/// Looking a user up right after recording a challenge for them gives that
/// challenge, and recording it leaves every other user's challenge as it was.
pub proof fn lemma_lookup_after_record(
    pending: Map<Seq<char>, StateView>,
    user: Seq<char>,
    state: StateView,
    other: Seq<char>,
)
    ensures
        pending.insert(user, state).dom().contains(user),
        pending.insert(user, state)[user] == state,
        other != user ==> (pending.insert(user, state).dom().contains(other) == pending.dom().contains(other)),
        other != user && pending.dom().contains(other) ==> pending.insert(user, state)[other]
            == pending[other],
{
}

/// Once a user's challenge is dropped, none is pending for them, and every
/// other user's challenge is as it was.
pub proof fn lemma_lookup_after_drop(
    pending: Map<Seq<char>, StateView>,
    user: Seq<char>,
    other: Seq<char>,
)
    ensures
        !pending.remove(user).dom().contains(user),
        other != user ==> (pending.remove(user).dom().contains(other) == pending.dom().contains(other)),
        other != user && pending.dom().contains(other) ==> pending.remove(user)[other]
            == pending[other],
{
}

/// Pending challenges, as user ids paired with their challenges.
struct Entries {
    entries: Vec<(String, CaptchaState)>,
}

impl Entries {
    /// The user ids are all different.
    pub closed spec fn wf(&self) -> bool {
        forall|i: int, j: int|
            0 <= i < j < self.entries@.len() ==> #[trigger] self.entries@[i].0@
                != #[trigger] self.entries@[j].0@
    }

    /// The users with a pending challenge.
    pub closed spec fn has(&self, user: Seq<char>) -> bool {
        exists|i: int| 0 <= i < self.entries@.len() && #[trigger] self.entries@[i].0@ == user
    }

    /// The index of the entry of `user`.
    closed spec fn index_of(&self, user: Seq<char>) -> int {
        choose|i: int| 0 <= i < self.entries@.len() && #[trigger] self.entries@[i].0@ == user
    }

    /// The pending challenges by user id.
    pub closed spec fn view(&self) -> Map<Seq<char>, StateView> {
        Map::new(|u: Seq<char>| self.has(u), |u: Seq<char>| self.entries@[self.index_of(u)].1@)
    }

    proof fn lemma_index(&self, i: int)
        requires
            self.wf(),
            0 <= i < self.entries@.len(),
        ensures
            self.has(self.entries@[i].0@),
            self.index_of(self.entries@[i].0@) == i,
            self.view().dom().contains(self.entries@[i].0@),
            self.view()[self.entries@[i].0@] == self.entries@[i].1@,
    {
        let u = self.entries@[i].0@;
        assert(self.has(u));
        let k = self.index_of(u);
        if k != i {
            if k < i {
                assert(self.entries@[k].0@ != self.entries@[i].0@);
            } else {
                assert(self.entries@[i].0@ != self.entries@[k].0@);
            }
        }
    }

    /// No challenge is pending.
    fn new() -> (s: Entries)
        ensures
            s.wf(),
            s.view() == Map::<Seq<char>, StateView>::empty(),
    {
        let s = Entries { entries: Vec::new() };
        assert(s.view() =~= Map::<Seq<char>, StateView>::empty());
        s
    }

    fn position(&self, user: &str) -> (r: Option<usize>)
        requires
            self.wf(),
        ensures
            r matches Some(i) ==> i < self.entries@.len() && self.entries@[i as int].0@ == user@,
            r is None ==> !self.has(user@),
    {
        let u = crate::embed::owned(user);
        let mut i: usize = 0;
        while i < self.entries.len()
            invariant
                i <= self.entries@.len(),
                u@ == user@,
                forall|k: int| 0 <= k < i ==> self.entries@[k].0@ != user@,
            decreases self.entries.len() - i,
        {
            if self.entries[i].0 == u {
                return Some(i);
            }
            i = i + 1;
        }
        None
    }

    /// The challenge pending for `user`, if any.
    fn get(&self, user: &str) -> (r: Option<CaptchaState>)
        requires
            self.wf(),
        ensures
            r matches Some(st) ==> self.view().dom().contains(user@) && self.view()[user@] == st@,
            r is None ==> !self.view().dom().contains(user@),
    {
        match self.position(user) {
            Some(i) => {
                proof {
                    self.lemma_index(i as int);
                }
                Some(self.entries[i].1.duplicate())
            },
            None => None,
        }
    }

    /// Records `state` as the challenge of `user`, replacing any pending one.
    fn insert(&mut self, user: String, state: CaptchaState)
        requires
            old(self).wf(),
        ensures
            final(self).wf(),
            final(self).view() == old(self).view().insert(user@, state@),
    {
        let ghost old_self = *self;
        let ghost u = user@;
        let ghost sv = state@;
        match self.position(user.as_str()) {
            Some(i) => {
                self.entries.set(i, (user, state));
                proof {
                    self.lemma_index(i as int);
                }
                assert(self.wf()) by {
                    assert forall|a: int, b: int|
                        0 <= a < b < self.entries@.len() implies #[trigger] self.entries@[a].0@
                        != #[trigger] self.entries@[b].0@ by {
                        assert(old_self.entries@[a].0@ != old_self.entries@[b].0@);
                    }
                }
                assert forall|w: Seq<char>|
                    self.has(w) == (old_self.has(w) || w == u) by {
                    if old_self.has(w) {
                        let k = old_self.index_of(w);
                        assert(self.entries@[k].0@ == w);
                    }
                    if self.has(w) {
                        let k = self.index_of(w);
                        if k != i {
                            assert(old_self.entries@[k].0@ == w);
                        }
                    }
                }
                assert forall|w: Seq<char>| #[trigger] self.has(w) implies self.view()[w] == old_self.view().insert(
                    u,
                    sv,
                )[w] by {
                    let k = self.index_of(w);
                    self.lemma_index(k);
                    if w != u {
                        old_self.lemma_index(k);
                    }
                }
                assert(self.view() =~= old_self.view().insert(u, sv));
            },
            None => {
                self.entries.push((user, state));
                let ghost n: int = self.entries@.len() - 1;
                assert(self.wf()) by {
                    assert forall|a: int, b: int|
                        0 <= a < b < self.entries@.len() implies #[trigger] self.entries@[a].0@
                        != #[trigger] self.entries@[b].0@ by {
                        if b == n {
                            assert(old_self.entries@[a].0@ != u);
                        } else {
                            assert(old_self.entries@[a].0@ != old_self.entries@[b].0@);
                        }
                    }
                }
                assert forall|w: Seq<char>|
                    self.has(w) == (old_self.has(w) || w == u) by {
                    if old_self.has(w) {
                        let k = old_self.index_of(w);
                        assert(self.entries@[k].0@ == w);
                    }
                    if w == u {
                        assert(self.entries@[n].0@ == w);
                    }
                    if self.has(w) {
                        let k = self.index_of(w);
                        if k != n {
                            assert(old_self.entries@[k].0@ == w);
                        }
                    }
                }
                assert forall|w: Seq<char>| #[trigger] self.has(w) implies self.view()[w] == old_self.view().insert(
                    u,
                    sv,
                )[w] by {
                    let k = self.index_of(w);
                    self.lemma_index(k);
                    if w != u {
                        old_self.lemma_index(k);
                    }
                }
                assert(self.view() =~= old_self.view().insert(u, sv));
            },
        }
    }

    /// Drops the challenge of `user`, if any.
    fn remove(&mut self, user: &str)
        requires
            old(self).wf(),
        ensures
            final(self).wf(),
            final(self).view() == old(self).view().remove(user@),
    {
        let ghost old_self = *self;
        match self.position(user) {
            Some(i) => {
                self.entries.remove(i);
                let ghost shift = |k: int| if k < i { k } else { k + 1 };
                assert forall|k: int| 0 <= k < self.entries@.len() implies #[trigger] self.entries@[k]
                    == old_self.entries@[shift(k)] by {}
                assert(self.wf()) by {
                    assert forall|a: int, b: int|
                        0 <= a < b < self.entries@.len() implies #[trigger] self.entries@[a].0@
                        != #[trigger] self.entries@[b].0@ by {
                        assert(self.entries@[a] == old_self.entries@[shift(a)]);
                        assert(self.entries@[b] == old_self.entries@[shift(b)]);
                        assert(old_self.entries@[shift(a)].0@ != old_self.entries@[shift(b)].0@);
                    }
                }
                assert forall|w: Seq<char>|
                    self.has(w) == (old_self.has(w) && w != user@) by {
                    if old_self.has(w) && w != user@ {
                        let k = old_self.index_of(w);
                        old_self.lemma_index(k);
                        assert(k != i);
                        let k2 = if k < i { k } else { k - 1 };
                        assert(self.entries@[k2] == old_self.entries@[shift(k2)]);
                    }
                    if self.has(w) {
                        let k = self.index_of(w);
                        assert(self.entries@[k] == old_self.entries@[shift(k)]);
                        assert(old_self.entries@[shift(k)].0@ == w);
                        assert(shift(k) != i) by {
                            if shift(k) == i {
                            }
                        }
                        if w == user@ {
                            if shift(k) < i {
                                assert(old_self.entries@[shift(k)].0@ != old_self.entries@[i as int].0@);
                            } else {
                                assert(old_self.entries@[i as int].0@ != old_self.entries@[shift(k)].0@);
                            }
                        }
                    }
                }
                assert forall|w: Seq<char>| #[trigger] self.has(w) implies self.view()[w] == old_self.view()[w] by {
                    let k = self.index_of(w);
                    self.lemma_index(k);
                    assert(self.entries@[k] == old_self.entries@[shift(k)]);
                    old_self.lemma_index(shift(k));
                }
                assert(self.view() =~= old_self.view().remove(user@));
            },
            None => {
                assert(self.view() =~= old_self.view().remove(user@));
            },
        }
    }
}

/// The pending challenges, one per user.
pub struct CaptchaStore {
    entries: Entries,
}

impl CaptchaStore {
    /// No user has two entries.
    #[verifier::type_invariant]
    spec fn wf(self) -> bool {
        self.entries.wf()
    }

    /// The pending challenges by user id.
    pub closed spec fn view(&self) -> Map<Seq<char>, StateView> {
        self.entries.view()
    }

    /// No challenge is pending.
    pub fn new() -> (s: CaptchaStore)
        ensures
            s.view() == Map::<Seq<char>, StateView>::empty(),
    {
        CaptchaStore { entries: Entries::new() }
    }

    /// The challenge pending for `user`, if any.
    pub fn get(&self, user: &str) -> (r: Option<CaptchaState>)
        ensures
            r matches Some(st) ==> self.view().dom().contains(user@) && self.view()[user@] == st@,
            r is None ==> !self.view().dom().contains(user@),
    {
        proof {
            use_type_invariant(self);
        }
        self.entries.get(user)
    }

    /// Records `state` as the challenge of `user`, replacing any pending one.
    pub fn insert(&mut self, user: String, state: CaptchaState)
        ensures
            final(self).view() == old(self).view().insert(user@, state@),
    {
        proof {
            use_type_invariant(&*self);
        }
        let mut e = Entries::new();
        std::mem::swap(&mut e, &mut self.entries);
        e.insert(user, state);
        self.entries = e;
    }

    /// Drops the challenge of `user`, if any.
    pub fn remove(&mut self, user: &str)
        ensures
            final(self).view() == old(self).view().remove(user@),
    {
        proof {
            use_type_invariant(&*self);
        }
        let mut e = Entries::new();
        std::mem::swap(&mut e, &mut self.entries);
        e.remove(user);
        self.entries = e;
    }
}

/// What a message does to the pending challenges.
pub enum DmAnswer {
    /// Nothing: it was posted in a guild, or no challenge is pending for its author.
    NotPending,
    /// The answer is right: give `role_ids` in `guild_id` and post `reply`; the
    /// challenge is dropped.
    Solved { guild_id: String, role_ids: Vec<String>, reply: Embed },
    /// The answer is wrong: post `reply`; the challenge stays.
    Wrong(Embed),
}

/// The value of a `DmAnswer`.
pub enum DmAnswerView {
    NotPending,
    Solved(Seq<char>, Seq<Seq<char>>, EmbedView),
    Wrong(EmbedView),
}

impl View for DmAnswer {
    type V = DmAnswerView;

    open spec fn view(&self) -> DmAnswerView {
        match self {
            DmAnswer::NotPending => DmAnswerView::NotPending,
            DmAnswer::Solved { guild_id, role_ids, reply } => DmAnswerView::Solved(
                guild_id@,
                texts(role_ids@),
                reply@,
            ),
            DmAnswer::Wrong(e) => DmAnswerView::Wrong(e@),
        }
    }
}

/// The answer to the message `text` by `user`, posted in a guild or not,
/// given the pending challenges: only a direct message from a user with a
/// pending challenge counts; a right answer gives the challenge's roles in its
/// guild, a wrong one is told so.
pub open spec fn dm_answer_spec(
    pending: Map<Seq<char>, StateView>,
    in_guild: bool,
    user: Seq<char>,
    text: Seq<char>,
) -> DmAnswerView {
    if in_guild || !pending.dom().contains(user) {
        DmAnswerView::NotPending
    } else if solves(pending[user], text) {
        DmAnswerView::Solved(pending[user].guild_id, role_list_items(pending[user].roles), solved_card())
    } else {
        DmAnswerView::Wrong(wrong_card())
    }
}

/// The pending challenges after that message: a solved challenge is dropped,
/// the others stay.
pub open spec fn dm_pending_after(
    pending: Map<Seq<char>, StateView>,
    in_guild: bool,
    user: Seq<char>,
    text: Seq<char>,
) -> Map<Seq<char>, StateView> {
    if !in_guild && pending.dom().contains(user) && solves(pending[user], text) {
        pending.remove(user)
    } else {
        pending
    }
}

/// Handles the message `text` by `user` (posted in a guild when `in_guild`)
/// against the pending challenges in `store`.
pub fn answer_dm(store: &mut CaptchaStore, in_guild: bool, user: &str, text: &str) -> (r: DmAnswer)
    ensures
        r@ == dm_answer_spec(old(store).view(), in_guild, user@, text@),
        final(store).view() == dm_pending_after(old(store).view(), in_guild, user@, text@),
{
    if in_guild {
        return DmAnswer::NotPending;
    }
    match store.get(user) {
        None => DmAnswer::NotPending,
        Some(state) => {
            if is_solved(&state, text) {
                let role_ids = split_role_list(state.roles.as_str());
                store.remove(user);
                DmAnswer::Solved { guild_id: state.guild_id, role_ids, reply: solved_embed() }
            } else {
                DmAnswer::Wrong(wrong_embed())
            }
        },
    }
}

} // verus!
