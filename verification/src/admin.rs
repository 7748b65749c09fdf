//! Who may use the moderation commands.
use vstd::prelude::*;
use crate::embed::{Embed, EmbedView, embed_error, error_card};
use crate::ids::opt_view;
use crate::text::{chars_of, parse_u64, parse_u64_spec, texts};

verus! {

/// A permission set lets its holder moderate when it has any of the bits
/// Administrator (8), Manage Guild (32), Ban Members (4) or Kick Members (2).
pub open spec fn grants_moderation(perms: u64) -> bool {
    (perms & 8) == 8 || (perms & 32) == 32 || (perms & 4) == 4 || (perms & 2) == 2
}

/// Whether the permission set `perms` lets its holder moderate.
pub fn permits_moderation(perms: u64) -> (r: bool)
    ensures
        r == grants_moderation(perms),
{
    (perms & 8) == 8 || (perms & 32) == 32 || (perms & 4) == 4 || (perms & 2) == 2
}

/// A permission set lets its holder moderate exactly when it has at least one
/// of the bits Kick Members (2), Ban Members (4), Administrator (8) or Manage
/// Guild (32); in particular Ban Members alone suffices, and a set with none
/// of these bits does not.
pub proof fn lemma_moderation_bits(perms: u64)
    ensures
        grants_moderation(perms) <==> (perms & 46u64) != 0,
        (perms & 4u64) == 4 ==> grants_moderation(perms),
        (perms & 2u64) == 2 ==> grants_moderation(perms),
        (perms & 8u64) == 8 ==> grants_moderation(perms),
        (perms & 32u64) == 32 ==> grants_moderation(perms),
{
    assert(((perms & 8) == 8 || (perms & 32) == 32 || (perms & 4) == 4 || (perms & 2) == 2) <==> (
    perms & 46u64) != 0) by (bit_vector);
}

/// A role of a guild as the guild lists it: its id and its permission set
/// written as a decimal number, each when present.
pub struct RoleInfo {
    pub id: Option<String>,
    pub permissions: Option<String>,
}

/// The value of a `RoleInfo`.
pub struct RoleView {
    pub id: Option<Seq<char>>,
    pub permissions: Option<Seq<char>>,
}

impl View for RoleInfo {
    type V = RoleView;

    open spec fn view(&self) -> RoleView {
        RoleView { id: opt_view(self.id), permissions: opt_view(self.permissions) }
    }
}

/// The role `r` is held by a member with the roles `member_roles` and lets them moderate.
pub open spec fn role_grants(member_roles: Seq<Seq<char>>, r: RoleView) -> bool {
    &&& r.id matches Some(id)
    &&& member_roles.contains(id)
    &&& r.permissions matches Some(p)
    &&& parse_u64_spec(p) matches Some(n)
    &&& grants_moderation(n)
}

/// Some role of the guild grants moderation to a member with `member_roles`.
pub open spec fn roles_grant_spec(member_roles: Seq<Seq<char>>, roles: Seq<RoleView>) -> bool {
    exists|i: int| 0 <= i < roles.len() && role_grants(member_roles, #[trigger] roles[i])
}

fn contains_text(v: &Vec<String>, s: &String) -> (r: bool)
    ensures
        r == texts(v@).contains(s@),
{
    let mut i: usize = 0;
    while i < v.len()
        invariant
            i <= v.len(),
            forall|k: int| 0 <= k < i ==> v@[k]@ != s@,
        decreases v.len() - i,
    {
        if v[i] == *s {
            assert(texts(v@)[i as int] == s@);
            return true;
        }
        i = i + 1;
    }
    assert forall|k: int| 0 <= k < texts(v@).len() implies texts(v@)[k] != s@ by {
        assert(texts(v@)[k] == v@[k]@);
    }
    false
}

/// Whether one of the guild's `roles` is held by a member with `member_roles`
/// and lets them moderate.
pub fn roles_grant(member_roles: &Vec<String>, roles: &Vec<RoleInfo>) -> (r: bool)
    ensures
        r == roles_grant_spec(texts(member_roles@), roles@.map_values(|x: RoleInfo| x@)),
{
    let ghost rv = roles@.map_values(|x: RoleInfo| x@);
    let mut i: usize = 0;
    while i < roles.len()
        invariant
            i <= roles.len(),
            rv == roles@.map_values(|x: RoleInfo| x@),
            forall|k: int| 0 <= k < i ==> !role_grants(texts(member_roles@), #[trigger] rv[k]),
        decreases roles.len() - i,
    {
        let role = &roles[i];
        assert(rv[i as int] == role@);
        if let Some(id) = &role.id {
            if contains_text(member_roles, id) {
                if let Some(p) = &role.permissions {
                    if let Some(n) = parse_u64(&chars_of(p.as_str())) {
                        if permits_moderation(n) {
                            assert(role_grants(texts(member_roles@), rv[i as int]));
                            return true;
                        }
                    }
                }
            }
        }
        i = i + 1;
    }
    false
}

/// The owner of the guild may moderate: the author is the owner the guild names.
pub open spec fn owner_grants_spec(owner_id: Option<Seq<char>>, author_id: Seq<char>) -> bool {
    owner_id == Some(author_id)
}

/// Whether `author_id` is the guild owner `owner_id` (none when the guild could not be fetched).
pub fn owner_grants(owner_id: &Option<String>, author_id: &String) -> (r: bool)
    ensures
        r == owner_grants_spec(opt_view(*owner_id), author_id@),
{
    match owner_id {
        Some(o) => *o == *author_id,
        None => false,
    }
}

/// The author `author_id` may moderate: as the owner `owner_id` of the guild
/// (none when the guild could not be fetched), or through one of the guild's
/// `roles` among the author's `member_roles`.
pub open spec fn admin_verdict_spec(
    owner_id: Option<Seq<char>>,
    author_id: Seq<char>,
    member_roles: Seq<Seq<char>>,
    roles: Seq<RoleView>,
) -> bool {
    owner_grants_spec(owner_id, author_id) || roles_grant_spec(member_roles, roles)
}

/// Whether `author_id` may moderate, given the guild's owner, the author's
/// roles and the guild's roles (each empty or none when it could not be fetched).
pub fn admin_verdict(
    owner_id: &Option<String>,
    author_id: &String,
    member_roles: &Vec<String>,
    roles: &Vec<RoleInfo>,
) -> (r: bool)
    ensures
        r == admin_verdict_spec(
            opt_view(*owner_id),
            author_id@,
            texts(member_roles@),
            roles@.map_values(|x: RoleInfo| x@),
        ),
{
    owner_grants(owner_id, author_id) || roles_grant(member_roles, roles)
}

/// The reply to a member who may not moderate.
pub open spec fn access_denied_card() -> EmbedView {
    error_card("Access Denied"@).describe(
        "You need Administrator permissions to use this command."@,
    )
}

/// The reply to a member who may not moderate; it is posted as a transient reply.
pub fn access_denied() -> (e: Embed)
    ensures
        e@ == access_denied_card(),
{
    embed_error("Access Denied").description_str(
        "You need Administrator permissions to use this command.",
    )
}

/// A member who holds a role whose permission text is a number with one of
/// the moderation bits (Kick Members, Ban Members, Administrator, Manage
/// Guild) may moderate, whoever owns the guild.
pub proof fn lemma_role_admits(
    owner_id: Option<Seq<char>>,
    author_id: Seq<char>,
    member_roles: Seq<Seq<char>>,
    roles: Seq<RoleView>,
    i: int,
    id: Seq<char>,
    p: Seq<char>,
    n: u64,
)
    requires
        0 <= i < roles.len(),
        roles[i].id == Some(id),
        roles[i].permissions == Some(p),
        member_roles.contains(id),
        parse_u64_spec(p) == Some(n),
        (n & 46u64) != 0,
    ensures
        admin_verdict_spec(owner_id, author_id, member_roles, roles),
{
    lemma_moderation_bits(n);
    assert(role_grants(member_roles, roles[i]));
}

} // verus!
