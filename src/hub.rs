use crate::channel::{Channel, Message, MessageView};
use crate::error::{Error, Result};
use crate::permission::{
    ChannelPermission, ChannelPermissions, HubPermission, HubPermissions, PermissionSetting,
};
use crate::{
    byte_len, fresh_id, get_system_millis, is_valid_name, new_id, ID, MAX_NAME_SIZE,
    MESSAGE_MAX_SIZE,
};
use std::collections::{HashMap, HashSet};
use vstd::prelude::*;
use vstd::std_specs::iter::IteratorSpec;

verus! {

broadcast use vstd::std_specs::hash::group_hash_axioms;

/// A user, as far as hubs know of one.
#[derive(Debug)]
pub struct User {
    /// ID of the user.
    pub id: ID,
    /// Name of the user, used as the initial nickname in a hub.
    pub username: String,
}

/// Whether a setting is present and equal to `v`.
pub open spec fn is_set(s: Option<PermissionSetting>, v: PermissionSetting) -> bool {
    s == Some(v)
}

/// A user's membership of a hub, with the member's own permissions.
#[derive(Debug)]
pub struct HubMember {
    pub user: ID,
    pub joined: u128,
    pub hub: ID,
    pub nickname: String,
    /// IDs of the groups the member is in, in order of joining.
    pub groups: Vec<ID>,
    pub hub_permissions: HubPermissions,
    pub channel_permissions: HashMap<ID, ChannelPermissions>,
}

/// A named bundle of permissions granted to its members.
#[derive(Debug)]
pub struct PermissionGroup {
    pub id: ID,
    pub name: String,
    /// IDs of the users in the group.
    pub members: Vec<ID>,
    pub hub_permissions: HubPermissions,
    pub channel_permissions: HashMap<ID, ChannelPermissions>,
    pub created: u128,
}

/// A hub: channels, members, groups and moderation lists.
#[derive(Debug)]
pub struct Hub {
    pub channels: HashMap<ID, Channel>,
    pub members: HashMap<ID, HubMember>,
    pub bans: HashSet<ID>,
    pub mutes: HashSet<ID>,
    pub owner: ID,
    pub groups: HashMap<ID, PermissionGroup>,
    pub default_group: ID,
    pub name: String,
    pub id: ID,
    pub created: u128,
}

/// Index of the first occurrence of `x` in `s`.
pub open spec fn is_first_index(s: Seq<ID>, x: ID, i: int) -> bool {
    &&& 0 <= i < s.len()
    &&& s[i] == x
    &&& forall|j: int| 0 <= j < i ==> s[j] != x
}

/// `s` with its first occurrence of `x` removed; `s` itself when `x` does not occur.
pub open spec fn without_first(s: Seq<ID>, x: ID) -> Seq<ID> {
    if s.contains(x) {
        s.remove(choose|i: int| is_first_index(s, x, i))
    } else {
        s
    }
}

/// Whether `v` holds `x`.
pub fn vec_contains(v: &Vec<ID>, x: ID) -> (r: bool)
    ensures
        r == v@.contains(x),
{
    let mut i: usize = 0;
    while i < v.len()
        invariant
            i <= v.len(),
            forall|j: int| 0 <= j < i ==> v@[j] != x,
        decreases v.len() - i,
    {
        if v[i] == x {
            return true;
        }
        i = i + 1;
    }
    false
}

/// Removes the first occurrence of `x` from `v`, if any.
pub fn vec_remove_first(v: &mut Vec<ID>, x: ID)
    ensures
        final(v)@ == without_first(old(v)@, x),
{
    let mut i: usize = 0;
    while i < v.len()
        invariant
            i <= v.len(),
            v@ == old(v)@,
            forall|j: int| 0 <= j < i ==> v@[j] != x,
        decreases v.len() - i,
    {
        if v[i] == x {
            proof {
                assert(is_first_index(v@, x, i as int));
                let k = choose|k: int| is_first_index(v@, x, k);
                if k < i {
                    assert(v@[k] != x);
                } else if i < k {
                    assert(v@[i as int] != x);
                }
            }
            v.remove(i);
            return;
        }
        i = i + 1;
    }
}

/// `v` with every occurrence of `x` left out, as a set.
pub fn vec_without(v: &Vec<ID>, x: ID) -> (r: Vec<ID>)
    ensures
        r@.to_set() == v@.to_set().remove(x),
{
    let mut r: Vec<ID> = Vec::new();
    let mut i: usize = 0;
    while i < v.len()
        invariant
            i <= v.len(),
            r@.to_set() == v@.take(i as int).to_set().remove(x),
        decreases v.len() - i,
    {
        assert(v@.take(i + 1) == v@.take(i as int).push(v@[i as int]));
        proof {
            v@.take(i as int).lemma_push_to_set_commute(v@[i as int]);
            r@.lemma_push_to_set_commute(v@[i as int]);
        }
        if v[i] != x {
            r.push(v[i]);
        }
        assert(r@.to_set() =~= v@.take(i + 1).to_set().remove(x));
        i = i + 1;
    }
    assert(v@.take(v.len() as int) == v@);
    r
}

/// `s.push(x)` contains exactly what `s` contains, and `x`.
pub proof fn lemma_push_contains<A>(s: Seq<A>, x: A, y: A)
    ensures
        s.push(x).contains(y) <==> (s.contains(y) || y == x),
{
    if s.contains(y) {
        let i = choose|i: int| 0 <= i < s.len() && s[i] == y;
        assert(s.push(x)[i] == y);
    }
    if y == x {
        assert(s.push(x)[s.len() as int] == y);
    }
    if s.push(x).contains(y) {
        let i = choose|i: int| 0 <= i < s.len() + 1 && s.push(x)[i] == y;
        if i < s.len() {
            assert(s[i] == y);
        }
    }
}

impl HubMember {
    /// All fields but `groups` agree.
    pub open spec fn same_except_groups(&self, o: HubMember) -> bool {
        &&& self.user == o.user
        &&& self.joined == o.joined
        &&& self.hub == o.hub
        &&& self.nickname == o.nickname
        &&& self.hub_permissions == o.hub_permissions
        &&& self.channel_permissions == o.channel_permissions
    }

    /// The fields agree, up to their views.
    pub open spec fn same_as(&self, o: HubMember) -> bool {
        &&& self.user == o.user
        &&& self.joined == o.joined
        &&& self.hub == o.hub
        &&& self.nickname@ == o.nickname@
        &&& self.groups@ == o.groups@
        &&& self.hub_permissions == o.hub_permissions
        &&& self.channel_permissions@ == o.channel_permissions@
    }

    /// The member has `All` set to `TRUE` at the hub level.
    pub open spec fn spec_has_all_permissions(&self) -> bool {
        is_set(self.hub_permissions.spec_get(HubPermission::All), PermissionSetting::TRUE)
    }

    /// Some group of the member that exists in `hub` grants hub permission `p`.
    pub open spec fn some_group_grants(&self, hub: &Hub, p: HubPermission) -> bool {
        exists|i: int|
            0 <= i < self.groups@.len() && hub.groups@.contains_key(#[trigger] self.groups@[i])
                && hub.groups@[self.groups@[i]].grants(p)
    }

    /// Some group of the member that exists in `hub` grants channel permission `p` on `c`.
    pub open spec fn some_group_grants_channel(
        &self,
        hub: &Hub,
        c: ID,
        p: ChannelPermission,
    ) -> bool {
        exists|i: int|
            0 <= i < self.groups@.len() && hub.groups@.contains_key(#[trigger] self.groups@[i])
                && hub.groups@[self.groups@[i]].grants_channel(c, p)
    }

    /// Hub permission evaluation: the owner and `All = TRUE` always pass; then the member's
    /// own entry for `p` decides when it is `TRUE` or `FALSE`; otherwise the member's groups
    /// can grant it.
    pub open spec fn spec_has_permission(&self, p: HubPermission, hub: &Hub) -> bool {
        if self.user == hub.owner {
            true
        } else if self.spec_has_all_permissions() {
            true
        } else if is_set(self.hub_permissions.spec_get(p), PermissionSetting::TRUE) {
            true
        } else if is_set(self.hub_permissions.spec_get(p), PermissionSetting::FALSE) {
            false
        } else {
            self.some_group_grants(hub, p)
        }
    }

    /// Channel permission evaluation: the owner and `All = TRUE` at the hub level always pass.
    /// Where the member has entries for channel `c`, they decide: `All` or `p` set to `TRUE`
    /// passes, `p` set to `FALSE` fails, `p` set to `NONE` falls back to the hub equivalent of
    /// `p`, no entry for `p` fails. Where the member has no entries for `c`, the member's groups
    /// can grant it.
    pub open spec fn spec_has_channel_permission(
        &self,
        c: ID,
        p: ChannelPermission,
        hub: &Hub,
    ) -> bool {
        if self.user == hub.owner || self.spec_has_all_permissions() {
            true
        } else if self.channel_permissions@.contains_key(c) {
            let t = self.channel_permissions@[c];
            if is_set(t.spec_get(ChannelPermission::All), PermissionSetting::TRUE) {
                true
            } else if is_set(t.spec_get(p), PermissionSetting::TRUE) {
                true
            } else if is_set(t.spec_get(p), PermissionSetting::NONE) {
                self.spec_has_permission(p.spec_hub_equivalent(), hub)
            } else {
                false
            }
        } else {
            self.some_group_grants_channel(hub, c, p)
        }
    }

    /// A new member for `user` in hub `hub`, with the user's name as nickname, no groups and
    /// no permissions set.
    pub fn new(user: &User, hub: ID) -> (r: Self)
        ensures
            r.user == user.id,
            r.hub == hub,
            r.nickname@ == user.username@,
            r.groups@ == Seq::<ID>::empty(),
            forall|p: HubPermission| r.hub_permissions.spec_get(p).is_none(),
            r.channel_permissions@ == Map::<ID, ChannelPermissions>::empty(),
    {
        HubMember {
            nickname: user.username.clone(),
            user: user.id,
            hub,
            groups: Vec::new(),
            joined: get_system_millis(),
            hub_permissions: HubPermissions::new(),
            channel_permissions: HashMap::new(),
        }
    }

    /// A copy of the member.
    pub fn duplicate(&self) -> (r: Self)
        ensures
            r.same_as(*self),
    {
        let groups = self.groups.clone();
        assert(groups@ =~= self.groups@);
        HubMember {
            user: self.user,
            joined: self.joined,
            hub: self.hub,
            nickname: self.nickname.clone(),
            groups,
            hub_permissions: self.hub_permissions,
            channel_permissions: self.channel_permissions.clone(),
        }
    }

    /// Sets the nickname if it is a valid name.
    pub fn set_nickname(&mut self, nickname: String) -> (r: core::result::Result<(), ()>)
        ensures
            r is Ok <==> byte_len(nickname@) <= MAX_NAME_SIZE,
            r is Ok ==> final(self).nickname@ == nickname@,
            r is Err ==> final(self).nickname == old(self).nickname,
            final(self).same_except_nickname(*old(self)),
    {
        if is_valid_name(nickname.as_str()) {
            self.nickname = nickname;
            Ok(())
        } else {
            Err(())
        }
    }

    /// All fields but `nickname` agree.
    pub open spec fn same_except_nickname(&self, o: HubMember) -> bool {
        &&& self.user == o.user
        &&& self.joined == o.joined
        &&& self.hub == o.hub
        &&& self.groups == o.groups
        &&& self.hub_permissions == o.hub_permissions
        &&& self.channel_permissions == o.channel_permissions
    }

    /// Joins `group`: the group's ID is added to the member's groups and the member's user to
    /// the group's members, each only where it is not there yet.
    pub fn join_group(&mut self, group: &mut PermissionGroup)
        ensures
            final(self).groups@ == (if old(self).groups@.contains(old(group).id) {
                old(self).groups@
            } else {
                old(self).groups@.push(old(group).id)
            }),
            final(group).members@ == (if old(group).members@.contains(old(self).user) {
                old(group).members@
            } else {
                old(group).members@.push(old(self).user)
            }),
            final(group).same_except_members(*old(group)),
            final(self).same_except_groups(*old(self)),
    {
        if !vec_contains(&self.groups, group.id) {
            self.groups.push(group.id);
        }
        if !vec_contains(&group.members, self.user) {
            group.members.push(self.user);
        }
    }

    /// Leaves `group`, removing the link on both sides.
    pub fn leave_group(&mut self, group: &mut PermissionGroup)
        ensures
            final(self).groups@ == without_first(old(self).groups@, old(group).id),
            final(group).members@ == without_first(old(group).members@, old(self).user),
            final(group).same_except_members(*old(group)),
            final(self).same_except_groups(*old(self)),
    {
        vec_remove_first(&mut self.groups, group.id);
        vec_remove_first(&mut group.members, self.user);
    }

    /// Sets hub permission `permission` to `value`.
    pub fn set_permission(&mut self, permission: HubPermission, value: PermissionSetting)
        ensures
            final(self).hub_permissions.spec_get(permission) == Some(value),
            forall|q: HubPermission|
                q != permission ==> final(self).hub_permissions.spec_get(q) == old(
                    self,
                ).hub_permissions.spec_get(q),
            final(self).user == old(self).user,
            final(self).joined == old(self).joined,
            final(self).hub == old(self).hub,
            final(self).nickname == old(self).nickname,
            final(self).groups == old(self).groups,
            final(self).channel_permissions == old(self).channel_permissions,
    {
        self.hub_permissions.insert(permission, value);
    }

    /// Sets channel permission `permission` on `channel` to `value`.
    pub fn set_channel_permission(
        &mut self,
        channel: ID,
        permission: ChannelPermission,
        value: PermissionSetting,
    )
        ensures
            channel_permission_set(
                old(self).channel_permissions@,
                final(self).channel_permissions@,
                channel,
                permission,
                value,
            ),
            final(self).user == old(self).user,
            final(self).joined == old(self).joined,
            final(self).hub == old(self).hub,
            final(self).nickname == old(self).nickname,
            final(self).groups == old(self).groups,
            final(self).hub_permissions == old(self).hub_permissions,
    {
        set_in_table(&mut self.channel_permissions, channel, permission, value);
    }

    /// Whether `All` is set to `TRUE` at the hub level.
    pub fn has_all_permissions(&self) -> (r: bool)
        ensures
            r == self.spec_has_all_permissions(),
    {
        match self.hub_permissions.get(HubPermission::All) {
            Some(PermissionSetting::TRUE) => true,
            _ => false,
        }
    }

    fn any_group_grants(&self, permission: HubPermission, hub: &Hub) -> (r: bool)
        ensures
            r == self.some_group_grants(hub, permission),
    {
        let mut i: usize = 0;
        while i < self.groups.len()
            invariant
                i <= self.groups.len(),
                forall|j: int|
                    0 <= j < i ==> !(hub.groups@.contains_key(#[trigger] self.groups@[j])
                        && hub.groups@[self.groups@[j]].grants(permission)),
            decreases self.groups.len() - i,
        {
            if let Some(group) = hub.groups.get(&self.groups[i]) {
                if group.has_permission(&permission) {
                    return true;
                }
            }
            i = i + 1;
        }
        false
    }

    fn any_group_grants_channel(
        &self,
        channel: &ID,
        permission: &ChannelPermission,
        hub: &Hub,
    ) -> (r: bool)
        ensures
            r == self.some_group_grants_channel(hub, *channel, *permission),
    {
        let mut i: usize = 0;
        while i < self.groups.len()
            invariant
                i <= self.groups.len(),
                forall|j: int|
                    0 <= j < i ==> !(hub.groups@.contains_key(#[trigger] self.groups@[j])
                        && hub.groups@[self.groups@[j]].grants_channel(*channel, *permission)),
            decreases self.groups.len() - i,
        {
            if let Some(group) = hub.groups.get(&self.groups[i]) {
                if group.has_channel_permission(channel, permission) {
                    return true;
                }
            }
            i = i + 1;
        }
        false
    }

    /// Whether the member has hub permission `permission` in `hub`.
    pub fn has_permission(&self, permission: HubPermission, hub: &Hub) -> (r: bool)
        ensures
            r == self.spec_has_permission(permission, hub),
    {
        if hub.owner == self.user {
            return true;
        }
        if self.has_all_permissions() {
            return true;
        }
        match self.hub_permissions.get(permission) {
            Some(PermissionSetting::TRUE) => true,
            Some(PermissionSetting::FALSE) => false,
            _ => self.any_group_grants(permission, hub),
        }
    }

    /// Whether the member has channel permission `permission` on `channel` in `hub`.
    pub fn has_channel_permission(
        &self,
        channel: &ID,
        permission: &ChannelPermission,
        hub: &Hub,
    ) -> (r: bool)
        ensures
            r == self.spec_has_channel_permission(*channel, *permission, hub),
    {
        if hub.owner == self.user {
            return true;
        }
        if self.has_all_permissions() {
            return true;
        }
        match self.channel_permissions.get(channel) {
            Some(table) => {
                if let Some(PermissionSetting::TRUE) = table.get(ChannelPermission::All) {
                    return true;
                }
                match table.get(*permission) {
                    Some(PermissionSetting::TRUE) => true,
                    Some(PermissionSetting::FALSE) => false,
                    Some(PermissionSetting::NONE) => self.has_permission(
                        permission.hub_equivalent(),
                        hub,
                    ),
                    None => false,
                }
            },
            None => self.any_group_grants_channel(channel, permission, hub),
        }
    }
}

impl PermissionGroup {
    /// The group has `All` set to `TRUE`.
    pub open spec fn spec_has_all_permissions(&self) -> bool {
        is_set(self.hub_permissions.spec_get(HubPermission::All), PermissionSetting::TRUE)
    }

    /// The group grants hub permission `p`: `All` or `p` is set to `TRUE`.
    pub open spec fn grants(&self, p: HubPermission) -> bool {
        self.spec_has_all_permissions() || is_set(
            self.hub_permissions.spec_get(p),
            PermissionSetting::TRUE,
        )
    }

    /// The group grants channel permission `p` on channel `c`: through `All` at the hub level,
    /// or through the group's entries for `c` (`All` or `p` set to `TRUE`, or `p` set to `NONE`
    /// and the group grants the hub equivalent of `p`).
    pub open spec fn grants_channel(&self, c: ID, p: ChannelPermission) -> bool {
        self.spec_has_all_permissions() || (self.channel_permissions@.contains_key(c) && {
            let t = self.channel_permissions@[c];
            is_set(t.spec_get(ChannelPermission::All), PermissionSetting::TRUE) || is_set(
                t.spec_get(p),
                PermissionSetting::TRUE,
            ) || (is_set(t.spec_get(p), PermissionSetting::NONE) && self.grants(
                p.spec_hub_equivalent(),
            ))
        })
    }

    /// Creates an empty group with no permissions set.
    pub fn new(name: String, id: ID) -> (r: Self)
        ensures
            r.id == id,
            r.name@ == name@,
            r.members@ == Seq::<ID>::empty(),
            forall|p: HubPermission| r.hub_permissions.spec_get(p).is_none(),
            r.channel_permissions@ == Map::<ID, ChannelPermissions>::empty(),
    {
        PermissionGroup {
            created: get_system_millis(),
            id,
            name,
            members: Vec::new(),
            hub_permissions: HubPermissions::new(),
            channel_permissions: HashMap::new(),
        }
    }

    /// Adds `user` to the group, on both sides.
    pub fn add_member(&mut self, user: &mut HubMember)
        ensures
            final(user).groups@ == (if old(user).groups@.contains(old(self).id) {
                old(user).groups@
            } else {
                old(user).groups@.push(old(self).id)
            }),
            final(self).members@ == (if old(self).members@.contains(old(user).user) {
                old(self).members@
            } else {
                old(self).members@.push(old(user).user)
            }),
            final(self).same_except_members(*old(self)),
            final(user).same_except_groups(*old(user)),
    {
        user.join_group(self)
    }

    /// Removes `user` from the group, on both sides.
    pub fn remove_member(&mut self, user: &mut HubMember)
        ensures
            final(user).groups@ == without_first(old(user).groups@, old(self).id),
            final(self).members@ == without_first(old(self).members@, old(user).user),
            final(self).same_except_members(*old(self)),
            final(user).same_except_groups(*old(user)),
    {
        user.leave_group(self)
    }

    /// All fields but `members` agree.
    pub open spec fn same_except_members(&self, o: PermissionGroup) -> bool {
        &&& self.id == o.id
        &&& self.name == o.name
        &&& self.hub_permissions == o.hub_permissions
        &&& self.channel_permissions == o.channel_permissions
        &&& self.created == o.created
    }

    /// Sets hub permission `permission` to `value`.
    pub fn set_permission(&mut self, permission: HubPermission, value: PermissionSetting)
        ensures
            final(self).hub_permissions.spec_get(permission) == Some(value),
            forall|q: HubPermission|
                q != permission ==> final(self).hub_permissions.spec_get(q) == old(
                    self,
                ).hub_permissions.spec_get(q),
            final(self).id == old(self).id,
            final(self).name == old(self).name,
            final(self).members == old(self).members,
            final(self).channel_permissions == old(self).channel_permissions,
            final(self).created == old(self).created,
    {
        self.hub_permissions.insert(permission, value);
    }

    /// Sets channel permission `permission` on `channel` to `value`.
    pub fn set_channel_permission(
        &mut self,
        channel: ID,
        permission: ChannelPermission,
        value: PermissionSetting,
    )
        ensures
            channel_permission_set(
                old(self).channel_permissions@,
                final(self).channel_permissions@,
                channel,
                permission,
                value,
            ),
            final(self).id == old(self).id,
            final(self).name == old(self).name,
            final(self).members == old(self).members,
            final(self).hub_permissions == old(self).hub_permissions,
            final(self).created == old(self).created,
    {
        set_in_table(&mut self.channel_permissions, channel, permission, value);
    }

    /// Whether `All` is set to `TRUE`.
    pub fn has_all_permissions(&self) -> (r: bool)
        ensures
            r == self.spec_has_all_permissions(),
    {
        match self.hub_permissions.get(HubPermission::All) {
            Some(PermissionSetting::TRUE) => true,
            _ => false,
        }
    }

    /// Whether the group grants hub permission `permission`.
    pub fn has_permission(&self, permission: &HubPermission) -> (r: bool)
        ensures
            r == self.grants(*permission),
    {
        if self.has_all_permissions() {
            return true;
        }
        match self.hub_permissions.get(*permission) {
            Some(PermissionSetting::TRUE) => true,
            _ => false,
        }
    }

    /// Whether the group grants channel permission `permission` on `channel`.
    pub fn has_channel_permission(&self, channel: &ID, permission: &ChannelPermission) -> (r:
        bool)
        ensures
            r == self.grants_channel(*channel, *permission),
    {
        if self.has_all_permissions() {
            return true;
        }
        match self.channel_permissions.get(channel) {
            Some(table) => {
                if let Some(PermissionSetting::TRUE) = table.get(ChannelPermission::All) {
                    return true;
                }
                match table.get(*permission) {
                    Some(PermissionSetting::TRUE) => true,
                    Some(PermissionSetting::NONE) => self.has_permission(
                        &permission.hub_equivalent(),
                    ),
                    _ => false,
                }
            },
            None => false,
        }
    }
}

/// `after` is `before` with channel permission `p` of channel `c` set to `v`, an entry for `c`
/// being made where there was none.
pub open spec fn channel_permission_set(
    before: Map<ID, ChannelPermissions>,
    after: Map<ID, ChannelPermissions>,
    c: ID,
    p: ChannelPermission,
    v: PermissionSetting,
) -> bool {
    &&& after.contains_key(c)
    &&& after.remove(c) == before.remove(c)
    &&& after[c].spec_get(p) == Some(v)
    &&& forall|q: ChannelPermission|
        q != p ==> after[c].spec_get(q) == (if before.contains_key(c) {
            before[c].spec_get(q)
        } else {
            None
        })
}

fn set_in_table(
    table: &mut HashMap<ID, ChannelPermissions>,
    channel: ID,
    permission: ChannelPermission,
    value: PermissionSetting,
)
    ensures
        channel_permission_set(old(table)@, final(table)@, channel, permission, value),
{
    let mut entry = match table.remove(&channel) {
        Some(t) => t,
        None => ChannelPermissions::new(),
    };
    entry.insert(permission, value);
    table.insert(channel, entry);
    assert(final(table)@.remove(channel) =~= old(table)@.remove(channel));
}

impl Hub {
    /// Structural invariant: the default group exists, the owner is not banned, every member,
    /// channel and group is stored under its own ID, every group a member is in exists, and
    /// group membership is recorded on both sides: a member lists a group exactly when the
    /// group lists the member, and groups list members only.
    pub open spec fn wf(&self) -> bool {
        &&& self.groups@.contains_key(self.default_group)
        &&& forall|u: ID, i: int|
            #![trigger self.members@[u].groups@[i]]
            self.members@.contains_key(u) && 0 <= i < self.members@[u].groups@.len()
                ==> self.groups@.contains_key(self.members@[u].groups@[i])
        &&& forall|u: ID, g: ID|
            #![trigger self.members@[u].groups@.contains(g), self.groups@[g]]
            #![trigger self.groups@[g].members@.contains(u), self.members@[u]]
            self.members@.contains_key(u) && self.groups@.contains_key(g) ==> (
            self.members@[u].groups@.contains(g) <==> self.groups@[g].members@.contains(u))
        &&& forall|g: ID, u: ID|
            #![trigger self.groups@[g].members@.contains(u)]
            self.groups@.contains_key(g) && self.groups@[g].members@.contains(u)
                ==> self.members@.contains_key(u)
        &&& !self.bans@.contains(self.owner)
        &&& forall|u: ID| #[trigger]
            self.members@.contains_key(u) ==> self.members@[u].user == u
        &&& forall|c: ID| #[trigger]
            self.channels@.contains_key(c) ==> self.channels@[c].id == c
        &&& forall|g: ID| #[trigger] self.groups@.contains_key(g) ==> self.groups@[g].id == g
    }

    /// All fields but `channels` agree.
    pub open spec fn same_except_channels(&self, o: Hub) -> bool {
        &&& self.members == o.members
        &&& self.bans == o.bans
        &&& self.mutes == o.mutes
        &&& self.owner == o.owner
        &&& self.groups == o.groups
        &&& self.default_group == o.default_group
        &&& self.name == o.name
        &&& self.id == o.id
        &&& self.created == o.created
    }

    /// All fields but `members` and `groups` agree.
    pub open spec fn same_except_membership(&self, o: Hub) -> bool {
        &&& self.channels == o.channels
        &&& self.bans == o.bans
        &&& self.mutes == o.mutes
        &&& self.owner == o.owner
        &&& self.default_group == o.default_group
        &&& self.name == o.name
        &&& self.id == o.id
        &&& self.created == o.created
    }

    /// Whether `user` is a member holding hub permission `p`.
    pub open spec fn member_has(&self, user: ID, p: HubPermission) -> bool {
        self.members@.contains_key(user) && self.members@[user].spec_has_permission(p, self)
    }

    /// Whether `user` is a member holding channel permission `p` on `channel`.
    pub open spec fn member_has_channel(&self, user: ID, channel: ID, p: ChannelPermission) -> bool {
        self.members@.contains_key(user) && self.members@[user].spec_has_channel_permission(
            channel,
            p,
            self,
        )
    }

    /// A new hub named `name` owned by `creator`: the creator is its only member, holds `All`,
    /// and is in the hub's default group "everyone", its only group.
    pub fn new(name: String, id: ID, creator: &User) -> (r: Self)
        ensures
            r.wf(),
            r.name@ == name@,
            r.id == id,
            r.owner == creator.id,
            r.members@.dom() == set![creator.id],
            r.members@[creator.id].groups@ == seq![r.default_group],
            r.members@[creator.id].hub_permissions.spec_get(HubPermission::All) == Some(
                PermissionSetting::TRUE,
            ),
            r.groups@.dom() == set![r.default_group],
            r.groups@[r.default_group].name@ == "everyone"@,
            r.groups@[r.default_group].members@ == seq![creator.id],
            forall|p: HubPermission| r.groups@[r.default_group].hub_permissions.spec_get(p).is_none(),
            r.channels@.dom() == Set::<ID>::empty(),
            r.bans@ == Set::<ID>::empty(),
            r.mutes@ == Set::<ID>::empty(),
    {
        let mut everyone = PermissionGroup::new(String::from_str("everyone"), new_id());
        let mut owner = HubMember::new(creator, id);
        owner.join_group(&mut everyone);
        owner.set_permission(HubPermission::All, PermissionSetting::TRUE);
        let default_group = everyone.id;
        let mut members: HashMap<ID, HubMember> = HashMap::new();
        members.insert(creator.id, owner);
        let mut groups: HashMap<ID, PermissionGroup> = HashMap::new();
        groups.insert(default_group, everyone);
        let r = Hub {
            name,
            id,
            groups,
            default_group,
            owner: creator.id,
            bans: HashSet::new(),
            mutes: HashSet::new(),
            channels: HashMap::new(),
            members,
            created: get_system_millis(),
        };
        assert(r.members@.dom() =~= set![creator.id]);
        assert(r.groups@.dom() =~= set![default_group]);
        assert(r.channels@.dom() =~= Set::<ID>::empty());
        assert(r.members@[creator.id].groups@ =~= seq![default_group]);
        assert(r.groups@[default_group].members@ =~= seq![creator.id]);
        assert forall|x: ID, g: ID|
            r.members@.contains_key(x) && r.groups@.contains_key(g) implies (
            #[trigger] r.members@[x].groups@.contains(g) <==> #[trigger] r.groups@[g].members@.contains(x)) by {
            assert(x == creator.id && g == default_group);
            assert(r.members@[x].groups@[0] == g);
            assert(r.groups@[g].members@[0] == x);
        }
        assert forall|g: ID, x: ID|
            r.groups@.contains_key(g) && #[trigger] r.groups@[g].members@.contains(x) implies
            r.members@.contains_key(x) by {
            assert(g == default_group);
            let i = choose|i: int| 0 <= i < r.groups@[g].members@.len() && r.groups@[g].members@[i] == x;
            assert(x == creator.id);
        }
        r
    }

    /// The member for `user`.
    pub fn get_member(&self, user: &ID) -> (r: Result<&HubMember>)
        ensures
            match r {
                Ok(m) => self.members@.contains_key(*user) && *m == self.members@[*user],
                Err(e) => !self.members@.contains_key(*user) && e == Error::MemberNotFound,
            },
    {
        match self.members.get(user) {
            Some(m) => Ok(m),
            None => Err(Error::MemberNotFound),
        }
    }

    /// The first check that `new_channel` fails, if any.
    pub open spec fn new_channel_error(&self, member: ID, name: Seq<char>) -> Option<Error> {
        if byte_len(name) > MAX_NAME_SIZE {
            Some(Error::InvalidName)
        } else if !self.members@.contains_key(member) {
            Some(Error::NotInHub)
        } else if !self.member_has(member, HubPermission::CreateChannel) {
            Some(Error::MissingHubPermission(HubPermission::CreateChannel))
        } else {
            None
        }
    }

    /// Creates an empty channel named `name` on behalf of `member_id`, under a new ID.
    pub fn new_channel(&mut self, member_id: ID, name: String) -> (r: Result<ID>)
        ensures
            match r {
                Ok(id) => {
                    &&& old(self).new_channel_error(member_id, name@) is None
                    &&& !old(self).channels@.contains_key(id)
                    &&& final(self).channels@.contains_key(id)
                    &&& final(self).channels@.remove(id) == old(self).channels@
                    &&& final(self).channels@[id].id == id
                    &&& final(self).channels@[id].hub_id == old(self).id
                    &&& final(self).channels@[id].name@ == name@
                    &&& final(self).channels@[id].log() == Seq::<MessageView>::empty()
                    &&& final(self).same_except_channels(*old(self))
                },
                Err(e) => {
                    &&& old(self).new_channel_error(member_id, name@) == Some(e)
                    &&& *final(self) == *old(self)
                },
            },
            old(self).wf() ==> final(self).wf(),
    {
        if !is_valid_name(name.as_str()) {
            return Err(Error::InvalidName);
        }
        let allowed = match self.members.get(&member_id) {
            Some(member) => member.has_permission(HubPermission::CreateChannel, self),
            None => {
                return Err(Error::NotInHub);
            },
        };
        if !allowed {
            return Err(Error::MissingHubPermission(HubPermission::CreateChannel));
        }
        let id = fresh_id(&self.channels);
        let channel = Channel::new(name, id, self.id);
        self.channels.insert(id, channel);
        assert(self.channels@.remove(id) =~= old(self).channels@);
        Ok(id)
    }

    /// The first check that `rename_channel` fails, if any.
    pub open spec fn rename_channel_error(&self, user: ID, channel: ID, name: Seq<char>) -> Option<
        Error,
    > {
        if byte_len(name) > MAX_NAME_SIZE {
            Some(Error::InvalidName)
        } else if !self.members@.contains_key(user) {
            Some(Error::NotInHub)
        } else if !self.member_has_channel(user, channel, ChannelPermission::ViewChannel) {
            Some(Error::MissingChannelPermission(ChannelPermission::ViewChannel))
        } else if !self.member_has_channel(user, channel, ChannelPermission::ManageChannel) {
            Some(Error::MissingChannelPermission(ChannelPermission::ManageChannel))
        } else if !self.channels@.contains_key(channel) {
            Some(Error::ChannelNotFound)
        } else {
            None
        }
    }

    /// Renames `channel` on behalf of `user`, who must see and manage it; returns the old name.
    pub fn rename_channel(&mut self, user: ID, channel: ID, name: String) -> (r: Result<String>)
        ensures
            match r {
                Ok(old_name) => {
                    &&& old(self).rename_channel_error(user, channel, name@) is None
                    &&& old_name@ == old(self).channels@[channel].name@
                    &&& final(self).channels@.contains_key(channel)
                    &&& final(self).channels@.remove(channel) == old(self).channels@.remove(channel)
                    &&& final(self).channels@[channel].name@ == name@
                    &&& final(self).channels@[channel].id == old(self).channels@[channel].id
                    &&& final(self).channels@[channel].hub_id == old(self).channels@[channel].hub_id
                    &&& final(self).channels@[channel].created == old(self).channels@[channel].created
                    &&& final(self).channels@[channel].messages == old(self).channels@[channel].messages
                    &&& final(self).same_except_channels(*old(self))
                },
                Err(e) => {
                    &&& old(self).rename_channel_error(user, channel, name@) == Some(e)
                    &&& *final(self) == *old(self)
                },
            },
            old(self).wf() ==> final(self).wf(),
    {
        if !is_valid_name(name.as_str()) {
            return Err(Error::InvalidName);
        }
        let (can_view, can_manage) = match self.members.get(&user) {
            Some(member) => (
                member.has_channel_permission(&channel, &ChannelPermission::ViewChannel, self),
                member.has_channel_permission(&channel, &ChannelPermission::ManageChannel, self),
            ),
            None => {
                return Err(Error::NotInHub);
            },
        };
        if !can_view {
            return Err(Error::MissingChannelPermission(ChannelPermission::ViewChannel));
        }
        if !can_manage {
            return Err(Error::MissingChannelPermission(ChannelPermission::ManageChannel));
        }
        if !self.channels.contains_key(&channel) {
            return Err(Error::ChannelNotFound);
        }
        match self.channels.remove(&channel) {
            Some(mut ch) => {
                let old_name = ch.name.clone();
                ch.name = name;
                self.channels.insert(channel, ch);
                assert(self.channels@.remove(channel) =~= old(self).channels@.remove(channel));
                Ok(old_name)
            },
            None => Err(Error::ChannelNotFound),
        }
    }

    /// The first check that `delete_channel` fails, if any.
    pub open spec fn delete_channel_error(&self, user: ID, channel: ID) -> Option<Error> {
        if !self.members@.contains_key(user) {
            Some(Error::NotInHub)
        } else if !self.member_has(user, HubPermission::DeleteChannel) {
            Some(Error::MissingHubPermission(HubPermission::DeleteChannel))
        } else if !self.member_has_channel(user, channel, ChannelPermission::ViewChannel) {
            Some(Error::MissingChannelPermission(ChannelPermission::ViewChannel))
        } else if !self.channels@.contains_key(channel) {
            Some(Error::ChannelNotFound)
        } else {
            None
        }
    }

    /// Deletes `channel` on behalf of `user`.
    pub fn delete_channel(&mut self, user: ID, channel: ID) -> (r: Result)
        ensures
            match r {
                Ok(_) => {
                    &&& old(self).delete_channel_error(user, channel) is None
                    &&& final(self).channels@ == old(self).channels@.remove(channel)
                    &&& final(self).same_except_channels(*old(self))
                },
                Err(e) => {
                    &&& old(self).delete_channel_error(user, channel) == Some(e)
                    &&& *final(self) == *old(self)
                },
            },
            old(self).wf() ==> final(self).wf(),
    {
        let (can_delete, can_view) = match self.members.get(&user) {
            Some(member) => (
                member.has_permission(HubPermission::DeleteChannel, self),
                member.has_channel_permission(&channel, &ChannelPermission::ViewChannel, self),
            ),
            None => {
                return Err(Error::NotInHub);
            },
        };
        if !can_delete {
            return Err(Error::MissingHubPermission(HubPermission::DeleteChannel));
        }
        if !can_view {
            return Err(Error::MissingChannelPermission(ChannelPermission::ViewChannel));
        }
        if !self.channels.contains_key(&channel) {
            return Err(Error::ChannelNotFound);
        }
        self.channels.remove(&channel);
        Ok(())
    }

    /// The first check that `send_message` fails, if any.
    pub open spec fn send_message_error(&self, user: ID, channel: ID, content: Seq<char>) -> Option<
        Error,
    > {
        if !self.members@.contains_key(user) {
            Some(Error::NotInHub)
        } else if self.mutes@.contains(user) {
            Some(Error::Muted)
        } else if !self.member_has_channel(user, channel, ChannelPermission::SendMessage) {
            Some(Error::MissingChannelPermission(ChannelPermission::SendMessage))
        } else if !self.channels@.contains_key(channel) {
            Some(Error::ChannelNotFound)
        } else if byte_len(content) > MESSAGE_MAX_SIZE {
            Some(Error::TooBig)
        } else {
            None
        }
    }

    /// Appends a message from `user` with text `message` to the log of `channel`; returns the
    /// new message's ID.
    pub fn send_message(&mut self, user: ID, channel: ID, message: String) -> (r: Result<ID>)
        ensures
            match r {
                Ok(id) => {
                    &&& old(self).send_message_error(user, channel, message@) is None
                    &&& final(self).channels@.contains_key(channel)
                    &&& final(self).channels@.remove(channel) == old(self).channels@.remove(channel)
                    &&& final(self).channels@[channel].log().drop_last() == old(self).channels@[channel].log()
                    &&& final(self).channels@[channel].log().len() > 0
                    &&& final(self).channels@[channel].log().last().id == id
                    &&& final(self).channels@[channel].log().last().sender == user
                    &&& final(self).channels@[channel].log().last().content == message@
                    &&& final(self).channels@[channel].id == old(self).channels@[channel].id
                    &&& final(self).channels@[channel].hub_id == old(self).channels@[channel].hub_id
                    &&& final(self).channels@[channel].name == old(self).channels@[channel].name
                    &&& final(self).same_except_channels(*old(self))
                },
                Err(e) => {
                    &&& old(self).send_message_error(user, channel, message@) == Some(e)
                    &&& *final(self) == *old(self)
                },
            },
            old(self).wf() ==> final(self).wf(),
    {
        let can_send = match self.members.get(&user) {
            Some(member) => {
                if self.mutes.contains(&user) {
                    return Err(Error::Muted);
                }
                member.has_channel_permission(&channel, &ChannelPermission::SendMessage, self)
            },
            None => {
                return Err(Error::NotInHub);
            },
        };
        if !can_send {
            return Err(Error::MissingChannelPermission(ChannelPermission::SendMessage));
        }
        if !self.channels.contains_key(&channel) {
            return Err(Error::ChannelNotFound);
        }
        if message.as_str().as_bytes().len() > MESSAGE_MAX_SIZE {
            return Err(Error::TooBig);
        }
        match self.channels.remove(&channel) {
            Some(mut ch) => {
                let id = new_id();
                let m = Message { id, sender: user, created: get_system_millis(), content: message };
                ch.add_message(m);
                self.channels.insert(channel, ch);
                assert(self.channels@.remove(channel) =~= old(self).channels@.remove(channel));
                assert(self.channels@[channel].log().drop_last() =~= old(self).channels@[channel].log());
                Ok(id)
            },
            None => Err(Error::ChannelNotFound),
        }
    }

    /// The first check that `user_join` fails, if any.
    pub open spec fn user_join_error(&self, user: ID) -> Option<Error> {
        if self.bans@.contains(user) {
            Some(Error::Banned)
        } else if !self.groups@.contains_key(self.default_group) {
            Some(Error::GroupNotFound)
        } else {
            None
        }
    }

    /// Adds `user` as a member in the default group, with no permissions of their own; for a
    /// user who is a member already, nothing changes. Returns a copy of the member.
    pub fn user_join(&mut self, user: &User) -> (r: Result<HubMember>)
        ensures
            match r {
                Ok(member) => {
                    let dg = old(self).default_group;
                    &&& old(self).user_join_error(user.id) is None
                    &&& if old(self).members@.contains_key(user.id) {
                        &&& member.same_as(old(self).members@[user.id])
                        &&& *final(self) == *old(self)
                    } else {
                        &&& member.user == user.id
                        &&& member.hub == old(self).id
                        &&& member.nickname@ == user.username@
                        &&& member.groups@ == seq![old(self).groups@[dg].id]
                        &&& forall|p: HubPermission| member.hub_permissions.spec_get(p).is_none()
                        &&& member.channel_permissions@ == Map::<ID, ChannelPermissions>::empty()
                        &&& final(self).members@ == old(self).members@.insert(
                            user.id,
                            final(self).members@[user.id],
                        )
                        &&& final(self).members@[user.id].same_as(member)
                        &&& final(self).groups@.contains_key(dg)
                        &&& final(self).groups@.remove(dg) == old(self).groups@.remove(dg)
                        &&& final(self).groups@[dg].same_except_members(old(self).groups@[dg])
                        &&& final(self).groups@[dg].members@ == (if old(
                            self,
                        ).groups@[dg].members@.contains(user.id) {
                            old(self).groups@[dg].members@
                        } else {
                            old(self).groups@[dg].members@.push(user.id)
                        })
                        &&& final(self).same_except_membership(*old(self))
                    }
                },
                Err(e) => {
                    &&& old(self).user_join_error(user.id) == Some(e)
                    &&& *final(self) == *old(self)
                },
            },
            old(self).wf() ==> final(self).wf(),
    {
        if self.bans.contains(&user.id) {
            return Err(Error::Banned);
        }
        if !self.groups.contains_key(&self.default_group) {
            return Err(Error::GroupNotFound);
        }
        if let Some(existing) = self.members.get(&user.id) {
            return Ok(existing.duplicate());
        }
        let mut member = HubMember::new(user, self.id);
        match self.groups.remove(&self.default_group) {
            Some(mut group) => {
                group.add_member(&mut member);
                self.groups.insert(self.default_group, group);
                assert(self.groups@.remove(self.default_group) =~= old(self).groups@.remove(
                    self.default_group,
                ));
                let copy = member.duplicate();
                self.members.insert(user.id, member);
                assert(self.members@.remove(user.id) =~= old(self).members@);
                proof {
                    if old(self).wf() {
                        self.lemma_join_keeps_wf(*old(self), user.id);
                    }
                }
                Ok(copy)
            },
            None => Err(Error::GroupNotFound),
        }
    }

    proof fn lemma_join_keeps_wf(&self, before: Hub, u: ID)
        requires
            before.wf(),
            !before.members@.contains_key(u),
            self.members@.contains_key(u),
            self.members@.remove(u) == before.members@,
            self.members@[u].user == u,
            self.members@[u].groups@ == seq![before.default_group],
            self.groups@.dom() == before.groups@.dom(),
            self.groups@.remove(before.default_group) == before.groups@.remove(before.default_group),
            self.groups@[before.default_group].same_except_members(before.groups@[before.default_group]),
            self.groups@[before.default_group].members@ == (if before.groups@[before.default_group].members@.contains(u) {
                before.groups@[before.default_group].members@
            } else {
                before.groups@[before.default_group].members@.push(u)
            }),
            self.same_except_membership(before),
        ensures
            self.wf(),
    {
        let dg = before.default_group;
        assert forall|x: ID| #[trigger] self.groups@[dg].members@.contains(x) <==> (before.groups@[
            dg].members@.contains(x) || x == u) by {
            if !before.groups@[dg].members@.contains(u) {
                lemma_push_contains(before.groups@[dg].members@, u, x);
            }
        }
        assert forall|g: ID| #[trigger] self.groups@.contains_key(g) implies self.groups@[g].id == g by {
            if g != dg {
                assert(self.groups@.remove(dg)[g] == before.groups@.remove(dg)[g]);
            }
        }
        assert forall|x: ID, i: int|
            self.members@.contains_key(x) && 0 <= i < self.members@[x].groups@.len() implies
            self.groups@.contains_key(#[trigger] self.members@[x].groups@[i]) by {
            if x != u {
                assert(self.members@.remove(u)[x] == before.members@[x]);
            }
        }
        assert forall|x: ID, g: ID|
            self.members@.contains_key(x) && self.groups@.contains_key(g) implies (
            #[trigger] self.members@[x].groups@.contains(g) <==> #[trigger] self.groups@[g].members@.contains(x)) by {
            if g != dg {
                assert(self.groups@.remove(dg)[g] == before.groups@.remove(dg)[g]);
                assert(self.groups@[g] == before.groups@[g]);
            }
            if x != u {
                assert(self.members@.remove(u)[x] == before.members@[x]);
                assert(self.members@[x] == before.members@[x]);
                assert(before.members@[x].groups@.contains(g) <==> before.groups@[g].members@.contains(x));
            } else {
                if self.members@[x].groups@.contains(g) {
                    let i = choose|i: int| 0 <= i < self.members@[x].groups@.len() && self.members@[x].groups@[i] == g;
                    assert(self.members@[x].groups@[i] == dg);
                }
                if g == dg {
                    assert(self.members@[x].groups@[0] == dg);
                }
                if g != dg && self.groups@[g].members@.contains(x) {
                    assert(before.groups@[g].members@.contains(x));
                    assert(before.members@.contains_key(x));
                }
            }
        }
        assert forall|g: ID, x: ID|
            self.groups@.contains_key(g) && #[trigger] self.groups@[g].members@.contains(x) implies
            self.members@.contains_key(x) by {
            if g != dg {
                assert(self.groups@.remove(dg)[g] == before.groups@.remove(dg)[g]);
            }
            if x != u {
                assert(before.members@.contains_key(x));
                assert(self.members@.remove(u).contains_key(x));
            }
        }
        assert forall|x: ID| #[trigger] self.members@.contains_key(x) implies self.members@[x].user == x by {
            if x != u {
                assert(self.members@.remove(u)[x] == before.members@[x]);
            }
        }
    }

    /// Removes `user` from the hub's members and from every group that lists them.
    pub fn user_leave(&mut self, user: &User) -> (r: Result)
        ensures
            match r {
                Ok(_) => {
                    &&& old(self).groups@.contains_key(old(self).default_group)
                    &&& final(self).members@ == old(self).members@.remove(user.id)
                    &&& final(self).groups@.dom() == old(self).groups@.dom()
                    &&& forall|g: ID|
                        #[trigger] old(self).groups@.contains_key(g) ==> {
                            &&& final(self).groups@[g].same_except_members(old(self).groups@[g])
                            &&& final(self).groups@[g].members@.to_set() == if old(
                                self,
                            ).members@.contains_key(user.id) && old(self).members@[user.id].groups@.contains(g) {
                                old(self).groups@[g].members@.to_set().remove(user.id)
                            } else {
                                old(self).groups@[g].members@.to_set()
                            }
                        }
                    &&& final(self).same_except_membership(*old(self))
                },
                Err(e) => {
                    &&& !old(self).groups@.contains_key(old(self).default_group)
                    &&& e == Error::GroupNotFound
                    &&& *final(self) == *old(self)
                },
            },
            old(self).wf() ==> final(self).wf(),
    {
        if !self.groups.contains_key(&self.default_group) {
            return Err(Error::GroupNotFound);
        }
        let u = user.id;
        let groups_of: Vec<ID> = match self.members.get(&u) {
            Some(m) => m.groups.clone(),
            None => Vec::new(),
        };
        let ghost listed: Seq<ID> = if old(self).members@.contains_key(u) {
            old(self).members@[u].groups@
        } else {
            Seq::empty()
        };
        assert(groups_of@ =~= listed);
        let mut i: usize = 0;
        while i < groups_of.len()
            invariant
                i <= groups_of.len(),
                groups_of@ == listed,
                self.members == old(self).members,
                self.same_except_membership(*old(self)),
                self.groups@.dom() == old(self).groups@.dom(),
                forall|g: ID|
                    #[trigger] old(self).groups@.contains_key(g) ==> {
                        &&& self.groups@[g].same_except_members(old(self).groups@[g])
                        &&& self.groups@[g].members@.to_set() == if listed.take(i as int).contains(g) {
                            old(self).groups@[g].members@.to_set().remove(u)
                        } else {
                            old(self).groups@[g].members@.to_set()
                        }
                    },
            decreases groups_of.len() - i,
        {
            let gid = groups_of[i];
            let ghost before = self.groups@;
            match self.groups.remove(&gid) {
                Some(mut group) => {
                    group.members = vec_without(&group.members, u);
                    self.groups.insert(gid, group);
                },
                None => {},
            }
            assert(listed.take(i + 1) == listed.take(i as int).push(gid));
            assert forall|g: ID| #[trigger] old(self).groups@.contains_key(g) implies {
                &&& self.groups@[g].same_except_members(old(self).groups@[g])
                &&& self.groups@[g].members@.to_set() == if listed.take(i + 1).contains(g) {
                    old(self).groups@[g].members@.to_set().remove(u)
                } else {
                    old(self).groups@[g].members@.to_set()
                }
            } by {
                lemma_push_contains(listed.take(i as int), gid, g);
                if g != gid {
                    assert(self.groups@[g] == before[g]);
                } else if listed.take(i as int).contains(g) {
                    assert(old(self).groups@[g].members@.to_set().remove(u).remove(u)
                        =~= old(self).groups@[g].members@.to_set().remove(u));
                }
            }
            i = i + 1;
        }
        assert(listed.take(groups_of.len() as int) == listed);
        self.members.remove(&u);
        proof {
            if old(self).wf() {
                self.lemma_leave_keeps_wf(*old(self), u);
            }
        }
        Ok(())
    }

    proof fn lemma_leave_keeps_wf(&self, before: Hub, u: ID)
        requires
            before.wf(),
            self.members@ == before.members@.remove(u),
            self.groups@.dom() == before.groups@.dom(),
            forall|g: ID|
                #[trigger] before.groups@.contains_key(g) ==> {
                    &&& self.groups@[g].same_except_members(before.groups@[g])
                    &&& self.groups@[g].members@.to_set() == if before.members@.contains_key(u)
                        && before.members@[u].groups@.contains(g) {
                        before.groups@[g].members@.to_set().remove(u)
                    } else {
                        before.groups@[g].members@.to_set()
                    }
                },
            self.same_except_membership(before),
        ensures
            self.wf(),
    {
        assert forall|g: ID, x: ID| #[trigger] self.groups@.contains_key(g) implies
            (#[trigger] self.groups@[g].members@.contains(x) <==> (before.groups@[g].members@.contains(x) && x != u)) by {
            assert(self.groups@[g].members@.to_set().contains(x) == self.groups@[g].members@.contains(x));
            assert(before.groups@[g].members@.to_set().contains(x) == before.groups@[g].members@.contains(x));
            if x == u && before.groups@[g].members@.contains(u) {
                assert(before.members@.contains_key(u));
                assert(before.members@[u].groups@.contains(g));
            }
        }
        assert forall|x: ID, i: int|
            self.members@.contains_key(x) && 0 <= i < self.members@[x].groups@.len() implies
            self.groups@.contains_key(#[trigger] self.members@[x].groups@[i]) by {
            assert(before.members@[x] == self.members@[x]);
        }
        assert forall|x: ID, g: ID|
            self.members@.contains_key(x) && self.groups@.contains_key(g) implies (
            #[trigger] self.members@[x].groups@.contains(g) <==> #[trigger] self.groups@[g].members@.contains(x)) by {
            assert(before.members@[x] == self.members@[x]);
            assert(before.members@[x].groups@.contains(g) <==> before.groups@[g].members@.contains(x));
        }
        assert forall|g: ID, x: ID|
            self.groups@.contains_key(g) && #[trigger] self.groups@[g].members@.contains(x) implies
            self.members@.contains_key(x) by {
            assert(before.members@.contains_key(x));
        }
        assert forall|g: ID| #[trigger] self.groups@.contains_key(g) implies self.groups@[g].id == g by {
            assert(self.groups@[g].same_except_members(before.groups@[g]));
        }
    }

    /// All fields but `mutes` agree.
    pub open spec fn same_except_mutes(&self, o: Hub) -> bool {
        &&& self.channels == o.channels
        &&& self.members == o.members
        &&& self.bans == o.bans
        &&& self.owner == o.owner
        &&& self.groups == o.groups
        &&& self.default_group == o.default_group
        &&& self.name == o.name
        &&& self.id == o.id
        &&& self.created == o.created
    }

    /// The first check that muting or unmuting by `user` fails, `p` being the permission it
    /// takes, if any.
    pub open spec fn moderation_error(&self, user: ID, p: HubPermission) -> Option<Error> {
        if !self.members@.contains_key(user) {
            Some(Error::NotInHub)
        } else if !self.member_has(user, p) {
            Some(Error::MissingHubPermission(p))
        } else {
            None
        }
    }

    /// Mutes `target` on behalf of `user`, who needs the `Mute` permission.
    pub fn mute_user(&mut self, user: ID, target: ID) -> (r: Result)
        ensures
            match r {
                Ok(_) => {
                    &&& old(self).moderation_error(user, HubPermission::Mute) is None
                    &&& final(self).mutes@ == old(self).mutes@.insert(target)
                    &&& final(self).same_except_mutes(*old(self))
                },
                Err(e) => {
                    &&& old(self).moderation_error(user, HubPermission::Mute) == Some(e)
                    &&& *final(self) == *old(self)
                },
            },
            old(self).wf() ==> final(self).wf(),
    {
        let allowed = match self.members.get(&user) {
            Some(member) => member.has_permission(HubPermission::Mute, self),
            None => {
                return Err(Error::NotInHub);
            },
        };
        if !allowed {
            return Err(Error::MissingHubPermission(HubPermission::Mute));
        }
        self.mutes.insert(target);
        Ok(())
    }

    /// Unmutes `target` on behalf of `user`, who needs the `Unmute` permission.
    pub fn unmute_user(&mut self, user: ID, target: ID) -> (r: Result)
        ensures
            match r {
                Ok(_) => {
                    &&& old(self).moderation_error(user, HubPermission::Unmute) is None
                    &&& final(self).mutes@ == old(self).mutes@.remove(target)
                    &&& final(self).same_except_mutes(*old(self))
                },
                Err(e) => {
                    &&& old(self).moderation_error(user, HubPermission::Unmute) == Some(e)
                    &&& *final(self) == *old(self)
                },
            },
            old(self).wf() ==> final(self).wf(),
    {
        let allowed = match self.members.get(&user) {
            Some(member) => member.has_permission(HubPermission::Unmute, self),
            None => {
                return Err(Error::NotInHub);
            },
        };
        if !allowed {
            return Err(Error::MissingHubPermission(HubPermission::Unmute));
        }
        self.mutes.remove(&target);
        Ok(())
    }

    /// `v` lists, once each, a copy of every channel of the hub that `user` may view.
    pub open spec fn lists_visible_channels(&self, user: ID, v: Seq<Channel>) -> bool {
        &&& forall|i: int, j: int| 0 <= i < j < v.len() ==> v[i].id != v[j].id
        &&& forall|i: int|
            0 <= i < v.len() ==> {
                let c = #[trigger] v[i];
                &&& self.channels@.contains_key(c.id)
                &&& self.member_has_channel(user, c.id, ChannelPermission::ViewChannel)
                &&& c.name@ == self.channels@[c.id].name@
                &&& c.hub_id == self.channels@[c.id].hub_id
                &&& c.created == self.channels@[c.id].created
                &&& c.log() == self.channels@[c.id].log()
            }
        &&& forall|c: ID|
            self.channels@.contains_key(c) && self.member_has_channel(
                user,
                c,
                ChannelPermission::ViewChannel,
            ) ==> exists|i: int| 0 <= i < v.len() && #[trigger] v[i].id == c
    }

    /// The channels that `user` may view, each once, in no particular order.
    pub fn channels(&self, user: ID) -> (r: Result<Vec<Channel>>)
        requires
            self.wf(),
        ensures
            match r {
                Ok(v) => self.members@.contains_key(user) && self.lists_visible_channels(user, v@),
                Err(e) => !self.members@.contains_key(user) && e == Error::NotInHub,
            },
    {
        let member = match self.members.get(&user) {
            Some(m) => m,
            None => {
                return Err(Error::NotInHub);
            },
        };
        let mut result: Vec<Channel> = Vec::new();
        let ghost mut picked: Seq<ID> = Seq::empty();
        let ghost all = vstd::std_specs::hash::spec_keys_iter(&self.channels).remaining().unref();
        let ghost mut seen: int = 0;
        for key in it: self.channels.keys()
            invariant
                seen == it.index(),
                all == it.seq().unref(),
                all.to_set() == self.channels@.dom(),
                self.members@.contains_key(user),
                *member == self.members@[user],
                it.seq() == vstd::std_specs::hash::spec_keys_iter(&self.channels).remaining(),
                it.seq().unref().to_set() == self.channels@.dom(),
                it.seq().unref().no_duplicates(),
                picked.len() == result@.len(),
                forall|i: int| 0 <= i < result@.len() ==> result@[i].id == picked[i],
                forall|i: int|
                    0 <= i < result@.len() ==> {
                        let c = #[trigger] result@[i];
                        &&& self.channels@.contains_key(c.id)
                        &&& self.member_has_channel(user, c.id, ChannelPermission::ViewChannel)
                        &&& c.name@ == self.channels@[c.id].name@
                        &&& c.hub_id == self.channels@[c.id].hub_id
                        &&& c.created == self.channels@[c.id].created
                        &&& c.log() == self.channels@[c.id].log()
                    },
                self.wf(),
                forall|i: int|
                    0 <= i < picked.len() ==> exists|k: int|
                        0 <= k < seen && all[k] == #[trigger] picked[i],
                picked.no_duplicates(),
                forall|k: int|
                    0 <= k < seen && self.member_has_channel(
                        user,
                        all[k],
                        ChannelPermission::ViewChannel,
                    ) ==> picked.contains(#[trigger] all[k]),
        {
            assert(all[seen] == *key);
            assert(self.channels@.dom().contains(*key));
            if member.has_channel_permission(key, &ChannelPermission::ViewChannel, self) {
                match self.channels.get(key) {
                    Some(channel) => {
                        proof {
                            assert forall|i: int| 0 <= i < picked.len() implies picked[i] != *key by {
                                let k = choose|k: int|
                                    0 <= k < seen && all[k] == #[trigger] picked[i];
                            }
                            let before = picked;
                            picked = picked.push(*key);
                            assert(picked[picked.len() - 1] == *key);
                            assert forall|k: int| 0 <= k < seen && before.contains(all[k]) implies picked.contains(#[trigger] all[k]) by {
                                let i = choose|i: int| 0 <= i < before.len() && before[i] == all[k];
                                assert(picked[i] == all[k]);
                            }
                        }
                        result.push(channel.duplicate());
                    },
                    None => {},
                }
            }
            proof {
                seen = seen + 1;
            }
        }
        proof {
            assert forall|i: int, j: int| 0 <= i < j < result@.len() implies result@[i].id
                != result@[j].id by {
                assert(picked[i] != picked[j]);
            }
            assert forall|c: ID|
                self.channels@.contains_key(c) && self.member_has_channel(
                    user,
                    c,
                    ChannelPermission::ViewChannel,
                ) implies exists|i: int| 0 <= i < result@.len() && #[trigger] result@[i].id == c by {
                assert(all.to_set().contains(c));
                let k = choose|k: int| 0 <= k < all.len() && all[k] == c;
                assert(seen == all.len());
                assert(picked.contains(all[k]));
                let i = choose|i: int| 0 <= i < picked.len() && picked[i] == c;
                assert(result@[i].id == c);
            }
            assert(self.lists_visible_channels(user, result@));
        }
        Ok(result)
    }
}

/// `Ok` when `member` holds hub permission `permission` in `hub`, else the matching error.
pub fn check_permission(member: &HubMember, permission: HubPermission, hub: &Hub) -> (r: Result)
    ensures
        r is Ok <==> member.spec_has_permission(permission, hub),
        r is Err ==> r == Err::<(), Error>(Error::MissingHubPermission(permission)),
{
    if member.has_permission(permission, hub) {
        Ok(())
    } else {
        Err(Error::MissingHubPermission(permission))
    }
}

/// `Ok` when `member` holds channel permission `permission` on `channel` in `hub`, else the
/// matching error.
pub fn check_channel_permission(
    member: &HubMember,
    channel: &ID,
    permission: ChannelPermission,
    hub: &Hub,
) -> (r: Result)
    ensures
        r is Ok <==> member.spec_has_channel_permission(*channel, permission, hub),
        r is Err ==> r == Err::<(), Error>(Error::MissingChannelPermission(permission)),
{
    if member.has_channel_permission(channel, &permission, hub) {
        Ok(())
    } else {
        Err(Error::MissingChannelPermission(permission))
    }
}

/// The hub's owner holds every hub permission and every channel permission on every channel.
pub proof fn lemma_owner_has_every_permission(
    member: HubMember,
    hub: Hub,
    p: HubPermission,
    channel: ID,
    cp: ChannelPermission,
)
    requires
        member.user == hub.owner,
    ensures
        member.spec_has_permission(p, &hub),
        member.spec_has_channel_permission(channel, cp, &hub),
{
}

/// A member whose hub-level `All` is `TRUE` holds every hub permission and every channel
/// permission on every channel.
pub proof fn lemma_all_grants_everything(
    member: HubMember,
    hub: Hub,
    p: HubPermission,
    channel: ID,
    cp: ChannelPermission,
)
    requires
        member.hub_permissions.spec_get(HubPermission::All) == Some(PermissionSetting::TRUE),
    ensures
        member.spec_has_permission(p, &hub),
        member.spec_has_channel_permission(channel, cp, &hub),
{
}

/// A member's own `FALSE` for channel permission `p` on `channel` denies it whatever the
/// member's groups grant, unless the member is the owner, has hub-level `All = TRUE`, or has
/// `All = TRUE` on that channel.
pub proof fn lemma_member_channel_false_is_final(
    member: HubMember,
    hub: Hub,
    channel: ID,
    p: ChannelPermission,
)
    requires
        member.user != hub.owner,
        member.hub_permissions.spec_get(HubPermission::All) != Some(PermissionSetting::TRUE),
        member.channel_permissions@.contains_key(channel),
        member.channel_permissions@[channel].spec_get(p) == Some(PermissionSetting::FALSE),
        member.channel_permissions@[channel].spec_get(ChannelPermission::All) != Some(
            PermissionSetting::TRUE,
        ),
    ensures
        !member.spec_has_channel_permission(channel, p, &hub),
{
}

/// A member (not the owner) with no hub permissions of their own, whose only group grants `p`
/// and sets no other hub permission to `TRUE`, holds exactly hub permission `p`. (When `p` is
/// `All` the group grants every permission, so `p` is another permission here.)
pub proof fn lemma_single_group_grants_exactly(
    member: HubMember,
    hub: Hub,
    group: ID,
    p: HubPermission,
    q: HubPermission,
)
    requires
        member.user != hub.owner,
        forall|r: HubPermission| #[trigger] member.hub_permissions.spec_get(r).is_none(),
        member.groups@ == seq![group],
        hub.groups@.contains_key(group),
        hub.groups@[group].hub_permissions.spec_get(p) == Some(PermissionSetting::TRUE),
        forall|r: HubPermission|
            r != p ==> #[trigger] hub.groups@[group].hub_permissions.spec_get(r) != Some(
                PermissionSetting::TRUE,
            ),
        p != HubPermission::All,
    ensures
        member.spec_has_permission(q, &hub) == (q == p),
{
    assert(member.hub_permissions.spec_get(HubPermission::All).is_none());
    assert(member.hub_permissions.spec_get(q).is_none());
    assert(member.groups@[0] == group);
    if q == p {
        assert(member.some_group_grants(&hub, q));
    } else {
        assert(hub.groups@[group].hub_permissions.spec_get(HubPermission::All) != Some(
            PermissionSetting::TRUE,
        ));
        assert(!hub.groups@[group].grants(q));
        assert(!member.some_group_grants(&hub, q));
    }
}

/// A member's channel entry `NONE` for `p` falls back to the hub level: with the hub
/// equivalent of `p` set to `TRUE` for the member, channel permission `p` is held.
pub proof fn lemma_channel_none_falls_through(
    member: HubMember,
    hub: Hub,
    channel: ID,
    p: ChannelPermission,
)
    requires
        member.channel_permissions@.contains_key(channel),
        member.channel_permissions@[channel].spec_get(p) == Some(PermissionSetting::NONE),
        member.hub_permissions.spec_get(p.spec_hub_equivalent()) == Some(PermissionSetting::TRUE),
    ensures
        member.spec_has_channel_permission(channel, p, &hub),
{
}

} // verus!
