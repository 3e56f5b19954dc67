use vstd::prelude::*;

verus! {

/// Number of distinct hub permissions.
pub const HUB_PERMISSION_COUNT: usize = 12;

/// Number of distinct channel permissions.
pub const CHANNEL_PERMISSION_COUNT: usize = 5;

/// Tri-valued permission flag: `TRUE` grants, `FALSE` denies, `NONE` defers to the next level.
#[allow(non_camel_case_types, clippy::upper_case_acronyms)]
#[derive(Clone, Copy, Debug, PartialEq, Eq, Structural, Hash)]
pub enum PermissionSetting {
    TRUE,
    FALSE,
    NONE,
}

/// Permissions that apply to a whole hub.
#[derive(Clone, Copy, Debug, PartialEq, Eq, Structural, Hash)]
pub enum HubPermission {
    All,
    ReadMessage,
    SendMessage,
    Mute,
    Unmute,
    Ban,
    Unban,
    Kick,
    CreateChannel,
    DeleteChannel,
    ManageChannel,
    ViewChannel,
}

/// Permissions that apply to a single channel.
#[derive(Clone, Copy, Debug, PartialEq, Eq, Structural, Hash)]
pub enum ChannelPermission {
    All,
    ReadMessage,
    SendMessage,
    ManageChannel,
    ViewChannel,
}

impl HubPermission {
    /// Position of the permission in a permission table.
    pub open spec fn slot(&self) -> int {
        match self {
            HubPermission::All => 0,
            HubPermission::ReadMessage => 1,
            HubPermission::SendMessage => 2,
            HubPermission::Mute => 3,
            HubPermission::Unmute => 4,
            HubPermission::Ban => 5,
            HubPermission::Unban => 6,
            HubPermission::Kick => 7,
            HubPermission::CreateChannel => 8,
            HubPermission::DeleteChannel => 9,
            HubPermission::ManageChannel => 10,
            HubPermission::ViewChannel => 11,
        }
    }

    pub fn index(&self) -> (r: usize)
        ensures
            r == self.slot(),
            r < HUB_PERMISSION_COUNT,
    {
        match self {
            HubPermission::All => 0,
            HubPermission::ReadMessage => 1,
            HubPermission::SendMessage => 2,
            HubPermission::Mute => 3,
            HubPermission::Unmute => 4,
            HubPermission::Ban => 5,
            HubPermission::Unban => 6,
            HubPermission::Kick => 7,
            HubPermission::CreateChannel => 8,
            HubPermission::DeleteChannel => 9,
            HubPermission::ManageChannel => 10,
            HubPermission::ViewChannel => 11,
        }
    }
}

impl ChannelPermission {
    /// Position of the permission in a permission table.
    pub open spec fn slot(&self) -> int {
        match self {
            ChannelPermission::All => 0,
            ChannelPermission::ReadMessage => 1,
            ChannelPermission::SendMessage => 2,
            ChannelPermission::ManageChannel => 3,
            ChannelPermission::ViewChannel => 4,
        }
    }

    pub fn index(&self) -> (r: usize)
        ensures
            r == self.slot(),
            r < CHANNEL_PERMISSION_COUNT,
    {
        match self {
            ChannelPermission::All => 0,
            ChannelPermission::ReadMessage => 1,
            ChannelPermission::SendMessage => 2,
            ChannelPermission::ManageChannel => 3,
            ChannelPermission::ViewChannel => 4,
        }
    }

    /// The hub permission a channel permission falls back to when it is set to `NONE`.
    pub open spec fn spec_hub_equivalent(&self) -> HubPermission {
        match self {
            ChannelPermission::All => HubPermission::All,
            ChannelPermission::ReadMessage => HubPermission::ReadMessage,
            ChannelPermission::SendMessage => HubPermission::SendMessage,
            ChannelPermission::ManageChannel => HubPermission::ManageChannel,
            ChannelPermission::ViewChannel => HubPermission::ViewChannel,
        }
    }

    #[verifier::when_used_as_spec(spec_hub_equivalent)]
    pub fn hub_equivalent(&self) -> (r: HubPermission)
        ensures
            r == self.spec_hub_equivalent(),
    {
        match self {
            ChannelPermission::All => HubPermission::All,
            ChannelPermission::ReadMessage => HubPermission::ReadMessage,
            ChannelPermission::SendMessage => HubPermission::SendMessage,
            ChannelPermission::ManageChannel => HubPermission::ManageChannel,
            ChannelPermission::ViewChannel => HubPermission::ViewChannel,
        }
    }
}

/// Settings of the hub permissions; a permission without a slot value has no entry.
#[derive(Clone, Copy, Debug, PartialEq, Eq)]
pub struct HubPermissions {
    slots: [Option<PermissionSetting>; 12],
}

impl HubPermissions {
    /// The entry for `p`, if one was set.
    pub closed spec fn spec_get(&self, p: HubPermission) -> Option<PermissionSetting> {
        self.slots@[p.slot()]
    }

    pub fn new() -> (r: Self)
        ensures
            forall|p: HubPermission| r.spec_get(p).is_none(),
    {
        HubPermissions { slots: [None; 12] }
    }

    #[verifier::when_used_as_spec(spec_get)]
    pub fn get(&self, p: HubPermission) -> (r: Option<PermissionSetting>)
        ensures
            r == self.spec_get(p),
    {
        self.slots[p.index()]
    }

    pub fn insert(&mut self, p: HubPermission, value: PermissionSetting)
        ensures
            final(self).spec_get(p) == Some(value),
            forall|q: HubPermission| q != p ==> final(self).spec_get(q) == old(self).spec_get(q),
    {
        self.slots[p.index()] = Some(value);
    }
}

/// Settings of the channel permissions for one channel.
#[derive(Clone, Copy, Debug, PartialEq, Eq)]
pub struct ChannelPermissions {
    slots: [Option<PermissionSetting>; 5],
}

impl ChannelPermissions {
    /// The entry for `p`, if one was set.
    pub closed spec fn spec_get(&self, p: ChannelPermission) -> Option<PermissionSetting> {
        self.slots@[p.slot()]
    }

    pub fn new() -> (r: Self)
        ensures
            forall|p: ChannelPermission| r.spec_get(p).is_none(),
    {
        ChannelPermissions { slots: [None; 5] }
    }

    #[verifier::when_used_as_spec(spec_get)]
    pub fn get(&self, p: ChannelPermission) -> (r: Option<PermissionSetting>)
        ensures
            r == self.spec_get(p),
    {
        self.slots[p.index()]
    }

    pub fn insert(&mut self, p: ChannelPermission, value: PermissionSetting)
        ensures
            final(self).spec_get(p) == Some(value),
            forall|q: ChannelPermission|
                q != p ==> final(self).spec_get(q) == old(self).spec_get(q),
    {
        self.slots[p.index()] = Some(value);
    }
}

} // verus!
