use wicrs_server::channel::Message;
use wicrs_server::error::Error;
use wicrs_server::hub::{Hub, HubMember, PermissionGroup, User};
use wicrs_server::permission::{ChannelPermission, HubPermission, PermissionSetting};
use wicrs_server::ID;

fn get_user_for_test(id: u128) -> User {
    User {
        id,
        username: "test_user".to_string(),
    }
}

fn get_hub_for_test() -> Hub {
    Hub::new("test".to_string(), 1, &get_user_for_test(1))
}

#[test]
fn hub_creator_permissions() {
    let member = HubMember::new(&get_user_for_test(1), 1);
    let hub = get_hub_for_test();
    assert!(member.has_permission(HubPermission::All, &hub));
}

#[test]
fn hub_permissions() {
    let mut hub = get_hub_for_test();
    let mut member = hub
        .user_join(&get_user_for_test(2))
        .expect("Test user could not join test hub.");
    assert!(!member.has_permission(HubPermission::All, &hub));
    assert!(!member.has_permission(HubPermission::SendMessage, &hub));
    assert!(!member.has_permission(HubPermission::ReadMessage, &hub));
    member.set_permission(HubPermission::SendMessage, PermissionSetting::FALSE);
    assert!(!member.has_permission(HubPermission::SendMessage, &hub));
    assert!(!member.has_permission(HubPermission::ReadMessage, &hub));
    member.set_permission(HubPermission::SendMessage, PermissionSetting::NONE);
    assert!(!member.has_permission(HubPermission::SendMessage, &hub));
    assert!(!member.has_permission(HubPermission::ReadMessage, &hub));
    member.set_permission(HubPermission::SendMessage, PermissionSetting::TRUE);
    assert!(member.has_permission(HubPermission::SendMessage, &hub));
    assert!(!member.has_permission(HubPermission::ReadMessage, &hub));
    member.set_permission(HubPermission::All, PermissionSetting::TRUE);
    assert!(member.has_permission(HubPermission::ReadMessage, &hub));
    assert!(member.has_permission(HubPermission::SendMessage, &hub));
}

#[test]
fn channel_permissions() {
    let mut hub = get_hub_for_test();
    let mut member = hub
        .user_join(&get_user_for_test(2))
        .expect("Test user could not join test hub.");
    assert!(!member.has_permission(HubPermission::All, &hub));
    let id: ID = 0;
    assert!(!member.has_channel_permission(&id, &ChannelPermission::SendMessage, &hub));
    assert!(!member.has_channel_permission(&id, &ChannelPermission::ReadMessage, &hub));
    member.set_channel_permission(id, ChannelPermission::SendMessage, PermissionSetting::FALSE);
    assert!(!member.has_channel_permission(&id, &ChannelPermission::SendMessage, &hub));
    assert!(!member.has_channel_permission(&id, &ChannelPermission::ReadMessage, &hub));
    member.set_channel_permission(id, ChannelPermission::SendMessage, PermissionSetting::NONE);
    assert!(!member.has_channel_permission(&id, &ChannelPermission::SendMessage, &hub));
    assert!(!member.has_channel_permission(&id, &ChannelPermission::ReadMessage, &hub));
    member.set_channel_permission(id, ChannelPermission::SendMessage, PermissionSetting::TRUE);
    assert!(member.has_channel_permission(&id, &ChannelPermission::SendMessage, &hub));
    assert!(!member.has_channel_permission(&id, &ChannelPermission::ReadMessage, &hub));
    member.set_permission(HubPermission::All, PermissionSetting::TRUE);
    assert!(member.has_channel_permission(&id, &ChannelPermission::SendMessage, &hub));
    assert!(member.has_channel_permission(&id, &ChannelPermission::ReadMessage, &hub));
}

#[test]
fn group_permissions() {
    let mut hub = get_hub_for_test();
    let mut member = hub
        .user_join(&get_user_for_test(2))
        .expect("Test user could not join test hub.");
    let group = PermissionGroup::new("test_group".to_string(), 0);
    let group_id = group.id;
    hub.groups.insert(group_id, group);
    member.join_group(
        hub.groups
            .get_mut(&group_id)
            .expect("Failed to get test group."),
    );
    assert!(!member.has_permission(HubPermission::All, &hub));
    assert!(!member.has_permission(HubPermission::SendMessage, &hub));
    assert!(!member.has_permission(HubPermission::ReadMessage, &hub));
    hub.groups
        .get_mut(&group_id)
        .expect("Failed to get test group.")
        .set_permission(HubPermission::SendMessage, PermissionSetting::FALSE);
    assert!(!member.has_permission(HubPermission::SendMessage, &hub));
    assert!(!member.has_permission(HubPermission::ReadMessage, &hub));
    hub.groups
        .get_mut(&group_id)
        .expect("Failed to get test group.")
        .set_permission(HubPermission::SendMessage, PermissionSetting::NONE);
    assert!(!member.has_permission(HubPermission::SendMessage, &hub));
    assert!(!member.has_permission(HubPermission::ReadMessage, &hub));
    hub.groups
        .get_mut(&group_id)
        .expect("Failed to get test group.")
        .set_permission(HubPermission::SendMessage, PermissionSetting::TRUE);
    assert!(member.has_permission(HubPermission::SendMessage, &hub));
    assert!(!member.has_permission(HubPermission::ReadMessage, &hub));
    hub.groups
        .get_mut(&group_id)
        .expect("Failed to get test group.")
        .set_permission(HubPermission::All, PermissionSetting::TRUE);
    assert!(member.has_permission(HubPermission::ReadMessage, &hub));
    assert!(member.has_permission(HubPermission::SendMessage, &hub));
}

#[test]
fn channel_view() {
    let mut hub = get_hub_for_test();
    let mut member = hub
        .user_join(&get_user_for_test(2))
        .expect("Test user could not join test hub.");
    {
        {
            let member_in_hub = hub
                .members
                .get_mut(&member.user)
                .expect("Failed to get hub member.");
            member_in_hub.set_permission(HubPermission::CreateChannel, PermissionSetting::TRUE);
            member = member_in_hub.duplicate();
        }
        assert!(!member.has_permission(HubPermission::All, &hub));
        assert!(member.has_permission(HubPermission::CreateChannel, &hub));
    }
    let channel_0 = hub
        .new_channel(member.user, "test0".to_string())
        .expect("Failed to create test channel.");
    let _channel_1 = hub
        .new_channel(member.user, "test1".to_string())
        .expect("Failed to create test channel.");
    assert!(hub
        .channels(member.user)
        .expect("Failed to get hub channels.")
        .is_empty());

    {
        let member_in_hub = hub
            .members
            .get_mut(&member.user)
            .expect("Failed to get hub member.");
        member_in_hub.set_channel_permission(
            channel_0,
            ChannelPermission::ViewChannel,
            PermissionSetting::TRUE,
        );
    }
    let get = hub
        .channels(member.user)
        .expect("Failed to get hub channels.");
    assert_eq!(get.len(), 1);
    assert_eq!(get[0].id, channel_0);
}

#[test]
fn owner_holds_every_permission() {
    let hub = get_hub_for_test();
    let owner = hub.get_member(&1).expect("owner is a member");
    for p in [
        HubPermission::All,
        HubPermission::Ban,
        HubPermission::DeleteChannel,
        HubPermission::ViewChannel,
    ] {
        assert!(owner.has_permission(p, &hub));
    }
    assert!(owner.has_channel_permission(&77, &ChannelPermission::ManageChannel, &hub));
}

#[test]
fn all_true_grants_every_permission() {
    let mut hub = get_hub_for_test();
    let mut member = hub.user_join(&get_user_for_test(2)).unwrap();
    member.set_permission(HubPermission::All, PermissionSetting::TRUE);
    member.set_channel_permission(5, ChannelPermission::SendMessage, PermissionSetting::FALSE);
    assert!(member.has_permission(HubPermission::Kick, &hub));
    assert!(member.has_channel_permission(&5, &ChannelPermission::SendMessage, &hub));
}

#[test]
fn member_false_beats_group_grant() {
    let mut hub = get_hub_for_test();
    let mut member = hub.user_join(&get_user_for_test(2)).unwrap();
    let dg = hub.default_group;
    hub.groups
        .get_mut(&dg)
        .unwrap()
        .set_channel_permission(9, ChannelPermission::SendMessage, PermissionSetting::TRUE);
    assert!(member.has_channel_permission(&9, &ChannelPermission::SendMessage, &hub));
    member.set_channel_permission(9, ChannelPermission::SendMessage, PermissionSetting::FALSE);
    assert!(!member.has_channel_permission(&9, &ChannelPermission::SendMessage, &hub));
    member.set_channel_permission(9, ChannelPermission::All, PermissionSetting::TRUE);
    assert!(member.has_channel_permission(&9, &ChannelPermission::SendMessage, &hub));
}

#[test]
fn single_group_grants_only_its_permission() {
    let mut hub = get_hub_for_test();
    let mut member = HubMember::new(&get_user_for_test(3), hub.id);
    let mut group = PermissionGroup::new("writers".to_string(), 40);
    group.set_permission(HubPermission::SendMessage, PermissionSetting::TRUE);
    member.join_group(&mut group);
    hub.groups.insert(40, group);
    assert!(member.has_permission(HubPermission::SendMessage, &hub));
    assert!(!member.has_permission(HubPermission::ReadMessage, &hub));
    assert!(!member.has_permission(HubPermission::All, &hub));
    assert!(!member.has_permission(HubPermission::Ban, &hub));
}

#[test]
fn channel_none_falls_back_to_hub_level() {
    let mut hub = get_hub_for_test();
    let mut member = hub.user_join(&get_user_for_test(2)).unwrap();
    member.set_channel_permission(3, ChannelPermission::ReadMessage, PermissionSetting::NONE);
    assert!(!member.has_channel_permission(&3, &ChannelPermission::ReadMessage, &hub));
    member.set_permission(HubPermission::ReadMessage, PermissionSetting::TRUE);
    assert!(member.has_channel_permission(&3, &ChannelPermission::ReadMessage, &hub));
    // An entry for the channel without one for the permission denies it.
    assert!(!member.has_channel_permission(&3, &ChannelPermission::SendMessage, &hub));
}

#[test]
fn hub_none_defers_to_groups() {
    let mut hub = get_hub_for_test();
    let mut member = hub.user_join(&get_user_for_test(2)).unwrap();
    let dg = hub.default_group;
    hub.groups
        .get_mut(&dg)
        .unwrap()
        .set_permission(HubPermission::ReadMessage, PermissionSetting::TRUE);
    member.set_permission(HubPermission::ReadMessage, PermissionSetting::NONE);
    assert!(member.has_permission(HubPermission::ReadMessage, &hub));
    member.set_permission(HubPermission::ReadMessage, PermissionSetting::FALSE);
    assert!(!member.has_permission(HubPermission::ReadMessage, &hub));
}

#[test]
fn mute_semantics() {
    let mut hub = get_hub_for_test();
    hub.user_join(&get_user_for_test(2)).unwrap();
    let ch = hub.new_channel(1, "general".to_string()).unwrap();
    hub.members
        .get_mut(&2)
        .unwrap()
        .set_channel_permission(ch, ChannelPermission::SendMessage, PermissionSetting::TRUE);
    assert_eq!(
        hub.mute_user(2, 2),
        Err(Error::MissingHubPermission(HubPermission::Mute))
    );
    assert_eq!(hub.mute_user(9, 2), Err(Error::NotInHub));
    hub.mute_user(1, 2).unwrap();
    assert_eq!(hub.send_message(2, ch, "hi".to_string()), Err(Error::Muted));
    hub.unmute_user(1, 2).unwrap();
    let first = hub.send_message(2, ch, "hi".to_string()).unwrap();
    let second = hub.send_message(2, ch, "hi".to_string()).unwrap();
    assert_ne!(first, second);
    let log = &hub.channels.get(&ch).unwrap().messages;
    assert_eq!(log.len(), 2);
    assert_eq!(log[0].id, first);
    assert_eq!(log[0].sender, 2);
    assert_eq!(log[0].content, "hi");
}

#[test]
fn channel_operation_errors() {
    let mut hub = get_hub_for_test();
    hub.user_join(&get_user_for_test(2)).unwrap();
    let long = "x".repeat(129);
    assert_eq!(hub.new_channel(1, long.clone()), Err(Error::InvalidName));
    assert_eq!(hub.new_channel(9, "a".to_string()), Err(Error::NotInHub));
    assert_eq!(
        hub.new_channel(2, "a".to_string()),
        Err(Error::MissingHubPermission(HubPermission::CreateChannel))
    );
    let ch = hub.new_channel(1, "a".repeat(128)).unwrap();
    assert_eq!(
        hub.rename_channel(2, ch, "b".to_string()),
        Err(Error::MissingChannelPermission(ChannelPermission::ViewChannel))
    );
    assert_eq!(hub.rename_channel(1, 12345, "b".to_string()), Err(Error::ChannelNotFound));
    assert_eq!(hub.rename_channel(1, ch, long), Err(Error::InvalidName));
    assert_eq!(hub.rename_channel(1, ch, "b".to_string()), Ok("a".repeat(128)));
    assert_eq!(hub.channels.get(&ch).unwrap().name, "b");
    assert_eq!(hub.send_message(9, ch, "x".to_string()), Err(Error::NotInHub));
    assert_eq!(
        hub.send_message(2, ch, "x".to_string()),
        Err(Error::MissingChannelPermission(ChannelPermission::SendMessage))
    );
    assert_eq!(hub.send_message(1, ch, "x".repeat(8193)), Err(Error::TooBig));
    assert!(hub.send_message(1, ch, "x".repeat(8192)).is_ok());
    assert_eq!(
        hub.delete_channel(2, ch),
        Err(Error::MissingHubPermission(HubPermission::DeleteChannel))
    );
    assert_eq!(hub.delete_channel(9, ch), Err(Error::NotInHub));
    assert_eq!(hub.delete_channel(1, ch), Ok(()));
    assert_eq!(hub.delete_channel(1, ch), Err(Error::ChannelNotFound));
    assert!(hub.channels.is_empty());
    assert!(matches!(hub.channels(9), Err(Error::NotInHub)));
}

#[test]
fn join_and_leave() {
    let mut hub = get_hub_for_test();
    let dg = hub.default_group;
    let member = hub.user_join(&get_user_for_test(2)).unwrap();
    assert_eq!(member.groups, vec![dg]);
    assert_eq!(member.nickname, "test_user");
    assert_eq!(hub.groups.get(&dg).unwrap().members, vec![1, 2]);
    assert!(hub.members.contains_key(&2));
    let again = hub.user_join(&get_user_for_test(2)).unwrap();
    assert_eq!(again.groups, vec![dg]);
    assert_eq!(hub.groups.get(&dg).unwrap().members, vec![1, 2]);
    hub.groups.insert(50, PermissionGroup::new("extra".to_string(), 50));
    hub.members
        .get_mut(&2)
        .unwrap()
        .join_group(hub.groups.get_mut(&50).unwrap());
    assert_eq!(hub.groups.get(&50).unwrap().members, vec![2]);
    hub.user_leave(&get_user_for_test(2)).unwrap();
    assert!(!hub.members.contains_key(&2));
    assert_eq!(hub.groups.get(&dg).unwrap().members, vec![1]);
    assert!(hub.groups.get(&50).unwrap().members.is_empty());
    hub.bans.insert(3);
    assert!(matches!(hub.user_join(&get_user_for_test(3)), Err(Error::Banned)));
    hub.groups.remove(&dg);
    assert!(matches!(hub.user_join(&get_user_for_test(4)), Err(Error::GroupNotFound)));
    assert_eq!(hub.user_leave(&get_user_for_test(1)), Err(Error::GroupNotFound));
    assert_eq!(hub.get_member(&8).err(), Some(Error::MemberNotFound));
}

#[test]
fn new_hub_shape() {
    let hub = get_hub_for_test();
    assert_eq!(hub.owner, 1);
    assert_eq!(hub.name, "test");
    assert_eq!(hub.members.len(), 1);
    assert_eq!(hub.groups.len(), 1);
    let everyone = hub.groups.get(&hub.default_group).unwrap();
    assert_eq!(everyone.name, "everyone");
    assert_eq!(everyone.members, vec![1]);
    assert!(hub.channels.is_empty() && hub.bans.is_empty() && hub.mutes.is_empty());
}

#[test]
fn group_membership_both_sides() {
    let mut member = HubMember::new(&get_user_for_test(5), 1);
    let mut group = PermissionGroup::new("g".to_string(), 6);
    group.add_member(&mut member);
    group.add_member(&mut member);
    assert_eq!(member.groups, vec![6]);
    assert_eq!(group.members, vec![5]);
    group.remove_member(&mut member);
    assert!(member.groups.is_empty());
    assert!(group.members.is_empty());
    assert_eq!(member.set_nickname("n".repeat(129)), Err(()));
    assert_eq!(member.set_nickname("nick".to_string()), Ok(()));
    assert_eq!(member.nickname, "nick");
}

#[test]
fn group_channel_permissions() {
    let mut group = PermissionGroup::new("g".to_string(), 6);
    assert!(!group.has_channel_permission(&1, &ChannelPermission::ReadMessage));
    group.set_channel_permission(1, ChannelPermission::ReadMessage, PermissionSetting::NONE);
    assert!(!group.has_channel_permission(&1, &ChannelPermission::ReadMessage));
    group.set_permission(HubPermission::ReadMessage, PermissionSetting::TRUE);
    assert!(group.has_channel_permission(&1, &ChannelPermission::ReadMessage));
    group.set_channel_permission(1, ChannelPermission::SendMessage, PermissionSetting::FALSE);
    assert!(!group.has_channel_permission(&1, &ChannelPermission::SendMessage));
    group.set_channel_permission(2, ChannelPermission::All, PermissionSetting::TRUE);
    assert!(group.has_channel_permission(&2, &ChannelPermission::ManageChannel));
    assert!(!group.has_all_permissions());
}

#[test]
fn message_log_range() {
    let mut hub = get_hub_for_test();
    let ch = hub.new_channel(1, "log".to_string()).unwrap();
    let mut ids = Vec::new();
    for text in ["a", "b", "c"] {
        ids.push(hub.send_message(1, ch, text.to_string()).unwrap());
    }
    let channel = hub.channels.get(&ch).unwrap();
    let after_first: Vec<String> = channel
        .get_all_messages_from(ids[0])
        .into_iter()
        .map(|m: Message| m.content)
        .collect();
    assert_eq!(after_first, vec!["b".to_string(), "c".to_string()]);
    assert!(channel.get_all_messages_from(ids[2]).is_empty());
    assert_eq!(channel.get_all_messages_from(424242).len(), 3);
    let copy = channel.duplicate();
    assert_eq!(copy.messages.len(), 3);
    assert_eq!(copy.name, "log");
}
