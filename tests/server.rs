use wicrs_server::channel::Message;
use wicrs_server::error::Error;
use wicrs_server::hub::{Hub, User};
use wicrs_server::permission::{ChannelPermission, PermissionSetting};
use wicrs_server::server::{
    ChannelKey, Connect, Disconnect, HubUpdateType, Server, ServerMessage, ServerNotification,
    StartTyping, StopTyping, SubscribeChannel, SubscribeHub, UnsubscribeChannel, UnsubscribeHub,
};

fn user(id: u128) -> User {
    User {
        id,
        username: format!("user{}", id),
    }
}

fn sorted(mut v: Vec<u128>) -> Vec<u128> {
    v.sort();
    v
}

#[test]
fn subscription_cleanup() {
    let hub = Hub::new("h".to_string(), 7, &user(1));
    let mut server: Server<u32> = Server::new();
    let k = server.connect(Connect { websocket_writer: 5 });
    assert!(server.is_connected(k));
    server
        .subscribe_hub(SubscribeHub { user_id: 1, hub_id: 7, connection_id: k }, &hub)
        .unwrap();
    for c in [11, 12] {
        server
            .subscribe_channel(
                SubscribeChannel { user_id: 1, hub_id: 7, channel_id: c, connection_id: k },
                &hub,
            )
            .unwrap();
    }
    assert_eq!(server.hub_subscribers(7), vec![k]);
    assert_eq!(server.channel_subscribers(7, 11), vec![k]);
    assert_eq!(server.connection_channels(k).len(), 2);
    server.disconnect(Disconnect { connection_id: k });
    assert!(server.hub_subscribers(7).is_empty());
    assert!(server.channel_subscribers(7, 11).is_empty());
    assert!(server.channel_subscribers(7, 12).is_empty());
    assert!(server.connection_channels(k).is_empty());
    assert!(server.connection_hubs(k).is_empty());
    assert!(!server.is_connected(k));
    // A second disconnect changes nothing.
    server.disconnect(Disconnect { connection_id: k });
    assert!(!server.is_connected(k));
}

#[test]
fn subscription_symmetry_after_mixed_operations() {
    let hub = Hub::new("h".to_string(), 7, &user(1));
    let mut server: Server<()> = Server::new();
    let a = server.connect(Connect { websocket_writer: () });
    let b = server.connect(Connect { websocket_writer: () });
    assert_ne!(a, b);
    for k in [a, b] {
        server
            .subscribe_channel(
                SubscribeChannel { user_id: 1, hub_id: 7, channel_id: 1, connection_id: k },
                &hub,
            )
            .unwrap();
        server
            .subscribe_hub(SubscribeHub { user_id: 1, hub_id: 7, connection_id: k }, &hub)
            .unwrap();
    }
    server.unsubscribe_channel(UnsubscribeChannel { hub_id: 7, channel_id: 1, connection_id: a });
    server.unsubscribe_channel(UnsubscribeChannel { hub_id: 7, channel_id: 1, connection_id: a });
    server.unsubscribe_hub(UnsubscribeHub { hub_id: 7, connection_id: b });
    assert_eq!(server.channel_subscribers(7, 1), vec![b]);
    assert!(server.connection_channels(a).is_empty());
    assert_eq!(server.connection_channels(b), vec![ChannelKey { hub_id: 7, channel_id: 1 }]);
    assert_eq!(server.hub_subscribers(7), vec![a]);
    assert_eq!(server.connection_hubs(a), vec![7]);
    assert!(server.connection_hubs(b).is_empty());
}

#[test]
fn subscription_requires_membership_and_read() {
    let mut hub = Hub::new("h".to_string(), 7, &user(1));
    hub.user_join(&user(2)).unwrap();
    let mut server: Server<()> = Server::new();
    let k = server.connect(Connect { websocket_writer: () });
    assert_eq!(
        server.subscribe_hub(SubscribeHub { user_id: 3, hub_id: 7, connection_id: k }, &hub),
        Err(Error::MemberNotFound)
    );
    let msg = SubscribeChannel { user_id: 2, hub_id: 7, channel_id: 4, connection_id: k };
    assert_eq!(
        server.subscribe_channel(msg, &hub),
        Err(Error::MissingChannelPermission(ChannelPermission::ReadMessage))
    );
    hub.members
        .get_mut(&2)
        .unwrap()
        .set_channel_permission(4, ChannelPermission::ReadMessage, PermissionSetting::TRUE);
    assert_eq!(server.subscribe_channel(msg, &hub), Ok(()));
    assert!(server.hub_subscribers(7).is_empty());
}

#[test]
fn typing_fan_out() {
    let hub = Hub::new("h".to_string(), 7, &user(1));
    let mut server: Server<()> = Server::new();
    let k1 = server.connect(Connect { websocket_writer: () });
    let k2 = server.connect(Connect { websocket_writer: () });
    let other = server.connect(Connect { websocket_writer: () });
    for k in [k1, k2] {
        server
            .subscribe_channel(
                SubscribeChannel { user_id: 1, hub_id: 7, channel_id: 3, connection_id: k },
                &hub,
            )
            .unwrap();
    }
    let b = server
        .start_typing(StartTyping { user_id: 1, hub_id: 7, channel_id: 3 }, &hub)
        .unwrap();
    assert_eq!(sorted(b.recipients), sorted(vec![k1, k2]));
    assert!(matches!(
        b.message,
        ServerMessage::UserStartedTyping { user_id: 1, hub_id: 7, channel_id: 3 }
    ));
    let stop = server
        .stop_typing(StopTyping { user_id: 1, hub_id: 7, channel_id: 3 }, &hub)
        .unwrap();
    assert!(!stop.recipients.contains(&other));
    assert!(matches!(stop.message, ServerMessage::UserStoppedTyping { .. }));
    assert!(matches!(
        server.start_typing(StartTyping { user_id: 9, hub_id: 7, channel_id: 3 }, &hub),
        Err(Error::MemberNotFound)
    ));
}

#[test]
fn notifications_reach_subscribers() {
    let hub = Hub::new("h".to_string(), 7, &user(1));
    let mut server: Server<()> = Server::new();
    let k = server.connect(Connect { websocket_writer: () });
    server
        .subscribe_hub(SubscribeHub { user_id: 1, hub_id: 7, connection_id: k }, &hub)
        .unwrap();
    let effects = server.notify(ServerNotification::HubUpdated(7, HubUpdateType::UserJoined(2)));
    assert!(effects.index.is_none());
    assert_eq!(effects.broadcast.recipients, vec![k]);
    assert!(matches!(
        effects.broadcast.message,
        ServerMessage::HubUpdated { hub_id: 7, update_type: HubUpdateType::UserJoined(2) }
    ));
    let m = Message { id: 5, sender: 1, created: 0, content: "yo".to_string() };
    let effects =
        server.notify(ServerNotification::NewMessage(7, 3, 5, "armoured".to_string(), m));
    let index = effects.index.unwrap();
    assert_eq!((index.hub_id, index.channel_id, index.message.id), (7, 3, 5));
    assert!(effects.broadcast.recipients.is_empty());
    match effects.broadcast.message {
        ServerMessage::ChatMessage { armoured_message, message_id, .. } => {
            assert_eq!(armoured_message, "armoured");
            assert_eq!(message_id, 5);
        }
        _ => panic!("wrong payload"),
    }
}
