use wicrs_server::hub::{Hub, User};
use wicrs_server::indexer::{
    catch_up, decode_journal, encode_journal, Flush, IndexAction, MessageServer,
};
use wicrs_server::server::ChannelKey;
use wicrs_server::TANTIVY_COMMIT_THRESHOLD;

#[test]
fn search_after_batch() {
    let mut server = MessageServer::new();
    assert_eq!(server.commit_threshold(), 10);
    let ids: Vec<u128> = (1..=10).map(|i| 100 + i).collect();
    let mut journal: Option<u128> = None;
    for id in &ids {
        match server.new_message(1, 2, *id) {
            IndexAction::Add { message_id } => {
                if journal.is_none() {
                    journal = Some(message_id);
                }
            }
            IndexAction::AddAndCommit { message_id } => journal = Some(message_id),
        }
    }
    assert_eq!(server.pending(1, 2).unwrap().count, 10);
    assert_eq!(server.before_search(1, 2), Some(ids[9]));
    journal = Some(ids[9]);
    assert_eq!(journal, Some(110));
    assert_eq!(server.pending(1, 2).unwrap().count, 0);
    assert_eq!(server.before_search(1, 2), None);
}

#[test]
fn commit_at_threshold() {
    let mut server = MessageServer::with_threshold(TANTIVY_COMMIT_THRESHOLD);
    for id in 1..=10u128 {
        assert_eq!(server.new_message(1, 2, id), IndexAction::Add { message_id: id });
    }
    assert_eq!(server.pending(1, 2).unwrap().count, 10);
    assert_eq!(server.new_message(1, 2, 11), IndexAction::AddAndCommit { message_id: 11 });
    assert_eq!(server.pending(1, 2).unwrap().count, 0);
    assert_eq!(server.pending(1, 2).unwrap().last_id, 11);
    // Other channels are not affected.
    assert!(server.pending(1, 3).is_none());
    let mut eager = MessageServer::with_threshold(0);
    assert_eq!(eager.new_message(4, 4, 9), IndexAction::AddAndCommit { message_id: 9 });
}

#[test]
fn shutdown_flushes_pending_channels() {
    let mut server = MessageServer::new();
    server.new_message(1, 2, 5);
    server.new_message(1, 3, 6);
    server.new_message(4, 2, 7);
    server.before_search(1, 3);
    let mut flushes = server.stopped();
    flushes.sort_by_key(|f| (f.key.hub_id, f.key.channel_id));
    assert_eq!(
        flushes,
        vec![
            Flush { key: ChannelKey { hub_id: 1, channel_id: 2 }, last_id: 5 },
            Flush { key: ChannelKey { hub_id: 4, channel_id: 2 }, last_id: 7 },
        ]
    );
}

#[test]
fn journal_bytes() {
    assert_eq!(encode_journal(1), vec![1, 0, 0, 0, 0, 0, 0, 0, 0, 0, 0, 0, 0, 0, 0, 0]);
    assert_eq!(encode_journal(0x0102), vec![2, 1, 0, 0, 0, 0, 0, 0, 0, 0, 0, 0, 0, 0, 0, 0]);
    assert_eq!(encode_journal(u128::MAX), vec![255; 16]);
    let id = 0x0123_4567_89ab_cdef_0011_2233_4455_6677u128;
    assert_eq!(encode_journal(id), id.to_le_bytes().to_vec());
    assert_eq!(decode_journal(&encode_journal(id)), Some(id));
    assert_eq!(decode_journal(&[1, 2, 3]), None);
    let mut long = encode_journal(9);
    long.push(77);
    assert_eq!(decode_journal(&long), Some(9));
}

#[test]
fn crash_recovery_reindexes_after_journal() {
    let mut hub = Hub::new("h".to_string(), 7, &User { id: 1, username: "a".to_string() });
    let ch = hub.new_channel(1, "c".to_string()).unwrap();
    let ids: Vec<u128> = (0..5)
        .map(|i| hub.send_message(1, ch, format!("m{}", i)).unwrap())
        .collect();
    let channel = hub.channels.get(&ch).unwrap();
    let plan = catch_up(channel, ids[2]);
    let got: Vec<u128> = plan.messages.iter().map(|m| m.id).collect();
    assert_eq!(got, vec![ids[3], ids[4]]);
    assert_eq!(plan.journal, Some(ids[4]));
    let nothing = catch_up(channel, ids[4]);
    assert!(nothing.messages.is_empty());
    assert_eq!(nothing.journal, None);
    assert_eq!(catch_up(channel, 1).messages.len(), 5);
}
