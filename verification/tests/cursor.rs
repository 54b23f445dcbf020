use std::cmp::Ordering;
use std::collections::hash_map::DefaultHasher;
use std::hash::Hash;
use std::hash::Hasher;

use chat_message::cursor::column_of;
use chat_message::cursor::visit;
use chat_message::cursor::Cursor;
use chat_message::cursor::MessageCursor;
use chat_message::event::MessageEvent;
use chat_message::event::MessageType;
use chat_message::event::RoomMessageEventContent;
use chat_message::key::key_before;
use chat_message::key::key_cmp;
use chat_message::key::key_same;
use chat_message::key::str_same;
use chat_message::key::MessageKey;
use chat_message::message::Message;
use chat_message::room::Messages;
use chat_message::room::RoomInfo;
use chat_message::timestamp::MessageTimeStamp;
use chat_message::timestamp::MessageTimeStamp::LocalEcho;
use chat_message::timestamp::MessageTimeStamp::OriginServer;
use chat_message::timestamp::TimeStampIntError;
use chat_message::timestamp::MAX_MILLIS;

fn msg1_key() -> MessageKey {
    (LocalEcho, "$echo:example.com".to_string())
}

fn msg2_key() -> MessageKey {
    (OriginServer(1), "$second:example.com".to_string())
}

fn msg3_key() -> MessageKey {
    (OriginServer(2), "$5jRz3KfVhaUzXtVj7k:example.com".to_string())
}

fn msg4_key() -> MessageKey {
    (OriginServer(2), "$JP6qFV7WyXk5ZnexM3:example.com".to_string())
}

fn msg5_key() -> MessageKey {
    (OriginServer(8), "$fifth:example.com".to_string())
}

fn text_message(key: &MessageKey, sender: &str, body: &str) -> Message {
    let content = RoomMessageEventContent {
        msgtype: MessageType::Text { body: body.to_string(), formatted: None },
        relates_to: None,
    };
    let event = match key.0 {
        LocalEcho => MessageEvent::Local { event_id: key.1.clone(), content },
        OriginServer(_) => MessageEvent::Original { event_id: key.1.clone(), content },
    };
    Message::new(event, sender.to_string(), key.0, None)
}

fn mock_room() -> RoomInfo {
    let mut info = RoomInfo::default();
    let keys = [msg3_key(), msg1_key(), msg5_key(), msg2_key(), msg4_key()];
    for (i, key) in keys.iter().enumerate() {
        let msg = text_message(key, "@user1:example.com", &format!("message {}", i));
        assert!(info.messages.insert(key.clone(), msg).is_none());
    }
    info
}

fn std_hash(s: &str) -> u64 {
    let mut hasher = DefaultHasher::new();
    s.hash(&mut hasher);
    hasher.finish()
}

#[test]
fn test_mc_cmp() {
    let mc1 = MessageCursor::from(msg1_key());
    let mc2 = MessageCursor::from(msg2_key());
    let mc3 = MessageCursor::from(msg3_key());
    let mc4 = MessageCursor::from(msg4_key());
    let mc5 = MessageCursor::from(msg5_key());

    // Everything is equal to itself.
    assert_eq!(mc1.cmp(&mc1), Ordering::Equal);
    assert_eq!(mc2.cmp(&mc2), Ordering::Equal);
    assert_eq!(mc3.cmp(&mc3), Ordering::Equal);
    assert_eq!(mc4.cmp(&mc4), Ordering::Equal);
    assert_eq!(mc5.cmp(&mc5), Ordering::Equal);

    // Local echo is always greater than an origin server timestamp.
    assert_eq!(mc1.cmp(&mc2), Ordering::Greater);
    assert_eq!(mc1.cmp(&mc3), Ordering::Greater);
    assert_eq!(mc1.cmp(&mc4), Ordering::Greater);
    assert_eq!(mc1.cmp(&mc5), Ordering::Greater);

    // mc2 is the smallest timestamp.
    assert_eq!(mc2.cmp(&mc1), Ordering::Less);
    assert_eq!(mc2.cmp(&mc3), Ordering::Less);
    assert_eq!(mc2.cmp(&mc4), Ordering::Less);
    assert_eq!(mc2.cmp(&mc5), Ordering::Less);

    // mc3 should be less than mc4 because of its event ID.
    assert_eq!(mc3.cmp(&mc1), Ordering::Less);
    assert_eq!(mc3.cmp(&mc2), Ordering::Greater);
    assert_eq!(mc3.cmp(&mc4), Ordering::Less);
    assert_eq!(mc3.cmp(&mc5), Ordering::Less);

    // mc4 should be greater than mc3 because of its event ID.
    assert_eq!(mc4.cmp(&mc1), Ordering::Less);
    assert_eq!(mc4.cmp(&mc2), Ordering::Greater);
    assert_eq!(mc4.cmp(&mc3), Ordering::Greater);
    assert_eq!(mc4.cmp(&mc5), Ordering::Less);

    // mc5 is the greatest OriginServer timestamp.
    assert_eq!(mc5.cmp(&mc1), Ordering::Less);
    assert_eq!(mc5.cmp(&mc2), Ordering::Greater);
    assert_eq!(mc5.cmp(&mc3), Ordering::Greater);
    assert_eq!(mc5.cmp(&mc4), Ordering::Greater);
}

#[test]
fn test_mc_to_key() {
    let info = mock_room();
    let mc1 = MessageCursor::from(msg1_key());
    let mc2 = MessageCursor::from(msg2_key());
    let mc3 = MessageCursor::from(msg3_key());
    let mc4 = MessageCursor::from(msg4_key());
    let mc5 = MessageCursor::from(msg5_key());
    let mc6 = MessageCursor::latest();

    let k1 = mc1.to_key(&info).unwrap();
    let k2 = mc2.to_key(&info).unwrap();
    let k3 = mc3.to_key(&info).unwrap();
    let k4 = mc4.to_key(&info).unwrap();
    let k5 = mc5.to_key(&info).unwrap();
    let k6 = mc6.to_key(&info).unwrap();

    // These should all be equal to their MSGN_KEYs.
    assert_eq!(k1, &msg1_key());
    assert_eq!(k2, &msg2_key());
    assert_eq!(k3, &msg3_key());
    assert_eq!(k4, &msg4_key());
    assert_eq!(k5, &msg5_key());

    // MessageCursor::latest() turns into the largest key (our local echo message).
    assert_eq!(k6, &msg1_key());

    // MessageCursor::latest() fails to convert for a room w/o messages.
    let info_empty = RoomInfo::default();
    assert_eq!(mc6.to_key(&info_empty), None);
}

#[test]
fn test_mc_to_from_cursor() {
    let info = mock_room();
    let mc1 = MessageCursor::from(msg1_key());
    let mc2 = MessageCursor::from(msg2_key());
    let mc3 = MessageCursor::from(msg3_key());
    let mc4 = MessageCursor::from(msg4_key());
    let mc5 = MessageCursor::from(msg5_key());
    let mc6 = MessageCursor::latest();

    let identity = |mc: &MessageCursor| {
        let c = mc.to_cursor(&info).unwrap();

        MessageCursor::from_cursor(&c, &info).unwrap()
    };

    // These should all convert to a Cursor and back to the value they started from.
    assert_eq!(identity(&mc1), mc1);
    assert_eq!(identity(&mc2), mc2);
    assert_eq!(identity(&mc3), mc3);
    assert_eq!(identity(&mc4), mc4);
    assert_eq!(identity(&mc5), mc5);

    // MessageCursor::latest() should point at the most recent message after conversion.
    assert_eq!(identity(&mc6), mc1);
}

#[test]
fn test_timestamp_order() {
    let a = OriginServer(5);
    let b = OriginServer(9);
    assert_eq!(a.cmp(&b), Ordering::Less);
    assert_eq!(b.cmp(&a), Ordering::Greater);
    assert_eq!(a.cmp(&a), Ordering::Equal);
    assert_eq!(a.cmp(&LocalEcho), Ordering::Less);
    assert_eq!(OriginServer(u64::MAX).cmp(&LocalEcho), Ordering::Less);
    assert_eq!(LocalEcho.cmp(&a), Ordering::Greater);
    assert_eq!(LocalEcho.cmp(&LocalEcho), Ordering::Equal);
    assert!(a.before(&b));
    assert!(!b.before(&a));
    assert!(!LocalEcho.before(&b));
    assert!(a < b);
    assert!(b < LocalEcho);
    assert!(!(LocalEcho < LocalEcho));
    assert_eq!(a.partial_cmp(&LocalEcho), Some(Ordering::Less));
    // The derived order of the standard traits is the same one.
    assert_eq!(Ord::cmp(&a, &b), Ordering::Less);
    assert_eq!(Ord::cmp(&LocalEcho, &b), Ordering::Greater);
    assert_eq!(Ord::cmp(&LocalEcho, &LocalEcho), Ordering::Equal);
}

#[test]
fn test_timestamp_accessors() {
    assert!(LocalEcho.is_local_echo());
    assert!(!OriginServer(0).is_local_echo());
    assert_eq!(OriginServer(17).as_millis(), Some(17));
    assert_eq!(LocalEcho.as_millis(), None);
    assert_eq!(MessageTimeStamp::from(42u64), OriginServer(42));
}

#[test]
fn test_timestamp_to_usize() {
    assert_eq!(LocalEcho.to_usize(), Ok(0));
    assert_eq!(OriginServer(0).to_usize(), Ok(0));
    assert_eq!(OriginServer(1234).to_usize(), Ok(1234));
    if usize::BITS >= 64 {
        assert_eq!(OriginServer(u64::MAX).to_usize(), Ok(usize::MAX));
    } else {
        assert_eq!(OriginServer(u64::MAX).to_usize(), Err(TimeStampIntError::IntError));
    }
}

#[test]
fn test_timestamp_from_usize() {
    assert_eq!(MessageTimeStamp::from_usize(0), Ok(LocalEcho));
    assert_eq!(MessageTimeStamp::from_usize(1), Ok(OriginServer(1)));
    assert_eq!(MessageTimeStamp::from_usize(1234), Ok(OriginServer(1234)));
    assert_eq!(MAX_MILLIS, 9007199254740991);
    if usize::BITS >= 64 {
        let max = MAX_MILLIS as usize;
        assert_eq!(MessageTimeStamp::from_usize(max), Ok(OriginServer(MAX_MILLIS)));
        assert_eq!(MessageTimeStamp::from_usize(max + 1), Err(TimeStampIntError::UIntError));
        assert_eq!(MessageTimeStamp::from_usize(usize::MAX), Err(TimeStampIntError::UIntError));
    }
}

#[test]
fn test_timestamp_round_trip() {
    for ts in [LocalEcho, OriginServer(1), OriginServer(1_700_000_000_000)] {
        let row = ts.to_usize().unwrap();
        assert_eq!(MessageTimeStamp::from_usize(row), Ok(ts));
    }
    // The confirmed time 0 shares its row with the pending timestamp.
    let row = OriginServer(0).to_usize().unwrap();
    assert_eq!(MessageTimeStamp::from_usize(row), Ok(LocalEcho));
}

#[test]
fn test_key_order_scenario() {
    let k1 = (LocalEcho, "echo".to_string());
    let k2 = (OriginServer(10), "$b".to_string());
    let k3 = (OriginServer(20), "$a".to_string());
    let k4 = (OriginServer(20), "$c".to_string());
    let k5 = (OriginServer(30), "$0".to_string());
    let ascending = [&k2, &k3, &k4, &k5, &k1];
    for i in 0..ascending.len() {
        for j in 0..ascending.len() {
            let expected = i.cmp(&j);
            assert_eq!(key_cmp(ascending[i], ascending[j]), expected);
            assert_eq!(key_before(ascending[i], ascending[j]), expected == Ordering::Less);
            assert_eq!(key_same(ascending[i], ascending[j]), expected == Ordering::Equal);
            // The tuple order of the standard library agrees.
            assert_eq!(ascending[i].cmp(ascending[j]), expected);
        }
    }
    assert_eq!(key_cmp(&k3, &k4), Ordering::Less);
}

#[test]
fn test_key_order_is_transitive_and_antisymmetric() {
    let ids = ["", "$", "$a", "$a:b", "$b", "$\u{e9}", "$\u{1F600}", "a"];
    let stamps = [OriginServer(0), OriginServer(7), LocalEcho];
    let mut keys: Vec<MessageKey> = Vec::new();
    for ts in stamps {
        for id in ids {
            keys.push((ts, id.to_string()));
        }
    }
    for a in &keys {
        for b in &keys {
            let ab = key_cmp(a, b);
            assert_eq!(ab, a.cmp(b));
            assert_eq!(key_cmp(b, a), ab.reverse());
            assert_eq!(ab == Ordering::Equal, a == b);
            for c in &keys {
                if ab == Ordering::Less && key_cmp(b, c) == Ordering::Less {
                    assert_eq!(key_cmp(a, c), Ordering::Less);
                }
            }
        }
    }
}

#[test]
fn test_str_same() {
    assert!(str_same("", ""));
    assert!(str_same("$abc", "$abc"));
    assert!(!str_same("$abc", "$abd"));
    assert!(!str_same("$abc", "$ab"));
    assert!(!str_same("", "a"));
}

#[test]
fn test_cursor_order_without_key() {
    let latest = MessageCursor::latest();
    let mut lower = MessageCursor::latest();
    lower.text_row = 3;
    let keyed = MessageCursor::new(msg1_key(), 100);
    assert_eq!(latest.cmp(&lower), Ordering::Less);
    assert_eq!(lower.cmp(&latest), Ordering::Greater);
    assert_eq!(latest.cmp(&latest), Ordering::Equal);
    assert_eq!(latest.cmp(&keyed), Ordering::Greater);
    assert_eq!(keyed.cmp(&latest), Ordering::Less);
    assert_eq!(latest.partial_cmp(&keyed), Some(Ordering::Greater));
    assert!(keyed < latest);
}

#[test]
fn test_cursor_order_by_row() {
    let a = MessageCursor::new(msg3_key(), 1);
    let b = MessageCursor::new(msg3_key(), 2);
    let c = MessageCursor::new(msg4_key(), 0);
    assert_eq!(a.cmp(&b), Ordering::Less);
    assert_eq!(b.cmp(&a), Ordering::Greater);
    assert_eq!(b.cmp(&c), Ordering::Less);
    assert_eq!(c.cmp(&b), Ordering::Greater);
}

#[test]
fn test_cursor_constructors() {
    let mc = MessageCursor::new(msg2_key(), 4);
    assert_eq!(mc.timestamp, Some(msg2_key()));
    assert_eq!(mc.text_row, 4);
    let latest = MessageCursor::latest();
    assert_eq!(latest.timestamp, None);
    assert_eq!(latest.text_row, 0);
    assert_eq!(MessageCursor::default(), latest);
    assert_eq!(MessageCursor::from(None), latest);
    assert_eq!(MessageCursor::from(Some(msg2_key())), MessageCursor::new(msg2_key(), 0));
    assert_eq!(MessageCursor::from(msg2_key()), MessageCursor::new(msg2_key(), 0));
    let c = Cursor::new(3, 9);
    assert_eq!(c.get_y(), 3);
    assert_eq!(c.get_x(), 9);
}

#[test]
fn test_column_is_the_hash_of_the_identifier() {
    for id in ["$echo:example.com", "$5jRz3KfVhaUzXtVj7k:example.com", "", "$"] {
        assert_eq!(column_of(id), std_hash(id));
    }
    assert_ne!(column_of("$a"), column_of("$b"));
}

#[test]
fn test_to_cursor_row_and_column() {
    let info = mock_room();
    let key = msg5_key();
    let c = MessageCursor::from(key.clone()).to_cursor(&info).unwrap();
    assert_eq!(c.get_y(), 8);
    assert_eq!(c.get_x() as u64, std_hash(&key.1));
    let echo = MessageCursor::from(msg1_key()).to_cursor(&info).unwrap();
    assert_eq!(echo.get_y(), 0);
    assert_eq!(echo.get_x() as u64, std_hash(&msg1_key().1));
    // A cursor with a key of its own does not need the room to hold it.
    let other = (OriginServer(77), "$other".to_string());
    let c = MessageCursor::new(other.clone(), 5).to_cursor(&RoomInfo::default()).unwrap();
    assert_eq!(c, Cursor::new(77, std_hash("$other") as usize));
    // Without a key and without messages there is no cursor.
    assert_eq!(MessageCursor::latest().to_cursor(&RoomInfo::default()), None);
}

#[test]
fn test_from_cursor_falls_back_to_the_next_key() {
    let info = mock_room();
    // Nothing hashes to this column at row 2, so the first key at that row is taken.
    let column = (0..1000usize)
        .find(|x| {
            [msg3_key(), msg4_key(), msg5_key()].iter().all(|k| std_hash(&k.1) != *x as u64)
        })
        .unwrap();
    let found = MessageCursor::from_cursor(&Cursor::new(2, column), &info).unwrap();
    assert_eq!(found, MessageCursor::from(msg3_key()));
    // Between two timestamps the next later key is taken.
    let found = MessageCursor::from_cursor(&Cursor::new(5, column), &info).unwrap();
    assert_eq!(found, MessageCursor::from(msg5_key()));
    // Behind the last confirmed message the pending one is next.
    let found = MessageCursor::from_cursor(&Cursor::new(9, column), &info).unwrap();
    assert_eq!(found, MessageCursor::from(msg1_key()));
    // Row 0 stands for pending messages.
    let found = MessageCursor::from_cursor(&Cursor::new(0, column), &info).unwrap();
    assert_eq!(found, MessageCursor::from(msg1_key()));
}

#[test]
fn test_from_cursor_exact_match_at_the_next_timestamp() {
    let info = mock_room();
    // The scan looks at the first key behind the row's timestamp too.
    let column = std_hash(&msg5_key().1) as usize;
    let found = MessageCursor::from_cursor(&Cursor::new(3, column), &info).unwrap();
    assert_eq!(found, MessageCursor::from(msg5_key()));
    // It stops there: a key further on is not found by its hash.
    let column = std_hash(&msg1_key().1) as usize;
    let found = MessageCursor::from_cursor(&Cursor::new(3, column), &info).unwrap();
    assert_eq!(found, MessageCursor::from(msg5_key()));
    // At row 2 the second key of the row is found by its hash.
    let column = std_hash(&msg4_key().1) as usize;
    let found = MessageCursor::from_cursor(&Cursor::new(2, column), &info).unwrap();
    assert_eq!(found, MessageCursor::from(msg4_key()));
}

#[test]
fn test_from_cursor_not_found() {
    let empty = RoomInfo::default();
    assert_eq!(MessageCursor::from_cursor(&Cursor::new(2, 7), &empty), None);
    let mut info = RoomInfo::default();
    let key = msg2_key();
    info.messages.insert(key.clone(), text_message(&key, "@a:b", "hi"));
    // Every key is before the row.
    assert_eq!(MessageCursor::from_cursor(&Cursor::new(5, 7), &info), None);
    if usize::BITS >= 64 {
        // The row stands for no timestamp.
        let row = MAX_MILLIS as usize + 1;
        assert_eq!(MessageCursor::from_cursor(&Cursor::new(row, 7), &info), None);
    }
}

#[test]
fn test_round_trip_fails_for_confirmed_time_zero() {
    let mut info = RoomInfo::default();
    let zero = (OriginServer(0), "$zero".to_string());
    let echo = (LocalEcho, "$echo".to_string());
    info.messages.insert(zero.clone(), text_message(&zero, "@a:b", "zero"));
    info.messages.insert(echo.clone(), text_message(&echo, "@a:b", "echo"));
    let c = MessageCursor::from(zero.clone()).to_cursor(&info).unwrap();
    assert_eq!(c.get_y(), 0);
    let back = MessageCursor::from_cursor(&c, &info).unwrap();
    assert_eq!(back, MessageCursor::from(echo));
}

#[test]
fn test_messages_insert_keeps_key_order() {
    let mut messages = Messages::new();
    assert_eq!(messages.len(), 0);
    assert!(messages.last_key_value().is_none());
    let keys = [msg3_key(), msg1_key(), msg5_key(), msg2_key(), msg4_key()];
    for key in keys.iter() {
        assert!(messages.insert(key.clone(), text_message(key, "@a:b", &key.1)).is_none());
    }
    assert_eq!(messages.len(), 5);
    let sorted = [msg2_key(), msg3_key(), msg4_key(), msg5_key(), msg1_key()];
    for (i, key) in sorted.iter().enumerate() {
        let (k, m) = messages.entry(i);
        assert_eq!(k, key);
        assert_eq!(m.event.event_id(), &key.1);
        assert_eq!(messages.position(key), i);
        assert_eq!(messages.get(key).unwrap().event.event_id(), &key.1);
    }
    let (k, _) = messages.last_key_value().unwrap();
    assert_eq!(k, &msg1_key());
    assert!(messages.get(&(OriginServer(3), "$none".to_string())).is_none());
    assert_eq!(messages.position(&(OriginServer(3), "$none".to_string())), 3);
    assert_eq!(messages.position(&(OriginServer(0), "".to_string())), 0);
    assert_eq!(messages.first_from(OriginServer(0)), 0);
    assert_eq!(messages.first_from(OriginServer(2)), 1);
    assert_eq!(messages.first_from(OriginServer(3)), 3);
    assert_eq!(messages.first_from(OriginServer(9)), 4);
    assert_eq!(messages.first_from(LocalEcho), 4);
}

#[test]
fn test_messages_insert_replaces_the_message_under_a_key() {
    let mut messages = Messages::new();
    let key = msg3_key();
    assert!(messages.insert(key.clone(), text_message(&key, "@a:b", "first")).is_none());
    assert!(messages.insert(msg2_key(), text_message(&msg2_key(), "@a:b", "other")).is_none());
    let old = messages.insert(key.clone(), text_message(&key, "@a:b", "second")).unwrap();
    assert_eq!(old.to_string(), "first");
    assert_eq!(messages.len(), 2);
    assert_eq!(messages.get(&key).unwrap().to_string(), "second");
    assert_eq!(messages.entry(0).0, &msg2_key());
    assert_eq!(messages.entry(1).0, &key);
}

#[test]
fn test_get_event_by_identifier() {
    let info = mock_room();
    let found = info.get_event("$fifth:example.com").unwrap();
    assert_eq!(found.timestamp, OriginServer(8));
    assert!(info.get_event("$missing:example.com").is_none());
    assert!(RoomInfo::new().get_event("$fifth:example.com").is_none());
}

#[test]
fn test_messages_redact_in_place() {
    let mut messages = Messages::default();
    assert!(messages.is_empty());
    for key in [msg3_key(), msg2_key(), msg1_key()] {
        messages.insert(key.clone(), text_message(&key, "@a:b", "secret"));
    }
    assert!(!messages.is_empty());
    assert!(messages.redact(&msg3_key(), Some("spam".to_string())));
    assert_eq!(messages.len(), 3);
    assert_eq!(messages.entry(0).0, &msg2_key());
    assert_eq!(messages.entry(1).0, &msg3_key());
    assert_eq!(messages.entry(2).0, &msg1_key());
    let redacted = messages.get(&msg3_key()).unwrap();
    assert_eq!(
        redacted.event,
        MessageEvent::Redacted { event_id: msg3_key().1, reason: Some("spam".to_string()) }
    );
    assert_eq!(redacted.to_string(), "[Redacted: \"spam\"]");
    assert_eq!(redacted.sender, "@a:b");
    assert_eq!(redacted.timestamp, OriginServer(2));
    assert_eq!(messages.get(&msg2_key()).unwrap().to_string(), "secret");
    // A redacted message stays redacted, with its first reason.
    assert!(messages.redact(&msg3_key(), None));
    assert_eq!(messages.get(&msg3_key()).unwrap().to_string(), "[Redacted: \"spam\"]");
    // A pending message is not redacted.
    assert!(messages.redact(&msg1_key(), None));
    assert_eq!(messages.get(&msg1_key()).unwrap().to_string(), "secret");
    // There is nothing to redact under a key that is not there.
    assert!(!messages.redact(&msg5_key(), None));
    assert_eq!(messages.len(), 3);
}

#[test]
fn test_visit() {
    let key = msg3_key();
    let other = msg2_key();
    // A key that hashes to the column is taken and ends the scan.
    let mut seen = Some(other.clone());
    assert!(visit(&key, 7, &OriginServer(2), 7, &mut seen));
    assert_eq!(seen, Some(key.clone()));
    // The first key seen is remembered; the scan goes on at the same timestamp.
    let mut seen = None;
    assert!(!visit(&key, 8, &OriginServer(2), 7, &mut seen));
    assert_eq!(seen, Some(key.clone()));
    // A key seen later is not remembered.
    let mut seen = Some(other.clone());
    assert!(!visit(&key, 8, &OriginServer(2), 7, &mut seen));
    assert_eq!(seen, Some(other.clone()));
    // A key behind the timestamp ends the scan.
    let mut seen = None;
    assert!(visit(&key, 8, &OriginServer(1), 7, &mut seen));
    assert_eq!(seen, Some(key.clone()));
    let mut seen = Some(other.clone());
    assert!(visit(&msg1_key(), 8, &OriginServer(1), 7, &mut seen));
    assert_eq!(seen, Some(other));
    // Nothing is behind a pending timestamp.
    let mut seen = None;
    assert!(!visit(&msg1_key(), 8, &LocalEcho, 7, &mut seen));
    assert_eq!(seen, Some(msg1_key()));
}
