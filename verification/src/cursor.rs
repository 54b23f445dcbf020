//! Addressing messages by a two-dimensional cursor: the row stands for the
//! timestamp of a message and the column for a hash of its event identifier.

use crate::key::key_cmp;
use crate::key::key_le;
use crate::key::key_lt;
use crate::key::key_ordering;
use crate::key::key_view;
use crate::key::lemma_key_lt_timestamps;
use crate::key::lemma_key_order_antisymmetric;
use crate::key::lemma_key_order_transitive;
use crate::key::lemma_key_ordering_equal;
use crate::key::lemma_key_ordering_reverse;
use crate::key::KeyView;
use crate::key::MessageKey;
use crate::room::first_at;
use crate::room::lemma_first_at;
use crate::room::strictly_sorted;
use crate::room::RoomInfo;
use crate::timestamp::lemma_precedes_total;
use crate::timestamp::MessageTimeStamp;
use crate::timestamp::MAX_MILLIS;
use std::cmp::Ordering;
use std::collections::hash_map::DefaultHasher;
use std::hash::Hash;
use std::hash::Hasher;
use vstd::prelude::*;
use vstd::std_specs::cmp::PartialOrdSpecImpl;
use vstd::std_specs::convert::FromSpecImpl;
use vstd::std_specs::hash::DefaultHasherAdditionalSpecFns;

verus! {

/// What hashing a string writes into a hasher.
pub uninterp spec fn str_hash_writes(s: Seq<char>) -> Seq<Seq<u8>>;

/// Calls `<str as Hash>::hash` of std on a `DefaultHasher`. What the call
/// writes into the hasher depends on the characters of the string alone.
#[verifier::external_body]
pub(crate) fn hash_str(s: &str, state: &mut DefaultHasher)
    ensures
        final(state)@ == old(state)@ + str_hash_writes(s@),
{
    s.hash(state);
}

/// The column of an event identifier: its hash.
pub open spec fn event_column(id: Seq<char>) -> u64 {
    DefaultHasher::spec_finish(Seq::<Seq<u8>>::empty() + str_hash_writes(id))
}

/// Computes the column of an event identifier.
pub fn column_of(id: &str) -> (h: u64)
    ensures
        h == event_column(id@),
{
    let mut hasher = DefaultHasher::new();
    hash_str(id, &mut hasher);
    hasher.finish()
}

/// A place on a grid of rows and columns.
#[derive(Clone, Copy, Debug, PartialEq, Eq, Structural)]
pub struct Cursor {
    pub y: usize,
    pub x: usize,
}

impl Cursor {
    /// A cursor at row `y` and column `x`.
    pub fn new(y: usize, x: usize) -> (r: Cursor)
        ensures
            r == (Cursor { y, x }),
    {
        Cursor { y, x }
    }

    /// The column of the cursor.
    pub fn get_x(&self) -> (r: usize)
        ensures
            r == self.x,
    {
        self.x
    }

    /// The row of the cursor.
    pub fn get_y(&self) -> (r: usize)
        ensures
            r == self.y,
    {
        self.y
    }
}

/// What the scan makes of one key whose identifier hashes to `hash`: the
/// key that it holds after the visit, and whether it ends there. A key that
/// hashes to the cursor's column is the result and ends the scan. Any other
/// key is remembered if it is the first one seen, and ends the scan if its
/// timestamp is behind the cursor's.
pub open spec fn visit_key(
    key: KeyView,
    hash: u64,
    ts: MessageTimeStamp,
    column: u64,
    seen: Option<KeyView>,
) -> (Option<KeyView>, bool) {
    if hash == column {
        (Some(key), true)
    } else if seen is Some {
        (seen, ts.precedes(key.0))
    } else {
        (Some(key), ts.precedes(key.0))
    }
}

/// The key that the scan of the keys from position `i` on settles on, for a
/// cursor at timestamp `ts` and column `column`: it visits the keys in
/// order until a visit ends it, and settles on what it holds then.
pub open spec fn scan(
    keys: Seq<KeyView>,
    i: nat,
    ts: MessageTimeStamp,
    column: u64,
    seen: Option<KeyView>,
) -> Option<KeyView>
    decreases keys.len() - i,
{
    if i >= keys.len() {
        seen
    } else {
        let visit = visit_key(keys[i as int], event_column(keys[i as int].1), ts, column, seen);
        if visit.1 {
            visit.0
        } else {
            scan(keys, i + 1, ts, column, visit.0)
        }
    }
}

/// The view of a key that may be missing.
pub open spec fn opt_key_view(key: Option<MessageKey>) -> Option<KeyView> {
    match key {
        Some(k) => Some(key_view(k)),
        None => None,
    }
}

/// Visits one key during the scan for a cursor at timestamp `ts` and
/// column `column`: `hash` is the hash of the key's identifier and `seen`
/// the key that the scan holds. Says whether the scan ends here.
pub fn visit(
    key: &MessageKey,
    hash: u64,
    ts: &MessageTimeStamp,
    column: u64,
    seen: &mut Option<MessageKey>,
) -> (done: bool)
    ensures
        (opt_key_view(*final(seen)), done) == visit_key(
            key_view(*key),
            hash,
            *ts,
            column,
            opt_key_view(*old(seen)),
        ),
{
    if hash == column {
        *seen = Some((key.0, key.1.clone()));
        return true;
    }
    if seen.is_none() {
        *seen = Some((key.0, key.1.clone()));
    }
    ts.before(&key.0)
}

/// The key that a cursor resolves to among sorted keys: the scan starts at
/// the first key whose timestamp is not before the one of the cursor's row.
/// A row above [`MAX_MILLIS`] stands for no timestamp and resolves to
/// nothing.
pub open spec fn resolve(keys: Seq<KeyView>, cursor: Cursor) -> Option<KeyView> {
    if cursor.y > MAX_MILLIS {
        None
    } else {
        let ts = MessageTimeStamp::of_row(cursor.y as int);
        scan(keys, first_at(keys, ts), ts, cursor.x as u64, None)
    }
}

/// The cursor that stands for a key, where its row and its column fit the
/// integers of a cursor.
pub open spec fn cursor_of(key: KeyView) -> Option<Cursor> {
    if key.0.row() <= usize::MAX && event_column(key.1) <= usize::MAX {
        Some(Cursor { y: key.0.row() as usize, x: event_column(key.1) as usize })
    } else {
        None
    }
}

/// A key and a row within the rendered text of its message. Without a key
/// the cursor stands at the most recent message.
#[derive(Clone, Debug, PartialEq, Eq)]
pub struct MessageCursor {
    pub timestamp: Option<MessageKey>,
    pub text_row: usize,
}

/// The order of two rows.
pub open spec fn row_ordering(a: usize, b: usize) -> Ordering {
    if a < b {
        Ordering::Less
    } else if a == b {
        Ordering::Equal
    } else {
        Ordering::Greater
    }
}

fn compare_rows(a: usize, b: usize) -> (r: Ordering)
    ensures
        r == row_ordering(a, b),
{
    if a < b {
        Ordering::Less
    } else if a == b {
        Ordering::Equal
    } else {
        Ordering::Greater
    }
}

impl MessageCursor {
    /// The key of the cursor in contracts.
    pub open spec fn key(self) -> Option<KeyView> {
        match self.timestamp {
            Some(k) => Some(key_view(k)),
            None => None,
        }
    }

    /// The order of two cursors: one without a key is behind every cursor
    /// with a key; two with keys go by their keys and then by their rows;
    /// two without go by their rows.
    pub open spec fn ordering(self, other: Self) -> Ordering {
        match (self.key(), other.key()) {
            (None, None) => row_ordering(self.text_row, other.text_row),
            (None, Some(_)) => Ordering::Greater,
            (Some(_), None) => Ordering::Less,
            (Some(a), Some(b)) => match key_ordering(a, b) {
                Ordering::Less => Ordering::Less,
                Ordering::Greater => Ordering::Greater,
                Ordering::Equal => row_ordering(self.text_row, other.text_row),
            },
        }
    }

    /// The key that the cursor stands for among sorted keys: its own, or
    /// the last one where it has none.
    pub open spec fn key_among(self, keys: Seq<KeyView>) -> Option<KeyView> {
        match self.key() {
            Some(k) => Some(k),
            None => if keys.len() > 0 {
                Some(keys.last())
            } else {
                None
            },
        }
    }

    /// A cursor at a row of the message under `timestamp`.
    pub fn new(timestamp: MessageKey, text_row: usize) -> (r: MessageCursor)
        ensures
            r.timestamp == Some(timestamp),
            r.text_row == text_row,
    {
        MessageCursor { timestamp: Some(timestamp), text_row }
    }

    /// A cursor that refers to the most recent message.
    pub fn latest() -> (r: MessageCursor)
        ensures
            r.timestamp is None,
            r.text_row == 0,
    {
        MessageCursor { timestamp: None, text_row: 0 }
    }

    /// Compares two cursors.
    pub fn cmp(&self, other: &Self) -> (r: Ordering)
        ensures
            r == self.ordering(*other),
    {
        match (&self.timestamp, &other.timestamp) {
            (None, None) => compare_rows(self.text_row, other.text_row),
            (None, Some(_)) => Ordering::Greater,
            (Some(_), None) => Ordering::Less,
            (Some(st), Some(ot)) => match key_cmp(st, ot) {
                Ordering::Less => Ordering::Less,
                Ordering::Greater => Ordering::Greater,
                Ordering::Equal => compare_rows(self.text_row, other.text_row),
            },
        }
    }

    /// The key that the cursor stands for: its own, or the greatest key of
    /// the room where it has none; `None` where it has none and the room has
    /// no messages.
    pub fn to_key<'a>(&'a self, info: &'a RoomInfo) -> (r: Option<&'a MessageKey>)
        ensures
            match r {
                Some(k) => self.key_among(info.messages.keys()) == Some(key_view(*k)),
                None => self.key_among(info.messages.keys()) is None,
            },
            self.timestamp matches Some(k) ==> r == Some(&k),
            self.timestamp is None && r is Some ==> forall|i: int|
                0 <= i < info.messages.keys().len() ==> key_le(
                    #[trigger] info.messages.keys()[i],
                    key_view(*r->0),
                ),
    {
        match &self.timestamp {
            Some(key) => Some(key),
            None => {
                let n = info.messages.len();
                match info.messages.last_key_value() {
                    Some((key, _)) => {
                        proof {
                            lemma_last_is_greatest(info.messages.keys());
                        }
                        Some(key)
                    },
                    None => None,
                }
            },
        }
    }

    /// The cursor of the message that a grid cursor resolves to.
    pub fn from_cursor(cursor: &Cursor, info: &RoomInfo) -> (r: Option<MessageCursor>)
        ensures
            match r {
                Some(mc) => mc.text_row == 0 && mc.key() is Some && mc.key() == resolve(
                    info.messages.keys(),
                    *cursor,
                ),
                None => resolve(info.messages.keys(), *cursor) is None,
            },
    {
        let column = cursor.get_x() as u64;
        let ts_start = match MessageTimeStamp::from_usize(cursor.get_y()) {
            Ok(ts) => ts,
            Err(_) => {
                return None;
            },
        };
        let n = info.messages.len();
        let ghost keys = info.messages.keys();
        let mut i = info.messages.first_from(ts_start);
        let mut seen: Option<MessageKey> = None;
        while i < n
            invariant_except_break
                scan(keys, i as nat, ts_start, column, opt_key_view(seen)) == resolve(
                    keys,
                    *cursor,
                ),
            invariant
                i <= n,
                n == keys.len(),
                keys == info.messages.keys(),
                n == info.messages@.len(),
            ensures
                opt_key_view(seen) == resolve(keys, *cursor),
            decreases n - i,
        {
            let (key, _) = info.messages.entry(i);
            if visit(key, column_of(key.1.as_str()), &ts_start, column, &mut seen) {
                break;
            }
            i = i + 1;
        }
        match seen {
            Some(key) => Some(MessageCursor { timestamp: Some(key), text_row: 0 }),
            None => None,
        }
    }

    /// The grid cursor of the message that this cursor stands for: `None`
    /// where it stands for none, or where the row or the column of the
    /// message's key does not fit the integers of a cursor.
    pub fn to_cursor(&self, info: &RoomInfo) -> (r: Option<Cursor>)
        ensures
            r == match self.key_among(info.messages.keys()) {
                Some(k) => cursor_of(k),
                None => None,
            },
    {
        let key = match self.to_key(info) {
            Some(key) => key,
            None => {
                return None;
            },
        };
        let y = match key.0.to_usize() {
            Ok(y) => y,
            Err(_) => {
                return None;
            },
        };
        let h = column_of(key.1.as_str());
        if h > usize::MAX as u64 {
            return None;
        }
        Some(Cursor::new(y, h as usize))
    }
}

impl Default for MessageCursor {
    fn default() -> (r: MessageCursor)
        ensures
            r.timestamp is None,
            r.text_row == 0,
    {
        MessageCursor::latest()
    }
}

impl PartialOrd for MessageCursor {
    fn partial_cmp(&self, other: &Self) -> (r: Option<Ordering>) {
        Some(MessageCursor::cmp(self, other))
    }
}

impl PartialOrdSpecImpl for MessageCursor {
    open spec fn obeys_partial_cmp_spec() -> bool {
        true
    }

    open spec fn partial_cmp_spec(&self, other: &Self) -> Option<Ordering> {
        Some(self.ordering(*other))
    }
}

impl From<Option<MessageKey>> for MessageCursor {
    fn from(key: Option<MessageKey>) -> (r: Self) {
        MessageCursor { timestamp: key, text_row: 0 }
    }
}

impl FromSpecImpl<Option<MessageKey>> for MessageCursor {
    open spec fn obeys_from_spec() -> bool {
        true
    }

    open spec fn from_spec(key: Option<MessageKey>) -> Self {
        MessageCursor { timestamp: key, text_row: 0 }
    }
}

impl From<MessageKey> for MessageCursor {
    fn from(key: MessageKey) -> (r: Self) {
        MessageCursor { timestamp: Some(key), text_row: 0 }
    }
}

impl FromSpecImpl<MessageKey> for MessageCursor {
    open spec fn obeys_from_spec() -> bool {
        true
    }

    open spec fn from_spec(key: MessageKey) -> Self {
        MessageCursor { timestamp: Some(key), text_row: 0 }
    }
}

/// The order of cursors is total: two cursors compare as equal exactly when
/// they have the same key and row, and swapping the sides of a comparison
/// reverses its result.
pub proof fn lemma_cursor_order_total(a: MessageCursor, b: MessageCursor)
    ensures
        a.ordering(b) == Ordering::Equal <==> a.key() == b.key() && a.text_row == b.text_row,
        a.ordering(b) == Ordering::Less <==> b.ordering(a) == Ordering::Greater,
{
    if a.key() is Some && b.key() is Some {
        lemma_key_ordering_equal(a.key()->0, b.key()->0);
        lemma_key_ordering_reverse(a.key()->0, b.key()->0);
        lemma_key_ordering_reverse(b.key()->0, a.key()->0);
    }
}

/// The order of cursors is transitive.
pub proof fn lemma_cursor_order_transitive(a: MessageCursor, b: MessageCursor, c: MessageCursor)
    requires
        a.ordering(b) == Ordering::Less,
        b.ordering(c) == Ordering::Less,
    ensures
        a.ordering(c) == Ordering::Less,
{
    if a.key() is Some && b.key() is Some && c.key() is Some {
        let (x, y, z) = (a.key()->0, b.key()->0, c.key()->0);
        lemma_key_ordering_equal(x, y);
        lemma_key_ordering_equal(y, z);
        lemma_key_ordering_equal(x, z);
        lemma_key_ordering_reverse(x, y);
        lemma_key_ordering_reverse(y, z);
        if key_lt(x, y) && key_lt(y, z) {
            lemma_key_order_transitive(x, y, z);
        }
    }
}

/// The last of sorted keys is the greatest: no key sorts behind it.
pub proof fn lemma_last_is_greatest(keys: Seq<KeyView>)
    requires
        strictly_sorted(keys),
        keys.len() > 0,
    ensures
        forall|i: int| 0 <= i < keys.len() ==> key_le(#[trigger] keys[i], keys.last()),
{
    assert forall|i: int| 0 <= i < keys.len() implies key_le(#[trigger] keys[i], keys.last()) by {
        let n = keys.len() - 1;
        lemma_key_order_antisymmetric(keys[i], keys[n]);
        lemma_key_order_antisymmetric(keys[n], keys[i]);
        if i < n {
            assert(key_lt(keys[i], keys[n]));
        }
    }
}

/// A scan over keys that are not before the cursor's timestamp settles on
/// one of the keys or on what it remembered, and on nothing only where it
/// remembered nothing and no key is left.
proof fn lemma_scan_finds(
    keys: Seq<KeyView>,
    i: nat,
    ts: MessageTimeStamp,
    column: u64,
    fallback: Option<KeyView>,
)
    requires
        forall|j: int| i <= j < keys.len() ==> !(#[trigger] keys[j]).0.precedes(ts),
        fallback matches Some(f) ==> keys.contains(f) && !f.0.precedes(ts),
    ensures
        scan(keys, i, ts, column, fallback) matches Some(k) ==> keys.contains(k) && !k.0.precedes(
            ts,
        ),
        scan(keys, i, ts, column, fallback) is None <==> fallback is None && i >= keys.len(),
    decreases keys.len() - i,
{
    if i < keys.len() {
        assert(keys.contains(keys[i as int]));
        assert(!keys[i as int].0.precedes(ts));
        let visit = visit_key(keys[i as int], event_column(keys[i as int].1), ts, column, fallback);
        if !visit.1 {
            lemma_scan_finds(keys, i + 1, ts, column, visit.0);
        }
    }
}

/// What a cursor resolves to is a key of the collection whose timestamp is
/// not before the one of the cursor's row, and a cursor resolves to nothing
/// exactly when its row stands for no timestamp or every key is before it.
pub proof fn lemma_resolve_finds(keys: Seq<KeyView>, cursor: Cursor)
    requires
        strictly_sorted(keys),
    ensures
        resolve(keys, cursor) matches Some(k) ==> keys.contains(k) && !k.0.precedes(
            MessageTimeStamp::of_row(cursor.y as int),
        ),
        resolve(keys, cursor) is None <==> cursor.y > MAX_MILLIS || first_at(
            keys,
            MessageTimeStamp::of_row(cursor.y as int),
        ) == keys.len(),
{
    if cursor.y <= MAX_MILLIS {
        let ts = MessageTimeStamp::of_row(cursor.y as int);
        lemma_first_at(keys, ts);
        lemma_scan_finds(keys, first_at(keys, ts), ts, cursor.x as u64, None);
    }
}

/// A scan that passes only keys at the cursor's timestamp whose identifiers
/// do not hash to the column settles on the first key that does.
proof fn lemma_scan_reaches(
    keys: Seq<KeyView>,
    j: int,
    k: int,
    ts: MessageTimeStamp,
    column: u64,
    fallback: Option<KeyView>,
)
    requires
        0 <= j <= k < keys.len(),
        forall|i: int| j <= i < k ==> event_column((#[trigger] keys[i]).1) != column,
        forall|i: int| j <= i < k ==> !ts.precedes((#[trigger] keys[i]).0),
        event_column(keys[k].1) == column,
    ensures
        scan(keys, j as nat, ts, column, fallback) == Some(keys[k]),
    decreases k - j,
{
    if j < k {
        assert(event_column(keys[j].1) != column);
        assert(!ts.precedes(keys[j].0));
        let visit = visit_key(keys[j], event_column(keys[j].1), ts, column, fallback);
        lemma_scan_reaches(keys, j + 1, k, ts, column, visit.0);
    }
}

/// The cursor of a key of the collection resolves to that key. This holds
/// for a key that has a cursor, whose timestamp is pending or a confirmed
/// time from 1 to [`MAX_MILLIS`], and before which no key with the same
/// timestamp has an identifier with the same hash.
pub proof fn lemma_cursor_round_trip(keys: Seq<KeyView>, k: int)
    requires
        strictly_sorted(keys),
        0 <= k < keys.len(),
        cursor_of(keys[k]) is Some,
        keys[k].0 matches MessageTimeStamp::OriginServer(ms) ==> 0 < ms <= MAX_MILLIS,
        forall|i: int|
            0 <= i < k && (#[trigger] keys[i]).0 == keys[k].0 ==> event_column(keys[i].1)
                != event_column(keys[k].1),
    ensures
        resolve(keys, cursor_of(keys[k])->0) == Some(keys[k]),
{
    let key = keys[k];
    let ts = key.0;
    let cursor = cursor_of(key)->0;
    let column = event_column(key.1);
    assert(MessageTimeStamp::of_row(cursor.y as int) == ts);
    assert(cursor.x as u64 == column);
    lemma_first_at(keys, ts);
    lemma_precedes_total(ts, ts);
    let start = first_at(keys, ts) as int;
    assert(start <= k) by {
        if k < start {
            assert(keys[k].0.precedes(ts));
        }
    }
    assert forall|i: int| start <= i < k implies event_column((#[trigger] keys[i]).1)
        != column && !ts.precedes(keys[i].0) by {
        assert(key_lt(keys[i], keys[k]));
        lemma_key_lt_timestamps(keys[i], keys[k]);
        assert(!keys[i].0.precedes(ts));
    }
    lemma_scan_reaches(keys, start, k, ts, column, None);
}

} // verus!
