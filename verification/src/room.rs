//! The snapshot of a room that a render pass reads: its messages in key
//! order, who has read up to which event, and the reactions to each event.

use crate::key::str_same;
use crate::lookup::first_index;
use crate::lookup::lemma_first_index;
use crate::key::key_before;
use crate::key::key_lt;
use crate::key::key_same;
use crate::key::key_view;
use crate::key::lemma_key_order_antisymmetric;
use crate::key::lemma_key_order_total;
use crate::key::lemma_key_order_transitive;
use crate::key::KeyView;
use crate::key::MessageKey;
use crate::message::Message;
use crate::timestamp::MessageTimeStamp;
use vstd::prelude::*;

verus! {

/// No key occurs twice and each key sorts before those behind it.
pub open spec fn strictly_sorted(keys: Seq<KeyView>) -> bool {
    forall|i: int, j: int| 0 <= i < j < keys.len() ==> key_lt(#[trigger] keys[i], #[trigger] keys[j])
}

/// The keys of a sequence of entries.
pub open spec fn keys_of(entries: Seq<(MessageKey, Message)>) -> Seq<KeyView> {
    entries.map_values(|e: (MessageKey, Message)| key_view(e.0))
}

/// How many of the keys sort before `key`.
pub open spec fn rank(keys: Seq<KeyView>, key: KeyView) -> nat
    decreases keys.len(),
{
    if keys.len() == 0 {
        0
    } else if key_lt(keys.last(), key) {
        keys.len()
    } else {
        rank(keys.drop_last(), key)
    }
}

/// How many of the keys have a timestamp before `ts`.
pub open spec fn first_at(keys: Seq<KeyView>, ts: MessageTimeStamp) -> nat
    decreases keys.len(),
{
    if keys.len() == 0 {
        0
    } else if keys.last().0.precedes(ts) {
        keys.len()
    } else {
        first_at(keys.drop_last(), ts)
    }
}

/// In sorted keys, the rank of a key is where the keys before it end.
pub proof fn lemma_rank(keys: Seq<KeyView>, key: KeyView)
    requires
        strictly_sorted(keys),
    ensures
        rank(keys, key) <= keys.len(),
        forall|i: int| 0 <= i < rank(keys, key) ==> key_lt(#[trigger] keys[i], key),
        forall|i: int| rank(keys, key) <= i < keys.len() ==> !key_lt(#[trigger] keys[i], key),
    decreases keys.len(),
{
    if keys.len() > 0 {
        if key_lt(keys.last(), key) {
            assert forall|i: int| 0 <= i < keys.len() implies key_lt(#[trigger] keys[i], key) by {
                if i < keys.len() - 1 {
                    assert(key_lt(keys[i], keys[keys.len() - 1]));
                    lemma_key_order_transitive(keys[i], keys.last(), key);
                }
            }
        } else {
            let front = keys.drop_last();
            assert(strictly_sorted(front)) by {
                assert forall|i: int, j: int| 0 <= i < j < front.len() implies key_lt(
                    #[trigger] front[i],
                    #[trigger] front[j],
                ) by {
                    assert(key_lt(keys[i], keys[j]));
                }
            }
            lemma_rank(front, key);
            assert forall|i: int| 0 <= i < rank(keys, key) implies key_lt(
                #[trigger] keys[i],
                key,
            ) by {
                assert(keys[i] == front[i]);
            }
            assert forall|i: int| rank(keys, key) <= i < keys.len() implies !key_lt(
                #[trigger] keys[i],
                key,
            ) by {
                if i < front.len() {
                    assert(keys[i] == front[i]);
                }
            }
        }
    }
}

/// In sorted keys, the keys with a timestamp before `ts` come first.
pub proof fn lemma_first_at(keys: Seq<KeyView>, ts: MessageTimeStamp)
    requires
        strictly_sorted(keys),
    ensures
        first_at(keys, ts) <= keys.len(),
        forall|i: int| 0 <= i < first_at(keys, ts) ==> (#[trigger] keys[i]).0.precedes(ts),
        forall|i: int| first_at(keys, ts) <= i < keys.len() ==> !(#[trigger] keys[i]).0.precedes(ts),
    decreases keys.len(),
{
    if keys.len() > 0 {
        if keys.last().0.precedes(ts) {
            assert forall|i: int| 0 <= i < keys.len() implies (#[trigger] keys[i]).0.precedes(ts) by {
                if i < keys.len() - 1 {
                    assert(key_lt(keys[i], keys[keys.len() - 1]));
                }
            }
        } else {
            let front = keys.drop_last();
            assert(strictly_sorted(front)) by {
                assert forall|i: int, j: int| 0 <= i < j < front.len() implies key_lt(
                    #[trigger] front[i],
                    #[trigger] front[j],
                ) by {
                    assert(key_lt(keys[i], keys[j]));
                }
            }
            lemma_first_at(front, ts);
            assert forall|i: int| 0 <= i < first_at(keys, ts) implies (#[trigger] keys[i]).0.precedes(
                ts,
            ) by {
                assert(keys[i] == front[i]);
            }
            assert forall|i: int| first_at(keys, ts) <= i < keys.len() implies !(
            #[trigger] keys[i]).0.precedes(ts) by {
                if i < front.len() {
                    assert(keys[i] == front[i]);
                }
            }
        }
    }
}

/// In sorted keys, the rank of a key is the position behind a key that sorts
/// before it and in front of one that does not.
pub proof fn lemma_rank_at(keys: Seq<KeyView>, key: KeyView, i: int)
    requires
        strictly_sorted(keys),
        0 <= i <= keys.len(),
        i > 0 ==> key_lt(keys[i - 1], key),
        i < keys.len() ==> !key_lt(keys[i], key),
    ensures
        rank(keys, key) == i,
{
    lemma_rank(keys, key);
    let r = rank(keys, key) as int;
    if r < i {
        assert(!key_lt(keys[i - 1], key));
    } else if r > i {
        assert(key_lt(keys[i], key));
    }
}

/// In sorted keys, the keys with a timestamp before `ts` end behind one
/// that has such a timestamp and in front of one that has not.
pub proof fn lemma_first_at_is(keys: Seq<KeyView>, ts: MessageTimeStamp, i: int)
    requires
        strictly_sorted(keys),
        0 <= i <= keys.len(),
        i > 0 ==> keys[i - 1].0.precedes(ts),
        i < keys.len() ==> !keys[i].0.precedes(ts),
    ensures
        first_at(keys, ts) == i,
{
    lemma_first_at(keys, ts);
    let r = first_at(keys, ts) as int;
    if r < i {
        assert(!keys[i - 1].0.precedes(ts));
    } else if r > i {
        assert(keys[i].0.precedes(ts));
    }
}

/// The messages of a room, each under its key, in the order of the keys.
#[derive(Debug, PartialEq, Eq)]
pub struct Messages {
    entries: Vec<(MessageKey, Message)>,
}

impl View for Messages {
    type V = Seq<(MessageKey, Message)>;

    closed spec fn view(&self) -> Seq<(MessageKey, Message)> {
        self.entries@
    }
}

impl Messages {
    #[verifier::type_invariant]
    spec fn ordered(self) -> bool {
        strictly_sorted(keys_of(self.entries@))
    }

    /// The keys of the collection in ascending order.
    pub open spec fn keys(self) -> Seq<KeyView> {
        keys_of(self@)
    }

    /// A collection without messages.
    pub fn new() -> (r: Messages)
        ensures
            r@ == Seq::<(MessageKey, Message)>::empty(),
    {
        Messages { entries: Vec::new() }
    }

    /// The number of messages. The keys are in strictly ascending order.
    pub fn len(&self) -> (n: usize)
        ensures
            n == self@.len(),
            n == self.keys().len(),
            strictly_sorted(self.keys()),
    {
        proof {
            use_type_invariant(self);
        }
        self.entries.len()
    }

    /// Whether the collection has no messages.
    pub fn is_empty(&self) -> (r: bool)
        ensures
            r == (self@.len() == 0),
    {
        self.entries.len() == 0
    }

    /// The entry at position `i` of the key order.
    pub fn entry(&self, i: usize) -> (r: (&MessageKey, &Message))
        requires
            i < self@.len(),
        ensures
            *r.0 == self@[i as int].0,
            *r.1 == self@[i as int].1,
            key_view(*r.0) == self.keys()[i as int],
    {
        let e = &self.entries[i];
        (&e.0, &e.1)
    }

    /// The position at which `key` stands or would be put: the number of
    /// keys that sort before it.
    pub fn position(&self, key: &MessageKey) -> (i: usize)
        ensures
            i == rank(self.keys(), key_view(*key)),
            i <= self@.len(),
    {
        proof {
            use_type_invariant(self);
            lemma_rank(self.keys(), key_view(*key));
        }
        let ghost keys = self.keys();
        let ghost k = key_view(*key);
        let mut i: usize = self.entries.len();
        while i > 0
            invariant
                i <= self.entries@.len(),
                keys == keys_of(self.entries@),
                keys == self.keys(),
                k == key_view(*key),
                strictly_sorted(keys),
                forall|j: int| i <= j < keys.len() ==> !key_lt(#[trigger] keys[j], k),
            decreases i,
        {
            assert(keys[i - 1] == key_view(self.entries@[i - 1].0));
            if key_before(&self.entries[i - 1].0, key) {
                proof {
                    lemma_rank_at(keys, k, i as int);
                }
                return i;
            }
            i = i - 1;
        }
        proof {
            lemma_rank_at(keys, k, 0);
        }
        i
    }

    /// The position of the first key whose timestamp is not before `ts`.
    pub fn first_from(&self, ts: MessageTimeStamp) -> (i: usize)
        ensures
            i == first_at(self.keys(), ts),
            i <= self@.len(),
    {
        proof {
            use_type_invariant(self);
            lemma_first_at(self.keys(), ts);
        }
        let ghost keys = self.keys();
        let mut i: usize = self.entries.len();
        while i > 0
            invariant
                i <= self.entries@.len(),
                keys == keys_of(self.entries@),
                keys == self.keys(),
                strictly_sorted(keys),
                forall|j: int| i <= j < keys.len() ==> !(#[trigger] keys[j]).0.precedes(ts),
            decreases i,
        {
            assert(keys[i - 1] == key_view(self.entries@[i - 1].0));
            if self.entries[i - 1].0.0.before(&ts) {
                proof {
                    lemma_first_at_is(keys, ts, i as int);
                }
                return i;
            }
            i = i - 1;
        }
        proof {
            lemma_first_at_is(keys, ts, 0);
        }
        i
    }

    /// The message under `key`.
    pub fn get(&self, key: &MessageKey) -> (r: Option<&Message>)
        ensures
            match r {
                Some(m) => exists|i: int|
                    0 <= i < self@.len() && #[trigger] self.keys()[i] == key_view(*key) && *m
                        == self@[i].1,
                None => !self.keys().contains(key_view(*key)),
            },
    {
        proof {
            use_type_invariant(self);
            lemma_rank(self.keys(), key_view(*key));
        }
        let i = self.position(key);
        if i < self.entries.len() {
            assert(self.keys()[i as int] == key_view(self.entries@[i as int].0));
            if key_same(&self.entries[i].0, key) {
                return Some(&self.entries[i].1);
            }
        }
        proof {
            let keys = self.keys();
            let k = key_view(*key);
            if keys.contains(k) {
                let j = choose|j: int| 0 <= j < keys.len() && keys[j] == k;
                lemma_key_order_antisymmetric(k, k);
                if j < i {
                    assert(key_lt(keys[j], k));
                } else if j > i {
                    assert(key_lt(keys[i as int], keys[j]));
                }
            }
        }
        None
    }

    /// The greatest key and its message.
    pub fn last_key_value(&self) -> (r: Option<(&MessageKey, &Message)>)
        ensures
            self@.len() == 0 ==> r is None,
            self@.len() > 0 ==> (r matches Some(e) && *e.0 == self@.last().0 && *e.1
                == self@.last().1 && key_view(*e.0) == self.keys().last()),
    {
        let n = self.entries.len();
        if n == 0 {
            None
        } else {
            let e = &self.entries[n - 1];
            Some((&e.0, &e.1))
        }
    }

    /// Puts `msg` under `key`. Where the key is there already, the message
    /// takes the place of the one under it, which is handed back; the keys
    /// and their order stay as they are. Where it is not, the entry goes to
    /// the place that the order of the keys gives it.
    pub fn insert(&mut self, key: MessageKey, msg: Message) -> (r: Option<Message>)
        ensures
            old(self).keys().contains(key_view(key)) ==> r is Some && final(self).keys() == old(
                self,
            ).keys() && final(self)@ == old(self)@.update(
                rank(old(self).keys(), key_view(key)) as int,
                (key, msg),
            ) && r == Some(old(self)@[rank(old(self).keys(), key_view(key)) as int].1),
            !old(self).keys().contains(key_view(key)) ==> r is None && final(self)@ == old(
                self,
            )@.insert(rank(old(self).keys(), key_view(key)) as int, (key, msg)),
    {
        proof {
            use_type_invariant(&*self);
            lemma_rank(self.keys(), key_view(key));
        }
        let ghost keys = self.keys();
        let ghost k = key_view(key);
        let i = self.position(&key);
        let mut entries: Vec<(MessageKey, Message)> = Vec::new();
        std::mem::swap(&mut entries, &mut self.entries);
        assert(keys == keys_of(entries@));
        let mut found = false;
        if i < entries.len() {
            assert(keys[i as int] == key_view(entries@[i as int].0));
            found = key_same(&entries[i].0, &key);
        }
        proof {
            lemma_key_order_antisymmetric(k, k);
            if keys.contains(k) {
                let j = choose|j: int| 0 <= j < keys.len() && keys[j] == k;
                if j < i {
                    assert(key_lt(keys[j], k));
                } else if j > i {
                    assert(key_lt(keys[i as int], keys[j]));
                }
                assert(found);
            }
        }
        if found {
            let ghost before = entries@;
            let old_entry = entries.remove(i);
            entries.insert(i, (key, msg));
            assert(entries@ =~= before.update(i as int, (key, msg)));
            assert(keys_of(entries@) =~= keys);
            self.entries = entries;
            Some(old_entry.1)
        } else {
            let ghost before = entries@;
            entries.insert(i, (key, msg));
            proof {
                let after = keys_of(entries@);
                assert(after =~= keys.insert(i as int, k));
                assert forall|a: int, b: int| 0 <= a < b < after.len() implies key_lt(
                    #[trigger] after[a],
                    #[trigger] after[b],
                ) by {
                    if b < i {
                        assert(key_lt(keys[a], keys[b]));
                    } else if b == i {
                        assert(key_lt(keys[a], k));
                    } else if a == i {
                        assert(!key_lt(keys[b - 1], k));
                        assert(keys[b - 1] != k);
                        lemma_key_order_total(k, keys[b - 1]);
                        if b - 1 > i {
                            assert(key_lt(keys[i as int], keys[b - 1]));
                        }
                    } else if a > i {
                        assert(key_lt(keys[a - 1], keys[b - 1]));
                    } else {
                        assert(!key_lt(keys[b - 1], k));
                        assert(keys[b - 1] != k);
                        lemma_key_order_total(k, keys[b - 1]);
                        assert(key_lt(keys[a], k));
                        lemma_key_order_transitive(keys[a], k, keys[b - 1]);
                    }
                }
            }
            self.entries = entries;
            None
        }
    }
}

impl Default for Messages {
    fn default() -> (r: Messages)
        ensures
            r@ == Seq::<(MessageKey, Message)>::empty(),
    {
        Messages::new()
    }
}

/// A message with its event redacted for the given reason.
pub open spec fn redacted_message(msg: Message, reason: Option<String>) -> Message {
    Message { event: msg.event.redacted(reason), ..msg }
}

impl Messages {
    /// Applies a redaction to the message under `key` and says whether
    /// there is such a message. The message stays under its key at its
    /// place; every other message stays as it is.
    pub fn redact(&mut self, key: &MessageKey, reason: Option<String>) -> (r: bool)
        ensures
            r == old(self).keys().contains(key_view(*key)),
            final(self).keys() == old(self).keys(),
            r ==> final(self)@ == old(self)@.update(
                rank(old(self).keys(), key_view(*key)) as int,
                (
                    old(self)@[rank(old(self).keys(), key_view(*key)) as int].0,
                    redacted_message(
                        old(self)@[rank(old(self).keys(), key_view(*key)) as int].1,
                        reason,
                    ),
                ),
            ),
            !r ==> final(self)@ == old(self)@,
    {
        proof {
            use_type_invariant(&*self);
            lemma_rank(self.keys(), key_view(*key));
        }
        let ghost keys = self.keys();
        let ghost k = key_view(*key);
        let i = self.position(key);
        let mut found = false;
        if i < self.entries.len() {
            assert(keys[i as int] == key_view(self.entries@[i as int].0));
            found = key_same(&self.entries[i].0, key);
        }
        proof {
            lemma_key_order_antisymmetric(k, k);
            if keys.contains(k) {
                let j = choose|j: int| 0 <= j < keys.len() && keys[j] == k;
                if j < i {
                    assert(key_lt(keys[j], k));
                } else if j > i {
                    assert(key_lt(keys[i as int], keys[j]));
                }
                assert(found);
            }
        }
        if found {
            let mut entries: Vec<(MessageKey, Message)> = Vec::new();
            std::mem::swap(&mut entries, &mut self.entries);
            let ghost before = entries@;
            let (entry_key, mut msg) = entries.remove(i);
            msg.event.redact(reason);
            entries.insert(i, (entry_key, msg));
            assert(entries@ =~= before.update(
                i as int,
                (before[i as int].0, redacted_message(before[i as int].1, reason)),
            ));
            assert(keys_of(entries@) =~= keys);
            self.entries = entries;
        }
        found
    }
}

/// The identifiers of the events of a sequence of entries.
pub open spec fn event_ids(entries: Seq<(MessageKey, Message)>) -> Seq<Seq<char>> {
    entries.map_values(|e: (MessageKey, Message)| e.0.1@)
}

/// The identifiers under which a list holds its values.
pub open spec fn listed_ids<T>(list: Seq<(String, T)>) -> Seq<Seq<char>> {
    list.map_values(|e: (String, T)| e.0@)
}

/// The value that a list holds under `id`: the first one, if there is any.
pub open spec fn listed<T>(list: Seq<(String, T)>, id: Seq<char>) -> Option<T> {
    let i = first_index(listed_ids(list), id);
    if i < list.len() {
        Some(list[i as int].1)
    } else {
        None
    }
}

/// Looks up the value that a list holds under `id`.
pub fn find_listed<'a, T>(list: &'a Vec<(String, T)>, id: &str) -> (r: Option<&'a T>)
    ensures
        r matches Some(v) ==> listed(list@, id@) == Some(*v),
        r is None ==> listed(list@, id@) is None,
{
    let ghost ids = listed_ids(list@);
    let mut i: usize = 0;
    while i < list.len()
        invariant
            i <= list@.len(),
            ids == listed_ids(list@),
            forall|j: int| 0 <= j < i ==> #[trigger] ids[j] != id@,
        decreases list@.len() - i,
    {
        assert(ids[i as int] == list@[i as int].0@);
        if str_same(list[i].0.as_str(), id) {
            proof {
                lemma_first_index(ids, id@, i as int);
            }
            return Some(&list[i].1);
        }
        i = i + 1;
    }
    proof {
        lemma_first_index(ids, id@, i as int);
    }
    None
}

/// What a render pass reads of a room.
#[derive(Debug, PartialEq, Eq)]
pub struct RoomInfo {
    /// The messages of the room.
    pub messages: Messages,
    /// For an event, the users who have read up to it, the latest reader
    /// first.
    pub receipts: Vec<(String, Vec<String>)>,
    /// For an event, the reactions to it: each kind of reaction with the
    /// number of times it was given.
    pub reactions: Vec<(String, Vec<(String, usize)>)>,
}

impl RoomInfo {
    /// The message of the event `id`, where the room has it.
    pub open spec fn event_of(self, id: Seq<char>) -> Option<Message> {
        let i = first_index(event_ids(self.messages@), id);
        if i < self.messages@.len() {
            Some(self.messages@[i as int].1)
        } else {
            None
        }
    }

    /// The users who have read up to the event `id`.
    pub open spec fn receipts_of(self, id: Seq<char>) -> Seq<String> {
        match listed(self.receipts@, id) {
            Some(users) => users@,
            None => Seq::empty(),
        }
    }

    /// The reactions to the event `id`.
    pub open spec fn reactions_of(self, id: Seq<char>) -> Seq<(String, usize)> {
        match listed(self.reactions@, id) {
            Some(reactions) => reactions@,
            None => Seq::empty(),
        }
    }

    /// A room without messages.
    pub fn new() -> (r: RoomInfo)
        ensures
            r.messages@.len() == 0,
            r.receipts@.len() == 0,
            r.reactions@.len() == 0,
    {
        RoomInfo { messages: Messages::new(), receipts: Vec::new(), reactions: Vec::new() }
    }

    /// Looks up the message of an event.
    pub fn get_event(&self, event_id: &str) -> (r: Option<&Message>)
        ensures
            r matches Some(m) ==> self.event_of(event_id@) == Some(*m),
            r is None ==> self.event_of(event_id@) is None,
    {
        let ghost ids = event_ids(self.messages@);
        let n = self.messages.len();
        let mut i: usize = 0;
        while i < n
            invariant
                i <= n,
                n == self.messages@.len(),
                ids == event_ids(self.messages@),
                forall|j: int| 0 <= j < i ==> #[trigger] ids[j] != event_id@,
            decreases n - i,
        {
            let (key, msg) = self.messages.entry(i);
            assert(ids[i as int] == self.messages@[i as int].0.1@);
            if str_same(key.1.as_str(), event_id) {
                proof {
                    lemma_first_index(ids, event_id@, i as int);
                }
                return Some(msg);
            }
            i = i + 1;
        }
        proof {
            lemma_first_index(ids, event_id@, i as int);
        }
        None
    }
}

impl Default for RoomInfo {
    fn default() -> (r: RoomInfo)
        ensures
            r.messages@.len() == 0,
            r.receipts@.len() == 0,
            r.reactions@.len() == 0,
    {
        RoomInfo::new()
    }
}

} // verus!
