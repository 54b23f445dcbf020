//! Message keys: a timestamp and an event identifier, ordered by the
//! timestamp first and by the identifier where the timestamps are equal.

use crate::timestamp::MessageTimeStamp;
use crate::timestamp::lemma_timestamp_order_total;
use crate::timestamp::lemma_timestamp_order_transitive;
use std::cmp::Ordering;
use vstd::prelude::*;

verus! {

/// A timestamp and an event identifier. Event identifiers are unique, so a
/// key names one message.
pub type MessageKey = (MessageTimeStamp, String);

/// What a key is in contracts: its timestamp and the characters of its
/// identifier.
pub type KeyView = (MessageTimeStamp, Seq<char>);

/// The view of a key.
pub open spec fn key_view(key: MessageKey) -> KeyView {
    (key.0, key.1@)
}

/// The code point of a character.
pub open spec fn code_point(c: char) -> u32 {
    c as u32
}

/// The lexicographic order of two strings by the code points of their
/// characters; a proper prefix sorts before the longer string.
pub open spec fn str_ordering(a: Seq<char>, b: Seq<char>) -> Ordering
    decreases a.len(),
{
    if a.len() == 0 {
        if b.len() == 0 {
            Ordering::Equal
        } else {
            Ordering::Less
        }
    } else if b.len() == 0 {
        Ordering::Greater
    } else if code_point(a[0]) < code_point(b[0]) {
        Ordering::Less
    } else if code_point(a[0]) > code_point(b[0]) {
        Ordering::Greater
    } else {
        str_ordering(a.drop_first(), b.drop_first())
    }
}

/// The order of two keys: by timestamp, then by identifier.
pub open spec fn key_ordering(a: KeyView, b: KeyView) -> Ordering {
    match a.0.ordering(b.0) {
        Ordering::Less => Ordering::Less,
        Ordering::Greater => Ordering::Greater,
        Ordering::Equal => str_ordering(a.1, b.1),
    }
}

/// `a` sorts strictly before `b`.
pub open spec fn key_lt(a: KeyView, b: KeyView) -> bool {
    key_ordering(a, b) == Ordering::Less
}

/// `a` sorts before `b` or is `b`.
pub open spec fn key_le(a: KeyView, b: KeyView) -> bool {
    key_ordering(a, b) != Ordering::Greater
}

/// Calls `str::cmp` of std. The contract is what std documents of it:
/// strings are ordered lexicographically by their bytes, which orders them
/// by the code points of their characters.
#[verifier::external_body]
pub(crate) fn compare_str(a: &str, b: &str) -> (r: Ordering)
    ensures
        r == str_ordering(a@, b@),
{
    a.cmp(b)
}

/// Compares two keys.
pub fn key_cmp(a: &MessageKey, b: &MessageKey) -> (r: Ordering)
    ensures
        r == key_ordering(key_view(*a), key_view(*b)),
{
    match a.0.cmp(&b.0) {
        Ordering::Less => Ordering::Less,
        Ordering::Greater => Ordering::Greater,
        Ordering::Equal => compare_str(a.1.as_str(), b.1.as_str()),
    }
}

/// Whether two strings have the same characters.
pub fn str_same(a: &str, b: &str) -> (r: bool)
    ensures
        r == (a@ == b@),
{
    proof {
        lemma_str_ordering_equal(a@, b@);
    }
    match compare_str(a, b) {
        Ordering::Equal => true,
        _ => false,
    }
}

/// Whether `a` sorts strictly before `b`.
pub fn key_before(a: &MessageKey, b: &MessageKey) -> (r: bool)
    ensures
        r == key_lt(key_view(*a), key_view(*b)),
{
    match key_cmp(a, b) {
        Ordering::Less => true,
        _ => false,
    }
}

/// Whether `a` and `b` are one key.
pub fn key_same(a: &MessageKey, b: &MessageKey) -> (r: bool)
    ensures
        r == (key_view(*a) == key_view(*b)),
{
    proof {
        lemma_key_ordering_equal(key_view(*a), key_view(*b));
    }
    match key_cmp(a, b) {
        Ordering::Equal => true,
        _ => false,
    }
}

/// Two characters with one code point are one character.
proof fn lemma_code_point_injective(c: char, d: char)
    requires
        code_point(c) == code_point(d),
    ensures
        c == d,
{
    vstd::utf8::char_u32_cast(c, c as u32);
    vstd::utf8::char_u32_cast(d, d as u32);
}

/// Two strings compare as equal exactly when they are the same string.
pub proof fn lemma_str_ordering_equal(a: Seq<char>, b: Seq<char>)
    ensures
        str_ordering(a, b) == Ordering::Equal <==> a == b,
    decreases a.len(),
{
    if a.len() > 0 && b.len() > 0 {
        lemma_str_ordering_equal(a.drop_first(), b.drop_first());
        if a == b {
            assert(a[0] == b[0]);
        }
        if str_ordering(a, b) == Ordering::Equal {
            lemma_code_point_injective(a[0], b[0]);
            assert(a.drop_first() == b.drop_first());
            assert(a =~= seq![a[0]] + a.drop_first());
            assert(b =~= seq![b[0]] + b.drop_first());
        }
    } else if a.len() == 0 && b.len() == 0 {
        assert(a =~= b);
    }
}

/// Swapping the sides of a string comparison reverses its result.
pub proof fn lemma_str_ordering_reverse(a: Seq<char>, b: Seq<char>)
    ensures
        str_ordering(a, b) == Ordering::Less <==> str_ordering(b, a) == Ordering::Greater,
        str_ordering(a, b) == Ordering::Equal <==> str_ordering(b, a) == Ordering::Equal,
    decreases a.len(),
{
    if a.len() > 0 && b.len() > 0 {
        lemma_str_ordering_reverse(a.drop_first(), b.drop_first());
    }
}

/// The order of strings is transitive.
pub proof fn lemma_str_ordering_transitive(a: Seq<char>, b: Seq<char>, c: Seq<char>)
    requires
        str_ordering(a, b) == Ordering::Less,
        str_ordering(b, c) == Ordering::Less,
    ensures
        str_ordering(a, c) == Ordering::Less,
    decreases a.len(),
{
    if a.len() > 0 && b.len() > 0 && c.len() > 0 {
        if code_point(a[0]) == code_point(b[0]) && code_point(b[0]) == code_point(c[0]) {
            lemma_str_ordering_transitive(a.drop_first(), b.drop_first(), c.drop_first());
        }
    }
}

/// Two keys compare as equal exactly when they are the same key.
pub proof fn lemma_key_ordering_equal(a: KeyView, b: KeyView)
    ensures
        key_ordering(a, b) == Ordering::Equal <==> a == b,
{
    lemma_timestamp_order_total(a.0, b.0);
    lemma_str_ordering_equal(a.1, b.1);
}

/// Swapping the sides of a key comparison reverses its result.
pub proof fn lemma_key_ordering_reverse(a: KeyView, b: KeyView)
    ensures
        key_lt(a, b) <==> key_ordering(b, a) == Ordering::Greater,
        key_ordering(a, b) == Ordering::Equal <==> key_ordering(b, a) == Ordering::Equal,
{
    lemma_timestamp_order_total(a.0, b.0);
    lemma_timestamp_order_total(b.0, a.0);
    lemma_str_ordering_reverse(a.1, b.1);
    lemma_str_ordering_reverse(b.1, a.1);
}

/// The order of keys is antisymmetric: of two keys at most one sorts before
/// the other, no key sorts before itself, and two keys of which neither
/// sorts behind the other are one key.
pub proof fn lemma_key_order_antisymmetric(a: KeyView, b: KeyView)
    ensures
        !(key_lt(a, b) && key_lt(b, a)),
        !key_lt(a, a),
        key_le(a, b) && key_le(b, a) ==> a == b,
        key_le(a, b) <==> !key_lt(b, a),
{
    lemma_key_ordering_reverse(a, b);
    lemma_key_ordering_reverse(b, a);
    lemma_key_ordering_equal(a, b);
    lemma_key_ordering_equal(a, a);
}

/// A key that sorts before another has a timestamp that is not behind the
/// other's.
pub proof fn lemma_key_lt_timestamps(a: KeyView, b: KeyView)
    requires
        key_lt(a, b),
    ensures
        a.0.precedes(b.0) || a.0 == b.0,
        !b.0.precedes(a.0),
{
    lemma_timestamp_order_total(a.0, b.0);
}

/// The order of keys is total: of two different keys one sorts before the
/// other.
pub proof fn lemma_key_order_total(a: KeyView, b: KeyView)
    ensures
        key_lt(a, b) || a == b || key_lt(b, a),
{
    lemma_key_order_antisymmetric(a, b);
    lemma_key_order_antisymmetric(b, a);
    lemma_key_ordering_equal(a, b);
}

/// The order of keys is transitive.
pub proof fn lemma_key_order_transitive(a: KeyView, b: KeyView, c: KeyView)
    requires
        key_lt(a, b),
        key_lt(b, c),
    ensures
        key_lt(a, c),
{
    lemma_timestamp_order_total(a.0, b.0);
    lemma_timestamp_order_total(b.0, c.0);
    if a.0.precedes(b.0) && b.0.precedes(c.0) {
        lemma_timestamp_order_transitive(a.0, b.0, c.0);
    } else if a.0 == b.0 && b.0 == c.0 {
        lemma_str_ordering_transitive(a.1, b.1, c.1);
    }
}

} // verus!
