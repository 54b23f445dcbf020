//! Message timestamps, their total order, and their integer form.

use std::cmp::Ordering;
use vstd::prelude::*;
use vstd::std_specs::cmp::PartialOrdSpecImpl;
use vstd::std_specs::convert::FromSpecImpl;

verus! {

/// Largest millisecond count that converts from an integer into a confirmed
/// timestamp: 2^53 - 1, the widest integer the wire format carries exactly.
pub const MAX_MILLIS: u64 = 0x1F_FFFF_FFFF_FFFF;

/// Why an integer could not be turned into a timestamp, or a timestamp into
/// an integer.
#[derive(Clone, Copy, Debug, PartialEq, Eq, Structural)]
pub enum TimeStampIntError {
    /// The value does not fit the integer type that was asked for.
    IntError,
    /// The value is larger than [`MAX_MILLIS`].
    UIntError,
}

/// When a message was sent: a time that the server confirmed, in
/// milliseconds since the epoch, or the mark of a message that was sent from
/// here and has not been acknowledged yet.
///
/// The derived `Ord` orders the variants as they are declared and confirmed
/// times by their number, which is the order that [`MessageTimeStamp::cmp`]
/// computes.
#[derive(Clone, Copy, Debug, PartialEq, Eq, Structural, Ord)]
pub enum MessageTimeStamp {
    OriginServer(u64),
    LocalEcho,
}

impl MessageTimeStamp {
    /// The order of two timestamps: confirmed times by their number, every
    /// confirmed time before a pending one, pending ones equal.
    pub open spec fn ordering(self, other: Self) -> Ordering {
        match (self, other) {
            (MessageTimeStamp::OriginServer(a), MessageTimeStamp::OriginServer(b)) => {
                if a < b {
                    Ordering::Less
                } else if a == b {
                    Ordering::Equal
                } else {
                    Ordering::Greater
                }
            },
            (MessageTimeStamp::OriginServer(_), MessageTimeStamp::LocalEcho) => Ordering::Less,
            (MessageTimeStamp::LocalEcho, MessageTimeStamp::OriginServer(_)) => Ordering::Greater,
            (MessageTimeStamp::LocalEcho, MessageTimeStamp::LocalEcho) => Ordering::Equal,
        }
    }

    /// `self` sorts strictly before `other`.
    pub open spec fn precedes(self, other: Self) -> bool {
        self.ordering(other) == Ordering::Less
    }

    /// The row that stands for this timestamp: 0 for a pending one, the
    /// millisecond count for a confirmed one.
    pub open spec fn row(self) -> int {
        match self {
            MessageTimeStamp::LocalEcho => 0,
            MessageTimeStamp::OriginServer(ms) => ms as int,
        }
    }

    /// The timestamp that a row stands for.
    pub open spec fn of_row(row: int) -> Self {
        if row == 0 {
            MessageTimeStamp::LocalEcho
        } else {
            MessageTimeStamp::OriginServer(row as u64)
        }
    }

    /// Whether the timestamp is a pending one.
    pub fn is_local_echo(&self) -> (r: bool)
        ensures
            r == (*self is LocalEcho),
    {
        match self {
            MessageTimeStamp::LocalEcho => true,
            MessageTimeStamp::OriginServer(_) => false,
        }
    }

    /// The confirmed time in milliseconds, if there is one.
    pub fn as_millis(&self) -> (r: Option<u64>)
        ensures
            r == match *self {
                MessageTimeStamp::OriginServer(ms) => Some(ms),
                MessageTimeStamp::LocalEcho => None,
            },
    {
        match self {
            MessageTimeStamp::OriginServer(ms) => Some(*ms),
            MessageTimeStamp::LocalEcho => None,
        }
    }

    /// Compares two timestamps.
    pub fn cmp(&self, other: &Self) -> (r: Ordering)
        ensures
            r == self.ordering(*other),
    {
        match (self, other) {
            (MessageTimeStamp::OriginServer(_), MessageTimeStamp::LocalEcho) => Ordering::Less,
            (MessageTimeStamp::OriginServer(a), MessageTimeStamp::OriginServer(b)) => {
                if *a < *b {
                    Ordering::Less
                } else if *a == *b {
                    Ordering::Equal
                } else {
                    Ordering::Greater
                }
            },
            (MessageTimeStamp::LocalEcho, MessageTimeStamp::OriginServer(_)) => Ordering::Greater,
            (MessageTimeStamp::LocalEcho, MessageTimeStamp::LocalEcho) => Ordering::Equal,
        }
    }

    /// Whether this timestamp sorts strictly before `other`.
    pub fn before(&self, other: &Self) -> (r: bool)
        ensures
            r == self.precedes(*other),
    {
        match MessageTimeStamp::cmp(self, other) {
            Ordering::Less => true,
            _ => false,
        }
    }

    /// The row of this timestamp as a `usize`, or `IntError` where the
    /// millisecond count does not fit one.
    pub fn to_usize(&self) -> (r: Result<usize, TimeStampIntError>)
        ensures
            self.row() <= usize::MAX ==> r == Ok::<usize, TimeStampIntError>(self.row() as usize),
            self.row() > usize::MAX ==> r == Err::<usize, TimeStampIntError>(
                TimeStampIntError::IntError,
            ),
    {
        match self {
            MessageTimeStamp::LocalEcho => Ok(0),
            MessageTimeStamp::OriginServer(ms) => {
                if *ms <= usize::MAX as u64 {
                    Ok(*ms as usize)
                } else {
                    Err(TimeStampIntError::IntError)
                }
            },
        }
    }

    /// The timestamp that the row `u` stands for: pending for 0, else the
    /// confirmed time of `u` milliseconds, or `UIntError` where `u` is larger
    /// than [`MAX_MILLIS`].
    pub fn from_usize(u: usize) -> (r: Result<Self, TimeStampIntError>)
        ensures
            u <= MAX_MILLIS ==> r == Ok::<Self, TimeStampIntError>(Self::of_row(u as int)),
            u > MAX_MILLIS ==> r == Err::<Self, TimeStampIntError>(TimeStampIntError::UIntError),
    {
        if u == 0 {
            Ok(MessageTimeStamp::LocalEcho)
        } else {
            let n: u64 = u as u64;
            if n > MAX_MILLIS {
                Err(TimeStampIntError::UIntError)
            } else {
                Ok(MessageTimeStamp::OriginServer(n))
            }
        }
    }
}

impl PartialOrd for MessageTimeStamp {
    fn partial_cmp(&self, other: &Self) -> (r: Option<Ordering>) {
        Some(MessageTimeStamp::cmp(self, other))
    }
}

impl PartialOrdSpecImpl for MessageTimeStamp {
    open spec fn obeys_partial_cmp_spec() -> bool {
        true
    }

    open spec fn partial_cmp_spec(&self, other: &Self) -> Option<Ordering> {
        Some(self.ordering(*other))
    }
}

impl From<u64> for MessageTimeStamp {
    fn from(millis: u64) -> (r: Self) {
        MessageTimeStamp::OriginServer(millis)
    }
}

impl FromSpecImpl<u64> for MessageTimeStamp {
    open spec fn obeys_from_spec() -> bool {
        true
    }

    open spec fn from_spec(millis: u64) -> Self {
        MessageTimeStamp::OriginServer(millis)
    }
}

/// Every confirmed time sorts before a pending one, and no pending one sorts
/// before a confirmed time.
pub proof fn lemma_confirmed_before_pending(a: u64)
    ensures
        MessageTimeStamp::OriginServer(a).precedes(MessageTimeStamp::LocalEcho),
        !MessageTimeStamp::LocalEcho.precedes(MessageTimeStamp::OriginServer(a)),
        MessageTimeStamp::OriginServer(a).ordering(MessageTimeStamp::LocalEcho) == Ordering::Less,
        MessageTimeStamp::LocalEcho.ordering(MessageTimeStamp::OriginServer(a))
            == Ordering::Greater,
{
}

/// Two pending timestamps compare as equal.
pub proof fn lemma_pending_equal(p: MessageTimeStamp, q: MessageTimeStamp)
    requires
        p is LocalEcho,
        q is LocalEcho,
    ensures
        p.ordering(q) == Ordering::Equal,
        p == q,
{
}

/// Two confirmed timestamps compare as their millisecond counts do.
pub proof fn lemma_confirmed_by_number(a: u64, b: u64)
    ensures
        MessageTimeStamp::OriginServer(a).precedes(MessageTimeStamp::OriginServer(b)) <==> a < b,
        MessageTimeStamp::OriginServer(a).ordering(MessageTimeStamp::OriginServer(b))
            == Ordering::Equal <==> a == b,
{
}

/// The order of timestamps is total: two timestamps compare as equal exactly
/// when they are the same, and swapping the sides reverses the result.
pub proof fn lemma_timestamp_order_total(a: MessageTimeStamp, b: MessageTimeStamp)
    ensures
        a.ordering(b) == Ordering::Equal <==> a == b,
        a.precedes(b) <==> b.ordering(a) == Ordering::Greater,
        a.precedes(b) || a == b || b.precedes(a),
        !(a.precedes(b) && b.precedes(a)),
{
}

/// Of two different timestamps exactly one sorts before the other, and no
/// timestamp sorts before itself.
pub proof fn lemma_precedes_total(a: MessageTimeStamp, b: MessageTimeStamp)
    ensures
        a.precedes(b) || a == b || b.precedes(a),
        !(a.precedes(b) && b.precedes(a)),
        !a.precedes(a),
{
}

/// The order of timestamps is transitive.
pub proof fn lemma_timestamp_order_transitive(
    a: MessageTimeStamp,
    b: MessageTimeStamp,
    c: MessageTimeStamp,
)
    requires
        a.precedes(b),
        b.precedes(c),
    ensures
        a.precedes(c),
{
}

/// A timestamp that has a row and is neither the confirmed time 0 nor larger
/// than [`MAX_MILLIS`] is the timestamp of its row.
pub proof fn lemma_row_round_trip(ts: MessageTimeStamp)
    requires
        ts matches MessageTimeStamp::OriginServer(ms) ==> 0 < ms <= MAX_MILLIS,
    ensures
        MessageTimeStamp::of_row(ts.row()) == ts,
{
}

} // verus!
