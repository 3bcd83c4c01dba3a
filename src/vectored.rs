//! Accounting for positioned scatter/gather I/O over a list of volatile buffers.
//!
//! The system call itself is made by the caller; what it reports is handed
//! back here, and this module decides whether the call is over and, for a
//! read, how the bytes it reported are spread over the buffers.
use vstd::prelude::*;

use crate::buf::{BufModel, FileVolatileBuf};

verus! {

/// The models of a list of buffers.
pub open spec fn views(bufs: Seq<FileVolatileBuf>) -> Seq<BufModel> {
    bufs.map_values(|b: FileVolatileBuf| b@)
}

pub open spec fn min_int(a: int, b: int) -> int {
    if a <= b {
        a
    } else {
        b
    }
}

/// Every buffer of the list keeps its valid length within its capacity.
pub open spec fn all_bounded(s: Seq<BufModel>) -> bool {
    forall|k: int| 0 <= k < s.len() ==> (#[trigger] s[k]).bounded()
}

/// Room left in the first `i` buffers of the list.
pub open spec fn room_before(s: Seq<BufModel>, i: int) -> int
    decreases i,
{
    if i <= 0 {
        0
    } else {
        room_before(s, i - 1) + s[i - 1].room()
    }
}

/// Of `count` bytes read, how many land in the first `i` buffers: the buffers
/// are filled in list order, each up to its capacity.
pub open spec fn filled_before(s: Seq<BufModel>, count: int, i: int) -> int {
    min_int(count, room_before(s, i))
}

/// The buffers after `count` bytes were read into them.
pub open spec fn read_fill(s: Seq<BufModel>, count: int) -> Seq<BufModel> {
    Seq::new(
        s.len(),
        |i: int|
            s[i].with_len(
                (s[i].len + filled_before(s, count, i + 1) - filled_before(s, count, i)) as nat,
            ),
    )
}

/// Bytes of `count` for which no buffer of the list had room.
pub open spec fn unfilled(s: Seq<BufModel>, count: int) -> int {
    count - filled_before(s, count, s.len() as int)
}

/// Sum of the valid lengths of the list.
pub open spec fn total_len(s: Seq<BufModel>) -> int
    decreases s.len(),
{
    if s.len() == 0 {
        0
    } else {
        total_len(s.drop_last()) + s.last().len
    }
}

/// Spread `count` freshly read bytes over `bufs` in list order: each buffer
/// grows by as much of what is left as it has room for. Returns the bytes that
/// found no room, which is zero whenever the list could hold `count`.
pub fn distribute_read(bufs: &mut Vec<FileVolatileBuf>, count: usize) -> (left: usize)
    ensures
        views(final(bufs)@) == read_fill(views(old(bufs)@), count as int),
        left == unfilled(views(old(bufs)@), count as int),
        all_bounded(views(old(bufs)@)),
        all_bounded(views(final(bufs)@)),
{
    let ghost s = views(bufs@);
    let mut remaining = count;
    let mut i: usize = 0;
    while i < bufs.len()
        invariant
            bufs@.len() == s.len(),
            0 <= i <= s.len(),
            forall|j: int| 0 <= j < i ==> (#[trigger] bufs@[j])@ == read_fill(s, count as int)[j],
            forall|j: int| i <= j < s.len() ==> (#[trigger] bufs@[j])@ == s[j],
            remaining == count - filled_before(s, count as int, i as int),
            forall|j: int| 0 <= j < i ==> (#[trigger] s[j]).bounded(),
        decreases s.len() - i,
    {
        let mut b = bufs[i];
        let room = b.room();
        proof {
            assert(room_before(s, i + 1) == room_before(s, i as int) + s[i as int].room());
        }
        let take = if remaining < room {
            remaining
        } else {
            room
        };
        b.grow(take);
        bufs.set(i, b);
        remaining = remaining - take;
        i = i + 1;
    }
    assert(views(bufs@) =~= read_fill(s, count as int));
    proof {
        lemma_read_stays_within_capacity(s, count as int);
    }
    remaining
}

/// What happens after one attempt of a vectored system call.
#[derive(Clone, Copy, Debug, PartialEq, Eq)]
pub enum Step {
    /// The call moved this many bytes; the operation is over.
    Complete(usize),
    /// A signal interrupted the call; it is made again, unchanged.
    Retry,
    /// The call failed; its error goes to the caller.
    Fail,
}

/// The decision for a call that returned `res` and, when `res` is negative,
/// failed with an error that is or is not a signal interruption.
pub open spec fn step_of(res: int, interrupted: bool) -> Step {
    if res >= 0 {
        Step::Complete(res as usize)
    } else if interrupted {
        Step::Retry
    } else {
        Step::Fail
    }
}

/// Decide what follows an attempt that returned `res`; `interrupted` tells
/// whether the error of a failed attempt was a signal interruption.
pub fn classify(res: isize, interrupted: bool) -> (s: Step)
    ensures
        s == step_of(res as int, interrupted),
{
    if res >= 0 {
        Step::Complete(res as usize)
    } else if interrupted {
        Step::Retry
    } else {
        Step::Fail
    }
}

/// The outcome of a run of attempts, each a returned value and whether its
/// error was an interruption: the first decision that is not a retry, if any.
pub open spec fn settle(attempts: Seq<(int, bool)>) -> Option<Step>
    decreases attempts.len(),
{
    if attempts.len() == 0 {
        None
    } else {
        let s = step_of(attempts[0].0, attempts[0].1);
        if s == Step::Retry {
            settle(attempts.drop_first())
        } else {
            Some(s)
        }
    }
}

/// With every buffer within its capacity, the room of a prefix only grows with
/// the prefix.
proof fn lemma_room_before_monotonic(s: Seq<BufModel>, a: int, b: int)
    requires
        all_bounded(s),
        0 <= a <= b <= s.len(),
    ensures
        0 <= room_before(s, a) <= room_before(s, b),
    decreases b,
{
    if b > a {
        lemma_room_before_monotonic(s, a, b - 1);
        assert(s[b - 1].bounded());
    } else if a > 0 {
        lemma_room_before_monotonic(s, 0, a - 1);
        assert(s[a - 1].bounded());
    }
}

proof fn lemma_total_len_of_prefix(s: Seq<BufModel>, count: int, i: int)
    requires
        0 <= count,
        0 <= i <= s.len(),
    ensures
        total_len(read_fill(s, count).take(i)) == total_len(s.take(i)) + filled_before(
            s,
            count,
            i,
        ),
    decreases i,
{
    let f = read_fill(s, count);
    if i > 0 {
        lemma_total_len_of_prefix(s, count, i - 1);
        assert(f.take(i).drop_last() =~= f.take(i - 1));
        assert(s.take(i).drop_last() =~= s.take(i - 1));
    }
}

/// A read is successful when every byte that the system reported found room.
/// Then the count was at most the room of the whole list, and the valid
/// lengths of the buffers grew by exactly that count in total.
pub proof fn lemma_read_accounts_for_every_byte(s: Seq<BufModel>, count: int)
    requires
        0 <= count,
        unfilled(s, count) == 0,
    ensures
        count <= room_before(s, s.len() as int),
        total_len(read_fill(s, count)) == total_len(s) + count,
{
    lemma_total_len_of_prefix(s, count, s.len() as int);
    assert(read_fill(s, count).take(s.len() as int) =~= read_fill(s, count));
    assert(s.take(s.len() as int) =~= s);
}

/// A read never takes a buffer past its capacity and never shrinks one.
pub proof fn lemma_read_stays_within_capacity(s: Seq<BufModel>, count: int)
    requires
        all_bounded(s),
    ensures
        all_bounded(read_fill(s, count)),
        forall|k: int|
            0 <= k < s.len() ==> s[k].len <= (#[trigger] read_fill(s, count)[k]).len,
{
    assert forall|k: int| 0 <= k < s.len() implies (#[trigger] read_fill(s, count)[k]).bounded()
        && s[k].len <= read_fill(s, count)[k].len by {
        assert(s[k].bounded());
        assert(room_before(s, k + 1) == room_before(s, k) + s[k].room());
    }
}

/// Buffers are filled in list order: once a buffer gains bytes from a read,
/// every buffer before it is full.
pub proof fn lemma_read_fills_in_order(s: Seq<BufModel>, count: int, i: int, j: int)
    requires
        all_bounded(s),
        0 <= i < j < s.len(),
        s[j].len < read_fill(s, count)[j].len,
    ensures
        read_fill(s, count)[i].len == s[i].cap,
{
    lemma_room_before_monotonic(s, i + 1, j);
    lemma_room_before_monotonic(s, i, i + 1);
    assert(s[j].bounded());
    assert(room_before(s, j + 1) == room_before(s, j) + s[j].room());
    assert(room_before(s, i + 1) == room_before(s, i) + s[i].room());
}

/// A read that reports no byte, as one at or past the end of the file does,
/// leaves every buffer as it was.
pub proof fn lemma_empty_read_changes_nothing(s: Seq<BufModel>)
    requires
        all_bounded(s),
    ensures
        read_fill(s, 0) == s,
        unfilled(s, 0) == 0,
{
    assert forall|k: int| 0 <= k < s.len() implies read_fill(s, 0)[k] == s[k] by {
        lemma_room_before_monotonic(s, k, k + 1);
    }
    lemma_room_before_monotonic(s, s.len() as int, s.len() as int);
    assert(read_fill(s, 0) =~= s);
}

/// Attempts interrupted by a signal are made again and leave no trace: in
/// front of any run of attempts, they do not change its outcome.
pub proof fn lemma_interruptions_are_retried(
    interruptions: Seq<(int, bool)>,
    rest: Seq<(int, bool)>,
)
    requires
        forall|k: int|
            0 <= k < interruptions.len() ==> (#[trigger] interruptions[k]).0 < 0
                && interruptions[k].1,
    ensures
        settle(interruptions + rest) == settle(rest),
    decreases interruptions.len(),
{
    if interruptions.len() == 0 {
        assert(interruptions + rest =~= rest);
    } else {
        assert(interruptions[0].0 < 0 && interruptions[0].1);
        assert((interruptions + rest).drop_first() =~= interruptions.drop_first() + rest);
        lemma_interruptions_are_retried(interruptions.drop_first(), rest);
    }
}

} // verus!
