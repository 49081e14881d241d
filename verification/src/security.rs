//! Replay protection and the handling of byte buffers that hold secrets.

use vstd::prelude::*;

verus! {

/// The width of the replay window, in sequence numbers.
pub const REPLAY_WINDOW_WIDTH: u64 = 128;

/// What a replay window knows: the highest sequence number it has accepted
/// and the accepted numbers that are still inside the window.
pub ghost struct ReplayModel {
    pub last: u64,
    pub seen: Set<u64>,
}

impl ReplayModel {
    /// The state before any sequence number was checked.
    pub open spec fn initial() -> ReplayModel {
        ReplayModel { last: 0, seen: Set::empty() }
    }

    /// `last - 128`, or zero where that would be negative.
    pub open spec fn floor(self) -> int {
        if self.last >= 128 {
            self.last - 128
        } else {
            0
        }
    }

    /// Too old to be tracked: at or below `last - 128`, saturating.
    pub open spec fn stale(self, n: u64) -> bool {
        n <= self.floor()
    }

    /// Whether `check(n)` accepts: `n` is neither stale nor seen before.
    pub open spec fn accepts(self, n: u64) -> bool {
        !self.stale(n) && !self.seen.contains(n)
    }

    /// The state after `check(n)`. A rejected number changes nothing. An
    /// accepted one is remembered, the highest number moves up to it if it
    /// is higher, and what falls out of the window is forgotten.
    pub open spec fn after_check(self, n: u64) -> ReplayModel {
        if self.accepts(n) {
            let last = if n > self.last {
                n
            } else {
                self.last
            };
            ReplayModel {
                last,
                seen: Set::new(|m: u64| (m == n || self.seen.contains(m)) && last - m < 128),
            }
        } else {
            self
        }
    }

    /// Every remembered number lies inside the window below `last`.
    pub open spec fn wf(self) -> bool {
        forall|m: u64| self.seen.contains(m) ==> m <= self.last && self.last - m < 128
    }

    /// The state after checking `numbers[0]`, ..., `numbers[count - 1]` in
    /// that order.
    pub open spec fn after_run(self, numbers: Seq<u64>, count: int) -> ReplayModel
        decreases count,
    {
        if count <= 0 || count > numbers.len() {
            self
        } else {
            self.after_run(numbers, count - 1).after_check(numbers[count - 1])
        }
    }

    /// Whether the `index`-th check of a run accepts its number.
    pub open spec fn accepted_at(self, numbers: Seq<u64>, index: int) -> bool {
        self.after_run(numbers, index).accepts(numbers[index])
    }
}

/// Checking the same sequence number twice in a row never accepts it the
/// second time; where the first check accepted it, the window holds it.
pub proof fn lemma_replay_idempotent(state: ReplayModel, n: u64)
    ensures
        !state.after_check(n).accepts(n),
        state.accepts(n) ==> state.after_check(n).seen.contains(n),
{
}

/// A number that is not more than 127 below the highest accepted one, is
/// above zero and was not seen is accepted, in whatever order the numbers
/// arrive; a number that is 128 or more below the highest is rejected.
pub proof fn lemma_replay_ordering_tolerance(state: ReplayModel, n: u64)
    ensures
        n > 0 && state.last - n < 128 && !state.seen.contains(n) ==> state.accepts(n),
        n + 128 <= state.last ==> !state.accepts(n),
{
}

/// A well-formed window stays well-formed.
pub proof fn lemma_replay_preserves_wf(state: ReplayModel, n: u64)
    requires
        state.wf(),
    ensures
        state.after_check(n).wf(),
        ReplayModel::initial().wf(),
{
}

/// A number that would be rejected now is rejected after any further check.
pub proof fn lemma_replay_rejection_is_stable(state: ReplayModel, n: u64, m: u64)
    requires
        !state.accepts(n),
    ensures
        !state.after_check(m).accepts(n),
        state.after_check(m).last >= state.last,
{
}

/// A number that is rejected at some point of a run is rejected at every
/// later point of it.
pub proof fn lemma_replay_rejection_persists(
    state: ReplayModel,
    numbers: Seq<u64>,
    from: int,
    to: int,
    n: u64,
)
    requires
        0 <= from <= to <= numbers.len(),
        !state.after_run(numbers, from).accepts(n),
    ensures
        !state.after_run(numbers, to).accepts(n),
    decreases to - from,
{
    if from < to {
        lemma_replay_rejection_persists(state, numbers, from, to - 1, n);
        lemma_replay_rejection_is_stable(state.after_run(numbers, to - 1), n, numbers[to - 1]);
    }
}

/// In any run of checks, from any state, a sequence number is accepted at
/// most once.
pub proof fn lemma_replay_accepts_at_most_once(
    state: ReplayModel,
    numbers: Seq<u64>,
    first: int,
    second: int,
)
    requires
        0 <= first < second < numbers.len(),
        numbers[first] == numbers[second],
    ensures
        !(state.accepted_at(numbers, first) && state.accepted_at(numbers, second)),
{
    let n = numbers[first];
    lemma_replay_idempotent(state.after_run(numbers, first), n);
    assert(state.after_run(numbers, first + 1) == state.after_run(numbers, first).after_check(n));
    lemma_replay_rejection_persists(state, numbers, first + 1, second, n);
}

/// Whether bit `index` of `bits` is set.
pub open spec fn bit_set(bits: u128, index: u128) -> bool {
    (bits >> index) & 1 == 1
}

/// A sliding bitmap over the last 128 sequence numbers. Bit `i` stands for
/// the number `last_nonce - i`.
pub struct ReplayWindow {
    window: u128,
    last_nonce: u64,
}

impl View for ReplayWindow {
    type V = ReplayModel;

    closed spec fn view(&self) -> ReplayModel {
        ReplayModel {
            last: self.last_nonce,
            seen: Set::new(
                |m: u64|
                    m <= self.last_nonce && self.last_nonce - m < 128 && bit_set(
                        self.window,
                        (self.last_nonce - m) as u128,
                    ),
            ),
        }
    }
}

proof fn lemma_bit_shifted(bits: u128, shift: u128, index: u128)
    requires
        shift < 128,
        index < 128,
    ensures
        bit_set(bits << shift, index) == (index >= shift && bit_set(
            bits,
            (index - shift) as u128,
        )),
{
    assert(((bits << shift) >> index) & 1 == 1 <==> (index >= shift && (bits >> ((index
        - shift) as u128)) & 1 == 1)) by (bit_vector)
        requires
            shift < 128,
            index < 128,
    ;
}

proof fn lemma_bit_marked(bits: u128, mark: u128, index: u128)
    requires
        mark < 128,
        index < 128,
    ensures
        bit_set(bits | (1u128 << mark), index) == (index == mark || bit_set(bits, index)),
        (bits & (1u128 << mark) != 0) == bit_set(bits, mark),
        !bit_set(0, index),
{
    assert(((bits | (1u128 << mark)) >> index) & 1 == 1 <==> (index == mark || (bits >> index) & 1
        == 1)) by (bit_vector)
        requires
            mark < 128,
            index < 128,
    ;
    assert((bits & (1u128 << mark) != 0) <==> ((bits >> mark) & 1 == 1)) by (bit_vector)
        requires
            mark < 128,
    ;
    assert((0u128 >> index) & 1 == 0) by (bit_vector);
}

impl ReplayWindow {
    /// An empty window: no number accepted yet.
    pub fn new() -> (window: Self)
        ensures
            window@ == ReplayModel::initial(),
            window@.wf(),
    {
        let window = Self { window: 0, last_nonce: 0 };
        proof {
            assert forall|m: u64| !(#[trigger] window@.seen.contains(m)) by {
                if m <= 0 {
                    lemma_bit_marked(0, 0, 0);
                }
            }
            assert(window@.seen =~= Set::<u64>::empty());
        }
        window
    }

    /// Admits or rejects one sequence number. A number at or below
    /// `last - 128` (saturating) is stale and rejected; a number above the
    /// highest seen moves the window up to it; a number whose bit is already
    /// set is a duplicate and rejected; otherwise its bit is set and it is
    /// accepted. A rejected number leaves the window as it was.
    pub fn check(&mut self, nonce: u64) -> (accepted: bool)
        ensures
            accepted == old(self)@.accepts(nonce),
            final(self)@ == old(self)@.after_check(nonce),
            old(self)@.wf() ==> final(self)@.wf(),
            !accepted ==> *final(self) == *old(self),
    {
        let ghost before = self@;
        let ghost old_bits = self.window;
        let ghost old_last = self.last_nonce;
        let floor: u64 = if self.last_nonce >= REPLAY_WINDOW_WIDTH {
            self.last_nonce - REPLAY_WINDOW_WIDTH
        } else {
            0
        };
        if nonce <= floor {
            return false;
        }
        if nonce > self.last_nonce {
            let diff: u64 = nonce - self.last_nonce;
            if diff < REPLAY_WINDOW_WIDTH {
                self.window = self.window << diff;
            } else {
                self.window = 0;
            }
            self.last_nonce = nonce;
        }
        let ghost mid_bits = self.window;
        let offset: u64 = self.last_nonce - nonce;
        let bit: u64 = offset & 127;
        assert(bit == offset) by (bit_vector)
            requires
                bit == offset & 127,
                offset < 128,
        ;
        let mask: u128 = 1u128 << bit;
        proof {
            lemma_bit_marked(mid_bits, bit as u128, bit as u128);
            if nonce > old_last {
                if nonce - old_last < 128 {
                    lemma_bit_shifted(old_bits, (nonce - old_last) as u128, 0);
                }
            }
        }
        if (self.window & mask) != 0 {
            return false;
        }
        self.window = self.window | mask;
        proof {
            let after = before.after_check(nonce);
            let last = self.last_nonce;
            assert forall|m: u64| self@.seen.contains(m) == after.seen.contains(m) by {
                if m <= last && last - m < 128 {
                    let index = (last - m) as u128;
                    lemma_bit_marked(mid_bits, bit as u128, index);
                    if nonce > old_last {
                        if nonce - old_last < 128 {
                            lemma_bit_shifted(old_bits, (nonce - old_last) as u128, index);
                        } else {
                            lemma_bit_marked(0, 0, index);
                        }
                    }
                }
            }
            assert(self@.seen =~= after.seen);
            if before.wf() {
                lemma_replay_preserves_wf(before, nonce);
            }
        }
        true
    }

    /// The highest sequence number accepted so far, zero before the first.
    pub fn last_sequence(&self) -> (last: u64)
        ensures
            last == self@.last,
    {
        self.last_nonce
    }
}

/// Compares two byte strings in time that depends on their length alone.
pub fn constant_time_eq(a: &[u8], b: &[u8]) -> (equal: bool)
    ensures
        equal == (a@ == b@),
{
    if a.len() != b.len() {
        return false;
    }
    let mut result: u8 = 0;
    let mut i: usize = 0;
    assert(a@.subrange(0, 0) =~= b@.subrange(0, 0));
    while i < a.len()
        invariant
            a@.len() == b@.len(),
            i <= a@.len(),
            (result == 0) == (a@.subrange(0, i as int) == b@.subrange(0, i as int)),
        decreases a@.len() - i,
    {
        let x = a[i];
        let y = b[i];
        let ghost previous = result;
        result = result | (x ^ y);
        proof {
            assert((previous | (x ^ y)) == 0 <==> (previous == 0 && x == y)) by (bit_vector);
            let a0 = a@.subrange(0, i as int);
            let b0 = b@.subrange(0, i as int);
            let a1 = a@.subrange(0, i + 1);
            let b1 = b@.subrange(0, i + 1);
            assert(a1 =~= a0.push(x));
            assert(b1 =~= b0.push(y));
            if a1 == b1 {
                assert(a1.drop_last() =~= a0);
                assert(b1.drop_last() =~= b0);
                assert(a1.last() == x);
                assert(b1.last() == y);
            }
        }
        i += 1;
    }
    assert(a@.subrange(0, i as int) =~= a@);
    assert(b@.subrange(0, i as int) =~= b@);
    result == 0
}

/// As many zero bytes as `len` says.
pub open spec fn zeros(len: nat) -> Seq<u8> {
    Seq::new(len, |i: int| 0u8)
}

/// Calls `zeroize::Zeroize::zeroize` on the bytes of a vector as a slice,
/// which overwrites every element in place with a volatile write of zero
/// and leaves the length alone. The contract states just that: the vector
/// is as long as before, and every byte of it is zero. The call does not
/// panic: it gives up only on a slice of more bytes than a vector can hold.
#[verifier::external_body]
pub(crate) fn zero_fill(data: &mut Vec<u8>)
    ensures
        final(data)@ == zeros(old(data)@.len()),
    opens_invariants none
    no_unwind
{
    zeroize::Zeroize::zeroize(data.as_mut_slice())
}

/// Calls `zeroize::Zeroize::zeroize` on the vector itself, which overwrites
/// the elements and the spare capacity with zeros and then clears the
/// vector. The contract states the effect that can be observed: the vector
/// is empty afterwards. The call does not panic: it gives up only on a
/// capacity of more bytes than a vector can have.
#[verifier::external_body]
pub(crate) fn wipe(data: &mut Vec<u8>)
    ensures
        final(data)@.len() == 0,
    opens_invariants none
    no_unwind
{
    zeroize::Zeroize::zeroize(data)
}

/// A byte buffer that is overwritten with zeros when it is dropped.
pub struct SecureBuffer {
    data: Vec<u8>,
}

impl View for SecureBuffer {
    type V = Seq<u8>;

    closed spec fn view(&self) -> Seq<u8> {
        self.data@
    }
}

impl SecureBuffer {
    pub fn new(data: Vec<u8>) -> (buffer: Self)
        ensures
            buffer@ == data@,
    {
        Self { data }
    }

    pub fn as_slice(&self) -> (bytes: &[u8])
        ensures
            bytes@ == self@,
    {
        self.data.as_slice()
    }

    /// Overwrites the bytes with zeros, in place: the buffer is as long as
    /// before, and nothing of what it held can be read from it.
    pub fn zeroize(&mut self)
        ensures
            final(self)@ == zeros(old(self)@.len()),
    {
        zero_fill(&mut self.data);
    }
}

impl Drop for SecureBuffer {
    /// Before the memory is released, every byte of the buffer is
    /// overwritten with zero; then the spare capacity is overwritten too,
    /// and the buffer is emptied.
    fn drop(&mut self)
        ensures
            final(self)@.len() == 0,
        opens_invariants none
        no_unwind
    {
        zero_fill(&mut self.data);
        assert(self@ == zeros(old(self)@.len()));
        wipe(&mut self.data);
    }
}

} // verus!
