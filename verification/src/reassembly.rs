//! Putting a blob together from chunks that arrive in any order.

use crate::chunks::joined;
use crate::text::append_bytes;
use vstd::prelude::*;

verus! {

/// What accepting a chunk led to.
pub enum ChunkOutcome {
    /// The chunk is stored; slots are still empty.
    Stored,
    /// Every slot is filled: the blob, the slots joined in index order.
    Complete(Vec<u8>),
    /// There is no slot with the chunk's index; the chunk is dropped.
    OutOfRange,
}

/// Every slot holds a payload that is not empty.
pub open spec fn complete(slots: Seq<Seq<u8>>) -> bool {
    forall|i: int| 0 <= i < slots.len() ==> (#[trigger] slots[i]).len() > 0
}

/// The slots that a chunk meets: `total` empty ones where it has index 0,
/// else those that are there.
pub open spec fn slots_met(slots: Seq<Seq<u8>>, index: u32, total: u32) -> Seq<Seq<u8>> {
    if index == 0 {
        Seq::new(total as nat, |i: int| Seq::<u8>::empty())
    } else {
        slots
    }
}

/// The slots after a chunk was accepted.
pub open spec fn slots_after(slots: Seq<Seq<u8>>, index: u32, total: u32, payload: Seq<u8>) -> Seq<
    Seq<u8>,
> {
    let met = slots_met(slots, index, total);
    if index >= met.len() {
        met
    } else if complete(met.update(index as int, payload)) {
        Seq::empty()
    } else {
        met.update(index as int, payload)
    }
}

/// The blob that accepting a chunk completes, if it completes one.
pub open spec fn blob_after(slots: Seq<Seq<u8>>, index: u32, total: u32, payload: Seq<u8>)
    -> Option<Seq<u8>> {
    let met = slots_met(slots, index, total);
    if index < met.len() && complete(met.update(index as int, payload)) {
        Some(joined(met.update(index as int, payload)))
    } else {
        None
    }
}

/// The chunks of one channel that have arrived and wait for the rest.
pub struct ChunkReassembler {
    slots: Vec<Vec<u8>>,
}

impl View for ChunkReassembler {
    type V = Seq<Seq<u8>>;

    closed spec fn view(&self) -> Seq<Seq<u8>> {
        Seq::new(self.slots@.len(), |i: int| self.slots@[i]@)
    }
}

impl ChunkReassembler {
    /// A channel on which nothing has arrived.
    pub fn new() -> (r: ChunkReassembler)
        ensures
            r@ == Seq::<Seq<u8>>::empty(),
    {
        let r = ChunkReassembler { slots: Vec::new() };
        assert(r@ =~= Seq::<Seq<u8>>::empty());
        r
    }

    /// Drops what waits.
    pub fn clear(&mut self)
        ensures
            final(self)@ == Seq::<Seq<u8>>::empty(),
    {
        self.slots = Vec::new();
        assert(self@ =~= Seq::<Seq<u8>>::empty());
    }

    /// Number of slots that wait.
    pub fn pending(&self) -> (n: usize)
        ensures
            n == self@.len(),
    {
        self.slots.len()
    }

    /// Accepts the chunk with the given index out of `total`. A chunk with
    /// index 0 first replaces whatever waits by `total` empty slots. The
    /// chunk goes into the slot of its index, over what was there. When no
    /// slot is empty after that, the blob is handed out and the channel is
    /// cleared.
    #[verifier::loop_isolation(false)]
    pub fn accept_chunk(&mut self, index: u32, total: u32, payload: Vec<u8>) -> (r: ChunkOutcome)
        ensures
            final(self)@ == slots_after(old(self)@, index, total, payload@),
            index >= slots_met(old(self)@, index, total).len() <==> r is OutOfRange,
            match blob_after(old(self)@, index, total, payload@) {
                Some(blob) => r matches ChunkOutcome::Complete(b) && b@ == blob,
                None => !(r is Complete),
            },
    {
        if index == 0 {
            self.slots = Vec::new();
            let mut i: u32 = 0;
            while i < total
                invariant
                    i <= total,
                    self.slots@.len() == i,
                    forall|j: int|
                        0 <= j < i ==> (#[trigger] self.slots@[j])@ == Seq::<u8>::empty(),
                decreases total - i,
            {
                self.slots.push(Vec::new());
                i += 1;
            }
        }
        let ghost met = slots_met(old(self)@, index, total);
        assert(self@ =~= met);
        if index as usize >= self.slots.len() {
            return ChunkOutcome::OutOfRange;
        }
        self.slots.set(index as usize, payload);
        let ghost filled = met.update(index as int, payload@);
        assert(self@ =~= filled);
        let mut blob: Vec<u8> = Vec::new();
        let mut i: usize = 0;
        while i < self.slots.len()
            invariant
                i <= self.slots.len(),
                self@ == filled,
                forall|j: int| 0 <= j < i ==> (#[trigger] filled[j]).len() > 0,
                blob@ == joined(filled.take(i as int)),
            decreases self.slots.len() - i,
        {
            if self.slots[i].len() == 0 {
                assert(filled[i as int].len() == 0);
                return ChunkOutcome::Stored;
            }
            assert(filled.take(i + 1).drop_last() == filled.take(i as int));
            append_bytes(&mut blob, self.slots[i].as_slice());
            i += 1;
        }
        assert(filled.take(filled.len() as int) == filled);
        self.slots = Vec::new();
        assert(self@ =~= Seq::<Seq<u8>>::empty());
        ChunkOutcome::Complete(blob)
    }
}

/// The slots after the first `k` of the arrivals: arrival `j` brings the
/// chunk with index `order[j]` and the payload of that index.
pub open spec fn state_after(
    start: Seq<Seq<u8>>,
    order: Seq<u32>,
    payloads: Seq<Seq<u8>>,
    total: u32,
    k: nat,
) -> Seq<Seq<u8>>
    decreases k,
{
    if k == 0 {
        start
    } else {
        slots_after(
            state_after(start, order, payloads, total, (k - 1) as nat),
            order[k - 1],
            total,
            payloads[order[k - 1] as int],
        )
    }
}

/// The blob that arrival `k` completes, if it completes one.
pub open spec fn dispatched(
    start: Seq<Seq<u8>>,
    order: Seq<u32>,
    payloads: Seq<Seq<u8>>,
    total: u32,
    k: nat,
) -> Option<Seq<u8>> {
    blob_after(
        state_after(start, order, payloads, total, k),
        order[k as int],
        total,
        payloads[order[k as int] as int],
    )
}

/// The chunk with index `i` is among the first `k` arrivals.
pub open spec fn arrived(order: Seq<u32>, k: nat, i: int) -> bool {
    exists|j: int| 0 <= j < k && #[trigger] order[j] == i
}

/// The slots when the first `k` arrivals are stored and nothing else.
pub open spec fn stored(order: Seq<u32>, payloads: Seq<Seq<u8>>, total: u32, k: nat) -> Seq<
    Seq<u8>,
> {
    Seq::new(
        total as nat,
        |i: int|
            if arrived(order, k, i) {
                payloads[i]
            } else {
                Seq::<u8>::empty()
            },
    )
}

/// The arrivals bring every index below `total` once, that with index 0
/// first, and no payload is empty.
pub open spec fn arrivals_in_any_order(order: Seq<u32>, payloads: Seq<Seq<u8>>, total: u32) -> bool {
    &&& total >= 1
    &&& order.len() == total
    &&& payloads.len() == total
    &&& order[0] == 0
    &&& forall|j: int| 0 <= j < total ==> (#[trigger] order[j]) < total
    &&& forall|j: int, k: int| 0 <= j < k < total ==> #[trigger] order[j] != #[trigger] order[k]
    &&& forall|i: int| 0 <= i < total ==> #[trigger] arrived(order, total as nat, i)
    &&& forall|i: int| 0 <= i < total ==> (#[trigger] payloads[i]).len() > 0
}

proof fn lemma_arrival(
    start: Seq<Seq<u8>>,
    order: Seq<u32>,
    payloads: Seq<Seq<u8>>,
    total: u32,
    k: nat,
)
    requires
        arrivals_in_any_order(order, payloads, total),
        k < total,
    ensures
        k + 1 < total ==> dispatched(start, order, payloads, total, k) is None && state_after(
            start,
            order,
            payloads,
            total,
            k + 1,
        ) == stored(order, payloads, total, k + 1),
        k + 1 == total ==> dispatched(start, order, payloads, total, k) == Some(joined(payloads))
            && state_after(start, order, payloads, total, k + 1) == Seq::<Seq<u8>>::empty(),
    decreases k,
{
    let before = state_after(start, order, payloads, total, k);
    let index = order[k as int];
    let payload = payloads[index as int];
    let met = slots_met(before, index, total);
    if k > 0 {
        lemma_arrival(start, order, payloads, total, (k - 1) as nat);
        assert(order[0] != order[k as int]);
        assert(met == stored(order, payloads, total, k));
    }
    let filled = met.update(index as int, payload);
    let next = stored(order, payloads, total, k + 1);
    assert(filled.len() == next.len());
    assert forall|i: int| 0 <= i < total implies filled[i] == next[i] by {
        if i == index {
            assert(order[k as int] == i);
            assert(arrived(order, k + 1, i));
        } else if arrived(order, k + 1, i) {
            let j = choose|j: int| 0 <= j < k + 1 && #[trigger] order[j] == i;
            assert(j < k);
            assert(arrived(order, k, i));
            assert(k > 0);
        } else {
            if arrived(order, k, i) {
                let j = choose|j: int| 0 <= j < k && #[trigger] order[j] == i;
                assert(0 <= j < k + 1 && order[j] == i);
                assert(arrived(order, k + 1, i));
            }
        }
    }
    assert(filled =~= next);
    if k + 1 < total {
        let w = order[k as int + 1] as int;
        if arrived(order, k + 1, w) {
            let j = choose|j: int| 0 <= j < k + 1 && #[trigger] order[j] == w;
            assert(order[j] != order[k as int + 1]);
        }
        assert(next[w].len() == 0);
        assert(!complete(filled));
    } else {
        assert forall|i: int| 0 <= i < total implies next[i] == payloads[i] by {
            assert(arrived(order, total as nat, i));
        }
        assert(next =~= payloads);
        assert(complete(filled));
    }
}

/// Whatever waited before: when the chunks of a blob arrive once each in any
/// order that begins with the chunk of index 0, and none is empty, the blob is
/// handed out exactly once, by the last arrival and not before, it is the
/// payloads joined in index order, and the channel is clear after it.
pub proof fn lemma_dispatch_once(
    start: Seq<Seq<u8>>,
    order: Seq<u32>,
    payloads: Seq<Seq<u8>>,
    total: u32,
)
    requires
        arrivals_in_any_order(order, payloads, total),
    ensures
        forall|k: nat|
            k + 1 < total ==> #[trigger] dispatched(start, order, payloads, total, k) is None,
        dispatched(start, order, payloads, total, (total - 1) as nat) == Some(joined(payloads)),
        state_after(start, order, payloads, total, total as nat) == Seq::<Seq<u8>>::empty(),
{
    assert forall|k: nat| k + 1 < total implies #[trigger] dispatched(
        start,
        order,
        payloads,
        total,
        k,
    ) is None by {
        lemma_arrival(start, order, payloads, total, k);
    }
    lemma_arrival(start, order, payloads, total, (total - 1) as nat);
}

/// A blob is handed out only when every slot is filled: while the chunk of
/// an index below the number of slots is missing, nothing is handed out.
pub proof fn lemma_no_early_dispatch(
    slots: Seq<Seq<u8>>,
    index: u32,
    total: u32,
    payload: Seq<u8>,
    missing: int,
)
    requires
        0 <= missing < slots_met(slots, index, total).len(),
        missing != index,
        slots_met(slots, index, total)[missing].len() == 0,
    ensures
        blob_after(slots, index, total, payload) is None,
{
    let met = slots_met(slots, index, total);
    if index < met.len() {
        assert(met.update(index as int, payload)[missing].len() == 0);
    }
}

} // verus!
