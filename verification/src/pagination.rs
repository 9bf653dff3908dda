//! How the children of a scope are dealt out in pages that respect the size
//! budget of one response.

use crate::chunks::MAX_RETURN_LENGTH;
use vstd::prelude::*;

verus! {

/// Bytes of a response that are counted before its first item.
pub const PAGE_HEADER: usize = 12;

/// Number of further items emitted from item `k` on, when `acc` bytes are
/// counted so far: an item goes out as long as there is one and the count
/// with it does not exceed `MAX_RETURN_LENGTH`.
pub open spec fn emitted_from(sizes: Seq<nat>, k: int, acc: nat) -> nat
    decreases sizes.len() - k,
{
    if k < 0 || k >= sizes.len() || acc + sizes[k] > MAX_RETURN_LENGTH {
        0
    } else {
        1 + emitted_from(sizes, k + 1, acc + sizes[k])
    }
}

/// Number of items on the page that starts at item `start`, where `sizes`
/// gives the bytes that each item counts for. The first item of a page goes
/// out whatever its size, so that every page makes progress; each further one
/// goes out only if the page stays within `MAX_RETURN_LENGTH` with it.
pub open spec fn page_len(sizes: Seq<nat>, start: nat) -> nat {
    if start >= sizes.len() {
        0
    } else {
        1 + emitted_from(sizes, start as int + 1, PAGE_HEADER as nat + sizes[start as int])
    }
}

/// Number of items that remain behind the page that starts at `start`.
pub open spec fn remaining_after(sizes: Seq<nat>, start: nat) -> nat {
    if start >= sizes.len() {
        0
    } else {
        (sizes.len() - start - page_len(sizes, start)) as nat
    }
}

/// The bytes that the `n` items from item `k` on count for.
pub open spec fn span(sizes: Seq<nat>, k: int, n: nat) -> nat
    decreases n,
{
    if n == 0 {
        0
    } else {
        sizes[k] + span(sizes, k + 1, (n - 1) as nat)
    }
}

/// The bytes counted for the page that starts at item `start`: the header
/// and the items on the page.
pub open spec fn page_bytes(sizes: Seq<nat>, start: nat) -> nat {
    PAGE_HEADER as nat + span(sizes, start as int, page_len(sizes, start))
}

/// No more is emitted than there is. What is emitted stays within the budget
/// together with what was counted before, and the item behind it, if there
/// is one, would not.
pub proof fn lemma_emitted_bound(sizes: Seq<nat>, k: int, acc: nat)
    requires
        0 <= k <= sizes.len(),
    ensures
        emitted_from(sizes, k, acc) <= sizes.len() - k,
        emitted_from(sizes, k, acc) > 0 ==> acc + span(sizes, k, emitted_from(sizes, k, acc))
            <= MAX_RETURN_LENGTH,
        k + emitted_from(sizes, k, acc) < sizes.len() ==> acc + span(
            sizes,
            k,
            emitted_from(sizes, k, acc),
        ) + sizes[k + emitted_from(sizes, k, acc)] > MAX_RETURN_LENGTH,
    decreases sizes.len() - k,
{
    if k < sizes.len() && acc + sizes[k] <= MAX_RETURN_LENGTH {
        lemma_emitted_bound(sizes, k + 1, acc + sizes[k]);
        let more = emitted_from(sizes, k + 1, acc + sizes[k]);
        assert(emitted_from(sizes, k, acc) == 1 + more);
        assert(span(sizes, k, 1 + more) == sizes[k] + span(sizes, k + 1, more));
        if more == 0 {
            assert(span(sizes, k + 1, 0) == 0);
        }
    } else {
        assert(span(sizes, k, 0) == 0);
    }
}

/// A page that starts before the end holds at least one item, and no page
/// holds more items than are left.
pub proof fn lemma_page_progress(sizes: Seq<nat>, start: nat)
    ensures
        start < sizes.len() ==> 1 <= page_len(sizes, start) <= sizes.len() - start,
        start >= sizes.len() ==> page_len(sizes, start) == 0,
{
    if start < sizes.len() {
        lemma_emitted_bound(sizes, start as int + 1, PAGE_HEADER as nat + sizes[start as int]);
    }
}

/// A page stays within the budget unless its first item alone is too long,
/// and then that item is all it holds. A page behind which items remain is
/// full: with the next item it would exceed the budget.
pub proof fn lemma_page_budget(sizes: Seq<nat>, start: nat)
    requires
        start < sizes.len(),
    ensures
        PAGE_HEADER + sizes[start as int] <= MAX_RETURN_LENGTH ==> page_bytes(sizes, start)
            <= MAX_RETURN_LENGTH,
        PAGE_HEADER + sizes[start as int] > MAX_RETURN_LENGTH ==> page_len(sizes, start) == 1,
        remaining_after(sizes, start) > 0 ==> page_bytes(sizes, start) + sizes[start as int
            + page_len(sizes, start)] > MAX_RETURN_LENGTH,
{
    let first = PAGE_HEADER as nat + sizes[start as int];
    let more = emitted_from(sizes, start as int + 1, first);
    lemma_emitted_bound(sizes, start as int + 1, first);
    assert(span(sizes, start as int, 1 + more) == sizes[start as int] + span(
        sizes,
        start as int + 1,
        more,
    ));
    if more == 0 {
        assert(span(sizes, start as int + 1, 0) == 0);
    }
}

/// The items that a caller collects who asks for page after page from `start`
/// on, each time advancing by the number of items returned, until none
/// remain: the flat indices of the items, in the order received.
pub open spec fn paged(sizes: Seq<nat>, start: nat) -> Seq<int>
    decreases sizes.len() - start,
{
    if start >= sizes.len() {
        Seq::empty()
    } else {
        proof {
            lemma_page_progress(sizes, start);
        }
        Seq::new(page_len(sizes, start), |i: int| start + i) + paged(
            sizes,
            start + page_len(sizes, start),
        )
    }
}

/// Asking for page after page from `start` on yields every item from `start`
/// to the end once, in order.
pub proof fn lemma_paged_from(sizes: Seq<nat>, start: nat)
    requires
        start <= sizes.len(),
    ensures
        paged(sizes, start) == Seq::new((sizes.len() - start) as nat, |i: int| start + i),
    decreases sizes.len() - start,
{
    if start < sizes.len() {
        lemma_page_progress(sizes, start);
        let n = page_len(sizes, start);
        lemma_paged_from(sizes, start + n);
        assert(paged(sizes, start) =~= Seq::new(
            (sizes.len() - start) as nat,
            |i: int| start + i,
        ));
    } else {
        assert(paged(sizes, start) =~= Seq::new(
            (sizes.len() - start) as nat,
            |i: int| start + i,
        ));
    }
}

/// Repeated calls that advance the start index by the number of items
/// returned, until none remain, yield the same items in the same order as one
/// unbounded enumeration; and the last page is the one after which nothing
/// remains.
pub proof fn lemma_pages_cover(sizes: Seq<nat>)
    ensures
        paged(sizes, 0) == Seq::new(sizes.len(), |i: int| i),
        forall|start: nat|
            start < sizes.len() ==> (#[trigger] remaining_after(sizes, start) == 0 <==> start
                + page_len(sizes, start) == sizes.len()),
{
    lemma_paged_from(sizes, 0);
    assert(Seq::new((sizes.len() - 0) as nat, |i: int| 0 + i) =~= Seq::new(
        sizes.len(),
        |i: int| i,
    ));
    assert forall|start: nat| start < sizes.len() implies (#[trigger] remaining_after(sizes, start)
        == 0 <==> start + page_len(sizes, start) == sizes.len()) by {
        lemma_page_progress(sizes, start);
    }
}

} // verus!
