//! Laws of the DA meta store: what the repair procedures guarantee.

use crate::store::batch::{BlockRange, BlockSubmitState, done_state, pending_state, range_is_legal};
use crate::store::da_store::{
    append_blocks_spec, append_ranges_spec, block_count, insert_ranges, lemma_remove_walk_shape,
    lemma_rollback_walk_decreases, lemma_seq_min_descending, max_block_number, min_int, remove_all,
    remove_walk, repair_blocks_bounds, repair_blocks_spec, rollback_spec, DAMeta, check_append_result,
    next_block_number, first_illegal_spec, first_illegal_scan, repair_orders_spec, block_numbers_from,
    lemma_seq_min_ascending, repair_cursor_spec, max_submitted_scan, submitting_scan,
    MAX_TXS_PER_BLOCK_IN_FIX, numbered_states,
};
use vstd::prelude::*;

verus! {

/// Every block number up to the last block has a stored state.
pub open spec fn blocks_present(m: DAMeta) -> bool {
    match m.last_block_number {
        Some(l) => forall|i: u128| i <= l ==> #[trigger] m.states.contains_key(i),
        None => true,
    }
}

/// The blocks end at `last_order`: the last block's range ends there, or
/// there is no block and `last_order` is 0.
pub open spec fn blocks_end_at(m: DAMeta, last_order: u64) -> bool {
    match m.last_block_number {
        Some(l) => m.states.contains_key(l) && m.states[l].block_range.tx_order_end == last_order,
        None => last_order == 0,
    }
}

/// The blocks made while repairing carry the orders `start..=last_order`
/// without gaps or overlaps, in order, with consecutive numbers from
/// `first`, each non-empty and holding at most `MAX_TXS_PER_BLOCK_IN_FIX`
/// transactions.
pub proof fn lemma_append_blocks_shape(first: int, start: int, last_order: int)
    requires
        1 <= start <= last_order + 1,
        0 <= first,
        first + last_order - start <= u128::MAX,
        last_order + MAX_TXS_PER_BLOCK_IN_FIX <= u64::MAX,
    ensures
        ({
            let s = append_blocks_spec(first, start, last_order);
            &&& (s.len() == 0 <==> start > last_order)
            &&& s.len() <= last_order - start + 1
            &&& forall|i: int| 0 <= i < s.len() ==> #[trigger] s[i].block_number == first + i
            &&& forall|i: int|
                0 <= i < s.len() ==> #[trigger] s[i].tx_order_start <= s[i].tx_order_end <= last_order
                    && s[i].tx_order_end - s[i].tx_order_start < MAX_TXS_PER_BLOCK_IN_FIX
            &&& s.len() > 0 ==> s[0].tx_order_start == start && s.last().tx_order_end == last_order
            &&& forall|i: int|
                0 <= i < s.len() - 1 ==> #[trigger] s[i + 1].tx_order_start == s[i].tx_order_end + 1
        }),
    decreases last_order - start + 1,
{
    if start <= last_order {
        let end = min_int(start + MAX_TXS_PER_BLOCK_IN_FIX - 1, last_order);
        let b0 = BlockRange { block_number: first as u128, tx_order_start: start as u64, tx_order_end: end as u64 };
        let rest = append_blocks_spec(first + 1, end + 1, last_order);
        lemma_append_blocks_shape(first + 1, end + 1, last_order);
        let s = append_blocks_spec(first, start, last_order);
        assert(s == seq![b0] + rest);
        assert forall|i: int| 0 <= i < s.len() implies #[trigger] s[i].block_number == first + i by {
            if i > 0 {
                assert(s[i] == rest[i - 1]);
            }
        }
        assert forall|i: int| 0 <= i < s.len() implies #[trigger] s[i].tx_order_start <= s[i].tx_order_end
            <= last_order && s[i].tx_order_end - s[i].tx_order_start < MAX_TXS_PER_BLOCK_IN_FIX by {
            if i > 0 {
                assert(s[i] == rest[i - 1]);
            }
        }
        assert forall|i: int| 0 <= i < s.len() - 1 implies #[trigger] s[i + 1].tx_order_start
            == s[i].tx_order_end + 1 by {
            assert(s[i + 1] == rest[i]);
            if i > 0 {
                assert(s[i] == rest[i - 1]);
                let j = i - 1;
                assert(rest[j + 1].tx_order_start == rest[j].tx_order_end + 1);
            } else {
                assert(s[0] == b0);
                assert(rest[0].tx_order_start == end + 1);
            }
        }
        if rest.len() > 0 {
            assert(s.last() == rest.last());
        }
    }
}

proof fn lemma_insert_ranges_contents(states: Map<u128, BlockSubmitState>, r: Seq<BlockRange>)
    requires
        forall|i: int, j: int| 0 <= i < j < r.len() ==> r[i].block_number != r[j].block_number,
    ensures
        forall|k: u128| states.contains_key(k) ==> #[trigger] insert_ranges(states, r).contains_key(k),
        forall|i: int|
            0 <= i < r.len() ==> insert_ranges(states, r).contains_key(#[trigger] r[i].block_number)
                && insert_ranges(states, r)[r[i].block_number] == pending_state(
                r[i].block_number,
                r[i].tx_order_start,
                r[i].tx_order_end,
            ),
    decreases r.len(),
{
    if r.len() > 0 {
        let t = r.drop_last();
        assert forall|i: int, j: int| 0 <= i < j < t.len() implies t[i].block_number != t[j].block_number by {
            assert(t[i] == r[i] && t[j] == r[j]);
        }
        lemma_insert_ranges_contents(states, t);
        assert forall|i: int| 0 <= i < r.len() implies insert_ranges(states, r).contains_key(
            #[trigger] r[i].block_number,
        ) && insert_ranges(states, r)[r[i].block_number] == pending_state(
            r[i].block_number,
            r[i].tx_order_start,
            r[i].tx_order_end,
        ) by {
            if i < r.len() - 1 {
                assert(t[i] == r[i]);
                assert(r[i].block_number != r.last().block_number);
            }
        }
    }
}

proof fn lemma_max_block_number_consecutive(r: Seq<BlockRange>, first: int)
    requires
        r.len() >= 1,
        forall|i: int| 0 <= i < r.len() ==> #[trigger] r[i].block_number == first + i,
    ensures
        max_block_number(r) == first + r.len() - 1,
    decreases r.len(),
{
    if r.len() > 1 {
        let t = r.drop_last();
        assert forall|i: int| 0 <= i < t.len() implies #[trigger] t[i].block_number == first + i by {
            assert(t[i] == r[i]);
        }
        lemma_max_block_number_consecutive(t, first);
    }
}

/// Appending the blocks made while repairing after a store whose blocks are
/// all present keeps them present, and makes the blocks end at `last_order`.
proof fn lemma_append_repair_blocks(m: DAMeta, first: int, start: int, last_order: u64)
    requires
        blocks_present(m),
        first == block_count(m.last_block_number),
        1 <= start <= last_order,
        first + last_order - start <= u128::MAX,
        last_order + MAX_TXS_PER_BLOCK_IN_FIX <= u64::MAX,
    ensures
        ({
            let blocks = append_blocks_spec(first, start, last_order as int);
            let m2 = append_ranges_spec(m, blocks);
            &&& blocks_present(m2)
            &&& blocks_end_at(m2, last_order)
            &&& blocks.len() <= last_order - start + 1
        }),
{
    let blocks = append_blocks_spec(first, start, last_order as int);
    lemma_append_blocks_shape(first, start, last_order as int);
    assert forall|i: int, j: int| 0 <= i < j < blocks.len() implies blocks[i].block_number
        != blocks[j].block_number by {
        assert(blocks[i].block_number == first + i);
        assert(blocks[j].block_number == first + j);
    }
    lemma_insert_ranges_contents(m.states, blocks);
    lemma_max_block_number_consecutive(blocks, first);
    let m2 = append_ranges_spec(m, blocks);
    let nl = max_block_number(blocks);
    assert(nl == first + blocks.len() - 1);
    let li = blocks.len() - 1;
    assert(blocks[li].block_number == nl);
    assert(blocks.last() == blocks[li]);
    assert forall|i: u128| i <= nl implies #[trigger] m2.states.contains_key(i) by {
        if i < first {
            assert(m.states.contains_key(i));
        } else {
            let k = i - first;
            assert(blocks[k].block_number == i);
        }
    }
}

proof fn lemma_present_walk_ok(states: Map<u128, BlockSubmitState>, bn: u128, last_order: u64)
    requires
        forall|i: u128| i <= bn ==> #[trigger] states.contains_key(i),
    ensures
        remove_walk(states, bn, last_order) is Ok,
    decreases bn,
{
    if bn > 0 {
        lemma_present_walk_ok(states, (bn - 1) as u128, last_order);
    }
}

proof fn lemma_remove_all_contains(states: Map<u128, BlockSubmitState>, rm: Seq<u128>, x: u128)
    ensures
        remove_all(states, rm).contains_key(x) <==> states.contains_key(x) && !rm.contains(x),
    decreases rm.len(),
{
    if rm.len() > 0 {
        lemma_remove_all_contains(states, rm.drop_last(), x);
        if rm.drop_last().contains(x) {
            let k = choose|k: int| 0 <= k < rm.drop_last().len() && rm.drop_last()[k] == x;
            assert(rm[k] == x);
        }
        if rm.contains(x) && x != rm.last() {
            let k = choose|k: int| 0 <= k < rm.len() && rm[k] == x;
            assert(rm.drop_last()[k] == x);
        }
    }
}

/// Repairing the blocks of a store whose blocks are all present succeeds,
/// keeps them present and leaves them ending exactly at `last_order`:
/// blocks are appended up to it, or those ending after it are removed.
pub proof fn lemma_repair_blocks_ends_at_last_order(m: DAMeta, last_order: u64)
    requires
        blocks_present(m),
        repair_blocks_bounds(m, last_order),
    ensures
        repair_blocks_spec(m, last_order).error is None,
        blocks_present(repair_blocks_spec(m, last_order).meta),
        blocks_end_at(repair_blocks_spec(m, last_order).meta, last_order),
    decreases block_count(m.last_block_number),
{
    match m.last_block_number {
        Some(l) => {
            assert(m.states.contains_key(l));
            let end = m.states[l].block_range.tx_order_end;
            if last_order > end {
                lemma_append_repair_blocks(m, l + 1, end + 1, last_order);
            } else if last_order < end {
                lemma_present_walk_ok(m.states, l, last_order);
                lemma_remove_walk_shape(m.states, l, last_order);
                lemma_rollback_walk_decreases(m, l, last_order);
                let rm = remove_walk(m.states, l, last_order)->Ok_0;
                let m2 = rollback_spec(m, rm);
                lemma_seq_min_descending(rm, l as int);
                assert forall|x: u128| m2.last_block_number matches Some(nl) && x <= nl implies #[trigger] m2.states.contains_key(x) by {
                    lemma_remove_all_contains(m.states, rm, x);
                    if rm.contains(x) {
                        let k = choose|k: int| 0 <= k < rm.len() && rm[k] == x;
                        assert(rm[k] == l - k);
                    }
                }
                assert(blocks_present(m2));
                lemma_repair_blocks_ends_at_last_order(m2, last_order);
            }
        },
        None => {
            if last_order != 0 {
                lemma_append_repair_blocks(m, 0, 1, last_order);
            }
        },
    }
}


/// Every block up to the last one is present, not empty, and starts right
/// after the previous block's end.
pub open spec fn blocks_contiguous(m: DAMeta) -> bool {
    &&& blocks_present(m)
    &&& match m.last_block_number {
        Some(l) => forall|i: u128|
            i <= l ==> {
                &&& #[trigger] m.states[i].block_range.tx_order_start
                    <= m.states[i].block_range.tx_order_end
                &&& i >= 1 ==> m.states[i].block_range.tx_order_start == m.states[(i - 1) as u128].block_range.tx_order_end
                    + 1
            },
        None => true,
    }
}

/// The store after a successful `append_submitting_block`.
pub open spec fn appended(m: DAMeta, start: u64, end: u64) -> DAMeta {
    let n = next_block_number(m.last_block_number);
    DAMeta {
        states: m.states.insert(n as u128, pending_state(n as u128, start, end)),
        last_block_number: Some(n as u128),
        ..m
    }
}

/// Appending a block that passes the check keeps the blocks present and
/// contiguous, and the new last block carries the appended range.
pub proof fn lemma_append_keeps_contiguous(m: DAMeta, start: u64, end: u64)
    requires
        blocks_contiguous(m),
        check_append_result(m, m.last_block_number, start, end) is Ok,
        m.last_block_number != Some(u128::MAX),
    ensures
        blocks_contiguous(appended(m, start, end)),
        blocks_end_at(appended(m, start, end), end),
{
    let m2 = appended(m, start, end);
    let n = next_block_number(m.last_block_number) as u128;
    assert forall|i: u128| i <= n implies #[trigger] m2.states.contains_key(i) by {
        if i < n {
            assert(m.states.contains_key(i));
        }
    }
    assert forall|i: u128| i <= n implies {
        &&& #[trigger] m2.states[i].block_range.tx_order_start <= m2.states[i].block_range.tx_order_end
        &&& i >= 1 ==> m2.states[i].block_range.tx_order_start == m2.states[(i - 1) as u128].block_range.tx_order_end
            + 1
    } by {
        if i < n {
            assert(m.states[i] == m2.states[i]);
            if i >= 1 {
                assert(m.states[(i - 1) as u128] == m2.states[(i - 1) as u128]);
            }
        } else if i >= 1 {
            assert(m.states[(i - 1) as u128] == m2.states[(i - 1) as u128]);
        }
    }
}

/// Every block from `i` to `last` is present, legal, and starts right after
/// the previous block's end (`prev_end` for block `i`).
pub open spec fn legal_run(states: Map<u128, BlockSubmitState>, i: int, last: int, prev_end: int, last_order: u64) -> bool {
    forall|j: u128|
        i <= j <= last ==> {
            &&& #[trigger] states.contains_key(j)
            &&& range_is_legal(states[j].block_range, last_order)
            &&& states[j].block_range.tx_order_start == (if j == i {
                prev_end
            } else {
                states[(j - 1) as u128].block_range.tx_order_end as int
            }) + 1
        }
}

proof fn lemma_scan_characterization(states: Map<u128, BlockSubmitState>, i: int, last: int, prev_end: int, last_order: u64)
    requires
        0 <= i,
        last <= u128::MAX,
    ensures
        first_illegal_scan(states, i, last, prev_end, last_order) matches Ok(r) ==> match r {
            None => legal_run(states, i, last, prev_end, last_order),
            Some(f) => i <= f <= last && legal_run(states, i, f - 1, prev_end, last_order),
        },
    decreases last - i + 1,
{
    if i <= last && states.contains_key(i as u128) {
        let r = states[i as u128].block_range;
        if range_is_legal(r, last_order) && r.tx_order_start == prev_end + 1 {
            lemma_scan_characterization(states, i + 1, last, r.tx_order_end as int, last_order);
            let res = first_illegal_scan(states, i + 1, last, r.tx_order_end as int, last_order);
            match res {
                Ok(None) => {
                    assert forall|j: u128| i <= j <= last implies {
                        &&& #[trigger] states.contains_key(j)
                        &&& range_is_legal(states[j].block_range, last_order)
                        &&& states[j].block_range.tx_order_start == (if j == i {
                            prev_end
                        } else {
                            states[(j - 1) as u128].block_range.tx_order_end as int
                        }) + 1
                    } by {
                        if j == i {
                            assert(j == i as u128);
                        }
                        if j > i {
                            assert(legal_run(states, i + 1, last, r.tx_order_end as int, last_order));
                            assert(states.contains_key(j));
                            if j == i + 1 {
                                assert((j - 1) as u128 == i as u128);
                                assert(states[j].block_range.tx_order_start == r.tx_order_end + 1);
                            } else {
                                assert(states[j].block_range.tx_order_start == states[(j - 1) as u128].block_range.tx_order_end + 1);
                            }
                        }
                    }
                },
                Ok(Some(f)) => {
                    assert forall|j: u128| i <= j <= f - 1 implies {
                        &&& #[trigger] states.contains_key(j)
                        &&& range_is_legal(states[j].block_range, last_order)
                        &&& states[j].block_range.tx_order_start == (if j == i {
                            prev_end
                        } else {
                            states[(j - 1) as u128].block_range.tx_order_end as int
                        }) + 1
                    } by {
                        if j == i {
                            assert(j == i as u128);
                        }
                        if j > i {
                            assert(legal_run(states, i + 1, f - 1, r.tx_order_end as int, last_order));
                            if j == i + 1 {
                                assert((j - 1) as u128 == i as u128);
                            }
                        }
                    }
                },
                Err(_) => {},
            }
        }
    }
}

/// All blocks up to the last one are present, legal for `last_order`, and
/// contiguous.
pub open spec fn blocks_legal(m: DAMeta, last_order: u64) -> bool {
    match m.last_block_number {
        Some(l) => m.states.contains_key(0) && range_is_legal(m.states[0].block_range, last_order)
            && legal_run(m.states, 1, l as int, m.states[0].block_range.tx_order_end as int, last_order),
        None => true,
    }
}

proof fn lemma_remove_all_keeps(states: Map<u128, BlockSubmitState>, rm: Seq<u128>, x: u128)
    requires
        states.contains_key(x),
        !rm.contains(x),
    ensures
        remove_all(states, rm).contains_key(x),
        remove_all(states, rm)[x] == states[x],
    decreases rm.len(),
{
    if rm.len() > 0 {
        assert(!rm.drop_last().contains(x)) by {
            if rm.drop_last().contains(x) {
                let k = choose|k: int| 0 <= k < rm.drop_last().len() && rm.drop_last()[k] == x;
                assert(rm[k] == x);
            }
        }
        lemma_remove_all_keeps(states, rm.drop_last(), x);
        assert(rm.last() != x);
    }
}

/// Repairing the tx orders of a store whose blocks are all present, without
/// fast fail, succeeds and leaves only legal, contiguous blocks: the store is
/// rolled back to just below the first block that breaks the orders.
pub proof fn lemma_repair_orders_leaves_legal_blocks(m: DAMeta, last_order: u64)
    requires
        blocks_present(m),
    ensures
        repair_orders_spec(m, last_order, false) matches Ok((m1, n)) && blocks_legal(m1, last_order),
{
    match m.last_block_number {
        None => {},
        Some(l) => {
            assert(m.states.contains_key(0));
            if range_is_legal(m.states[0].block_range, last_order) {
                lemma_scan_characterization(m.states, 1, l as int, m.states[0].block_range.tx_order_end as int, last_order);
                lemma_present_scan_ok(m.states, 1, l as int, m.states[0].block_range.tx_order_end as int, last_order);
            }
            match first_illegal_spec(m, l, last_order) {
                Ok(Some(f)) => {
                    let rm = block_numbers_from(f, l);
                    assert(rm[0] == f);
                    lemma_seq_min_ascending(rm, f as int);
                    let m1 = rollback_spec(m, rm);
                    if f > 0 {
                        assert forall|x: u128| x < f implies !rm.contains(x) by {
                            if rm.contains(x) {
                                let k = choose|k: int| 0 <= k < rm.len() && rm[k] == x;
                                assert(rm[k] == f + k);
                            }
                        }
                        assert forall|x: u128| x < f implies #[trigger] m1.states.contains_key(x) && m1.states[x]
                            == m.states[x] by {
                            lemma_remove_all_keeps(m.states, rm, x);
                        }
                        lemma_remove_all_keeps(m.states, rm, 0);
                        assert forall|j: u128| 1 <= j <= (f - 1) as int implies {
                            &&& #[trigger] m1.states.contains_key(j)
                            &&& range_is_legal(m1.states[j].block_range, last_order)
                            &&& m1.states[j].block_range.tx_order_start == (if j == 1 {
                                m1.states[0].block_range.tx_order_end as int
                            } else {
                                m1.states[(j - 1) as u128].block_range.tx_order_end as int
                            }) + 1
                        } by {
                            assert(legal_run(m.states, 1, f - 1, m.states[0].block_range.tx_order_end as int, last_order));
                            assert(m.states.contains_key(j));
                            lemma_remove_all_keeps(m.states, rm, j);
                            lemma_remove_all_keeps(m.states, rm, (j - 1) as u128);
                        }
                    }
                },
                _ => {},
            }
        },
    }
}

proof fn lemma_present_scan_ok(states: Map<u128, BlockSubmitState>, i: int, last: int, prev_end: int, last_order: u64)
    requires
        0 <= i,
        last <= u128::MAX,
        forall|j: u128| j <= last ==> #[trigger] states.contains_key(j),
    ensures
        first_illegal_scan(states, i, last, prev_end, last_order) is Ok,
    decreases last - i + 1,
{
    if i <= last {
        assert(states.contains_key(i as u128));
        let r = states[i as u128].block_range;
        lemma_present_scan_ok(states, i + 1, last, r.tx_order_end as int, last_order);
    }
}

proof fn lemma_max_submitted_scan_bound(states: Map<u128, BlockSubmitState>, b: int, hi: int, acc: Option<u128>)
    requires
        0 <= b,
        hi <= u128::MAX,
        acc matches Some(a) ==> a <= hi,
    ensures
        max_submitted_scan(states, b, hi, acc) matches Some(x) ==> x <= hi,
    decreases hi - b + 1,
{
    if b <= hi && states.contains_key(b as u128) && states[b as u128].done {
        lemma_max_submitted_scan_bound(states, b + 1, hi, Some(b as u128));
    }
}

/// Repairing the background cursor never raises it: it stays, is lowered,
/// or is dropped.
pub proof fn lemma_repair_cursor_never_raises(m: DAMeta, da_min_block_to_submit: Option<u128>)
    ensures
        ({
            let m2 = repair_cursor_spec(m, da_min_block_to_submit);
            &&& m2.states == m.states
            &&& m2.last_block_number == m.last_block_number
            &&& match (m.background_cursor, m2.background_cursor) {
                (Some(c), Some(c2)) => c2 <= c,
                (None, Some(_)) => false,
                _ => true,
            }
        }),
{
    match m.background_cursor {
        Some(c) => {
            let lo = match da_min_block_to_submit { Some(v) => v, None => 0 };
            lemma_max_submitted_scan_bound(m.states, lo as int, c as int, None);
        },
        None => {},
    }
}

/// Block `k` is stored and submitted.
pub open spec fn is_submitted(states: Map<u128, BlockSubmitState>, k: int) -> bool {
    &&& 0 <= k <= u128::MAX
    &&& states.contains_key(k as u128)
    &&& states[k as u128].done
}

/// Scanning from `b` with the blocks `lo..b` all submitted (and `acc` the
/// last of them) ends at the last block of the unbroken run of submitted
/// blocks from `lo`, capped at `hi`.
proof fn lemma_max_submitted_scan_run(states: Map<u128, BlockSubmitState>, lo: int, b: int, hi: int, acc: Option<u128>)
    requires
        0 <= lo <= b <= hi + 1,
        hi <= u128::MAX,
        forall|k: int| lo <= k < b ==> is_submitted(states, k),
        acc == (if b == lo { None::<u128> } else { Some((b - 1) as u128) }),
    ensures
        match max_submitted_scan(states, b, hi, acc) {
            Some(x) => {
                &&& lo <= x <= hi
                &&& forall|k: int| lo <= k <= x ==> is_submitted(states, k)
                &&& (x == hi || !is_submitted(states, x + 1))
            },
            None => lo > hi || !is_submitted(states, lo),
        },
    decreases hi - b + 1,
{
    if b <= hi && states.contains_key(b as u128) && states[b as u128].done {
        lemma_max_submitted_scan_run(states, lo, b + 1, hi, Some(b as u128));
    }
}

/// Repairing the background cursor leaves it on a block the background
/// submitter has really finished up to: when the cursor is above the lowest
/// block to submit (`da_min_block_to_submit`, 0 when not given), every block
/// from that lowest one up to the repaired cursor is stored and submitted,
/// and the block after the repaired cursor is not, unless the cursor was
/// kept; it is dropped only when the lowest block itself is not submitted.
/// A cursor at or below the lowest block, or none, is kept as it is.
pub proof fn lemma_repair_cursor_stops_at_first_hole(m: DAMeta, da_min_block_to_submit: Option<u128>)
    ensures
        ({
            let m2 = repair_cursor_spec(m, da_min_block_to_submit);
            let lo: int = match da_min_block_to_submit {
                Some(v) => v as int,
                None => 0,
            };
            &&& m2.states == m.states
            &&& m2.last_block_number == m.last_block_number
            &&& match m.background_cursor {
                None => m2.background_cursor is None,
                Some(c) => if lo >= c {
                    m2.background_cursor == Some(c)
                } else {
                    match m2.background_cursor {
                        Some(c2) => {
                            &&& lo <= c2 <= c
                            &&& forall|k: int| lo <= k <= c2 ==> is_submitted(m.states, k)
                            &&& (c2 == c || !is_submitted(m.states, c2 + 1))
                        },
                        None => !is_submitted(m.states, lo),
                    }
                },
            }
        }),
{
    match m.background_cursor {
        Some(c) => {
            let lo = match da_min_block_to_submit {
                Some(v) => v,
                None => 0,
            };
            if lo < c {
                lemma_max_submitted_scan_run(m.states, lo as int, lo as int, c as int, None);
            }
        },
        None => {},
    }
}

/// Each stored state carries its own block number.
pub open spec fn numbers_match(m: DAMeta) -> bool {
    numbered_states(m.states)
}

/// Appending a block and marking a block submitted keep each state under
/// its own block number.
pub proof fn lemma_updates_keep_numbers(m: DAMeta, start: u64, end: u64, bn: u128, hash: [u8; 32])
    requires
        numbers_match(m),
    ensures
        numbers_match(appended(m, start, end)),
        numbers_match(DAMeta { states: m.states.insert(bn, done_state(bn, start, end, hash)), ..m }),
{
    let m2 = appended(m, start, end);
    assert forall|k: u128| m2.states.contains_key(k) implies (#[trigger] m2.states[k]).block_range.block_number == k by {
        if k != next_block_number(m.last_block_number) as u128 {
            assert(m.states.contains_key(k));
        }
    }
    let m3 = DAMeta { states: m.states.insert(bn, done_state(bn, start, end, hash)), ..m };
    assert forall|k: u128| m3.states.contains_key(k) implies (#[trigger] m3.states[k]).block_range.block_number == k by {
        if k != bn {
            assert(m.states.contains_key(k));
        }
    }
}

/// The blocks waiting to be submitted come sorted by block number, each
/// from `b` on and below `b + n`, each stored, not submitted, and with the
/// range that is stored for it.
pub proof fn lemma_submitting_blocks_sorted(m: DAMeta, b: int, n: nat)
    requires
        numbers_match(m),
        0 <= b,
    ensures
        forall|i: int, j: int|
            0 <= i < j < submitting_scan(m.states, b, n).len() ==> (#[trigger] submitting_scan(m.states, b, n)[i]).block_number
                < (#[trigger] submitting_scan(m.states, b, n)[j]).block_number,
        forall|i: int|
            #![trigger submitting_scan(m.states, b, n)[i]]
            0 <= i < submitting_scan(m.states, b, n).len() ==> {
                let r = submitting_scan(m.states, b, n)[i];
                &&& b <= r.block_number < b + n
                &&& m.states.contains_key(r.block_number)
                &&& !m.states[r.block_number].done
                &&& m.states[r.block_number].block_range == r
            },
    decreases n,
{
    if !(n == 0 || b < 0 || b > u128::MAX || !m.states.contains_key(b as u128)) {
        lemma_submitting_blocks_sorted(m, b + 1, (n - 1) as nat);
        let st = m.states[b as u128];
        let head = if !st.done { seq![st.block_range] } else { Seq::<BlockRange>::empty() };
        let tail = submitting_scan(m.states, b + 1, (n - 1) as nat);
        let s = submitting_scan(m.states, b, n);
        assert(s == head + tail);
        assert forall|i: int| 0 <= i < s.len() implies {
            let r = #[trigger] s[i];
            &&& b <= r.block_number < b + n
            &&& m.states.contains_key(r.block_number)
            &&& !m.states[r.block_number].done
            &&& m.states[r.block_number].block_range == r
        } by {
            if i < head.len() {
                assert(s[i] == st.block_range);
            } else {
                assert(s[i] == tail[i - head.len()]);
            }
        }
        assert forall|i: int, j: int| 0 <= i < j < s.len() implies (#[trigger] s[i]).block_number
            < (#[trigger] s[j]).block_number by {
            if i < head.len() {
                assert(s[j] == tail[j - head.len()]);
            } else {
                assert(s[i] == tail[i - head.len()]);
                assert(s[j] == tail[j - head.len()]);
            }
        }
    }
}

} // verus!
