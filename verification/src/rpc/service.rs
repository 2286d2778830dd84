//! The RPC service's own decisions around the indexer and the state store:
//! the bound on a query by object ids, pairing what the stores found with
//! the indexer's rows, and which repairs of the indexer it takes on.

use crate::indexer::reader::IndexerStateID;
use vstd::std_specs::iter::IteratorSpec;
use vstd::prelude::*;

verus! {

/// The most object ids that one query or repair may name.
pub const MAX_OBJECT_IDS_PER_QUERY: usize = 100;

/// Why the service refused a request.
#[derive(Debug, Clone, Copy, PartialEq, Eq, Structural)]
pub enum ServiceError {
    /// More object ids were named than one request may name.
    TooManyObjectIds,
    /// A repair of the object-state tables named something other than object ids.
    InvalidObjectStateRepairParams,
    /// The transaction table cannot be repaired.
    TransactionRepairNotSupported,
    /// The event table cannot be repaired.
    EventRepairNotSupported,
}

/// The rows that a query by object ids stands for: each id, in the order
/// given, at the default (zero) position, since such a query does not go
/// through the indexer.
pub open spec fn direct_rows_spec(ids: Seq<String>) -> Seq<(String, IndexerStateID)> {
    Seq::new(ids.len(), |i: int| (ids[i], IndexerStateID { tx_order: 0, state_index: 0 }))
}

/// The rows of a query by object ids: refused when more than
/// `MAX_OBJECT_IDS_PER_QUERY` ids are named, else each id at the default
/// position.
pub fn direct_object_rows(ids: Vec<String>) -> (r: Result<Vec<(String, IndexerStateID)>, ServiceError>)
    ensures
        ids.len() > MAX_OBJECT_IDS_PER_QUERY <==> r == Err::<Vec<(String, IndexerStateID)>, ServiceError>(
            ServiceError::TooManyObjectIds,
        ),
        ids.len() <= MAX_OBJECT_IDS_PER_QUERY ==> (r matches Ok(rows) && rows@ == direct_rows_spec(ids@)),
{
    if ids.len() > MAX_OBJECT_IDS_PER_QUERY {
        return Err(ServiceError::TooManyObjectIds);
    }
    let ghost all = ids@;
    let ghost mut k: int = 0;
    let mut rows: Vec<(String, IndexerStateID)> = Vec::new();
    for id in it: ids.into_iter()
        invariant
            it.seq() == all,
            k == it.index(),
            rows@ == direct_rows_spec(all.take(k)),
    {
        proof {
            assert(direct_rows_spec(all.take(k + 1)) =~= direct_rows_spec(all.take(k)).push(
                (id, IndexerStateID { tx_order: 0, state_index: 0 }),
            ));
            k = k + 1;
        }
        rows.push((id, IndexerStateID { tx_order: 0, state_index: 0 }));
    }
    proof {
        assert(all.take(k) =~= all);
    }
    Ok(rows)
}

/// What the stores found for the first `n` of the indexer's rows, paired with
/// those rows: each row whose item was found, with the item, in the order of
/// the rows. A row past the end of `found` has nothing found.
pub open spec fn found_pairs_upto<S, I>(found: Seq<Option<S>>, ids: Seq<I>, n: nat) -> Seq<(S, I)>
    decreases n,
{
    if n == 0 {
        Seq::empty()
    } else {
        let prev = found_pairs_upto(found, ids, (n - 1) as nat);
        if n - 1 < found.len() && found[n - 1] is Some {
            prev.push((found[n - 1]->0, ids[n - 1]))
        } else {
            prev
        }
    }
}

/// The rows of the indexer whose items the stores found, each with its item,
/// in the order of the rows; rows whose item is gone are left out.
pub open spec fn found_pairs<S, I>(found: Seq<Option<S>>, ids: Seq<I>) -> Seq<(S, I)> {
    found_pairs_upto(found, ids, ids.len())
}

/// Pairs the items that the stores found (`None` where an item is gone,
/// since the indexer can run ahead of the stores) with the indexer's rows
/// they were read for, position by position, and drops the rows whose item
/// is gone.
pub fn join_found<S, I>(found: Vec<Option<S>>, ids: Vec<I>) -> (r: Vec<(S, I)>)
    ensures
        r@ == found_pairs(found@, ids@),
{
    let ghost fs = found@;
    let ghost all = ids@;
    let n = ids.len();
    let mut i: usize = 0;
    let mut found = found;
    let mut r: Vec<(S, I)> = Vec::new();
    for id in it: ids.into_iter()
        invariant
            it.seq() == all,
            all.len() == n,
            i == it.index(),
            found@.len() == fs.len(),
            forall|j: int| i <= j < fs.len() ==> found@[j] == fs[j],
            r@ == found_pairs_upto(fs, all, i as nat),
    {
        if i < found.len() {
            let item = found[i].take();
            match item {
                Some(s) => {
                    r.push((s, id));
                },
                None => {},
            }
        }
        i = i + 1;
    }
    r
}

/// When the stores found the item of every row, the join keeps every row, in
/// order, each with its item.
pub proof fn lemma_join_keeps_all_found<S, I>(found: Seq<Option<S>>, ids: Seq<I>)
    requires
        found.len() == ids.len(),
        forall|j: int| 0 <= j < found.len() ==> found[j] is Some,
    ensures
        found_pairs(found, ids) == Seq::new(ids.len(), |j: int| (found[j]->0, ids[j])),
{
    lemma_found_pairs_prefix_all(found, ids, ids.len());
}

proof fn lemma_found_pairs_prefix_all<S, I>(found: Seq<Option<S>>, ids: Seq<I>, n: nat)
    requires
        n <= found.len(),
        n <= ids.len(),
        forall|j: int| 0 <= j < found.len() ==> found[j] is Some,
    ensures
        found_pairs_upto(found, ids, n) == Seq::new(n, |j: int| (found[j]->0, ids[j])),
    decreases n,
{
    if n > 0 {
        lemma_found_pairs_prefix_all(found, ids, (n - 1) as nat);
        assert(found_pairs_upto(found, ids, n) =~= Seq::new(n, |j: int| (found[j]->0, ids[j])));
    }
}

/// The join never yields more rows than the indexer gave, and each pair it
/// yields holds one of those rows and an item that was found.
pub proof fn lemma_join_pairs_come_from_rows<S, I>(found: Seq<Option<S>>, ids: Seq<I>)
    ensures
        found_pairs(found, ids).len() <= ids.len(),
        forall|k: int|
            0 <= k < found_pairs(found, ids).len() ==> exists|j: int|
                0 <= j < ids.len() && j < found.len() && found[j] == Some(#[trigger] found_pairs(found, ids)[k].0)
                    && ids[j] == found_pairs(found, ids)[k].1,
{
    lemma_found_pairs_prefix_from_rows(found, ids, ids.len());
}

proof fn lemma_found_pairs_prefix_from_rows<S, I>(found: Seq<Option<S>>, ids: Seq<I>, n: nat)
    requires
        n <= ids.len(),
    ensures
        found_pairs_upto(found, ids, n).len() <= n,
        forall|k: int|
            0 <= k < found_pairs_upto(found, ids, n).len() ==> exists|j: int|
                0 <= j < n && j < found.len() && found[j] == Some(#[trigger] found_pairs_upto(found, ids, n)[k].0)
                    && ids[j] == found_pairs_upto(found, ids, n)[k].1,
    decreases n,
{
    if n > 0 {
        lemma_found_pairs_prefix_from_rows(found, ids, (n - 1) as nat);
        let prev = found_pairs_upto(found, ids, (n - 1) as nat);
        let cur = found_pairs_upto(found, ids, n);
        assert forall|k: int| 0 <= k < cur.len() implies exists|j: int|
            0 <= j < n && j < found.len() && found[j] == Some(#[trigger] cur[k].0) && ids[j] == cur[k].1 by {
            if k < prev.len() {
                assert(cur[k] == prev[k]);
                let j = choose|j: int|
                    0 <= j < n - 1 && j < found.len() && found[j] == Some(#[trigger] prev[k].0) && ids[j] == prev[k].1;
                assert(0 <= j < n && j < found.len() && found[j] == Some(cur[k].0) && ids[j] == cur[k].1);
            } else {
                let j = n - 1;
                assert(0 <= j < n && j < found.len() && found[j] == Some(cur[k].0) && ids[j] == cur[k].1);
            }
        }
    }
}

/// Whether a request naming `n` object ids is within the bound.
pub fn check_object_id_count(n: usize) -> (r: Result<(), ServiceError>)
    ensures
        r is Ok <==> n <= MAX_OBJECT_IDS_PER_QUERY,
        r is Err ==> r == Err::<(), ServiceError>(ServiceError::TooManyObjectIds),
{
    if n > MAX_OBJECT_IDS_PER_QUERY {
        Err(ServiceError::TooManyObjectIds)
    } else {
        Ok(())
    }
}

/// How many of the flags are set.
pub open spec fn count_set(flags: Seq<bool>) -> nat
    decreases flags.len(),
{
    if flags.len() == 0 {
        0
    } else {
        count_set(flags.drop_last()) + if flags.last() {
            1nat
        } else {
            0nat
        }
    }
}

/// The values read for the flagged positions (`fetched`, in order, one for
/// each set flag) spread back over all positions: a flagged position gets
/// the next value read, any other position gets `None`.
pub open spec fn spread_spec<T>(flags: Seq<bool>, fetched: Seq<Option<T>>) -> Seq<Option<T>> {
    Seq::new(
        flags.len(),
        |i: int|
            if flags[i] {
                fetched[count_set(flags.take(i)) as int]
            } else {
                None
            },
    )
}

proof fn lemma_count_set_step(flags: Seq<bool>, i: int)
    requires
        0 <= i < flags.len(),
    ensures
        count_set(flags.take(i + 1)) == count_set(flags.take(i)) + if flags[i] {
            1nat
        } else {
            0nat
        },
{
    assert(flags.take(i + 1).drop_last() =~= flags.take(i));
}

proof fn lemma_count_set_prefix(flags: Seq<bool>, i: int)
    requires
        0 <= i <= flags.len(),
    ensures
        count_set(flags.take(i)) <= count_set(flags),
    decreases flags.len() - i,
{
    if i < flags.len() {
        lemma_count_set_step(flags, i);
        lemma_count_set_prefix(flags, i + 1);
    } else {
        assert(flags.take(i) =~= flags);
    }
}

/// Spreads the values read for the flagged positions back over all
/// positions (see `spread_spec`); there is a value for each set flag.
pub fn spread_over_flags<T>(flags: &Vec<bool>, fetched: Vec<Option<T>>) -> (r: Vec<Option<T>>)
    requires
        count_set(flags@) <= fetched@.len(),
    ensures
        r@ == spread_spec(flags@, fetched@),
{
    let ghost orig = fetched@;
    let mut fetched = fetched;
    let n = fetched.len();
    let mut r: Vec<Option<T>> = Vec::new();
    let mut j: usize = 0;
    for i in 0..flags.len()
        invariant
            j == count_set(flags@.take(i as int)),
            count_set(flags@) <= orig.len(),
            orig.len() == n,
            fetched@.len() == orig.len(),
            forall|k: int| j <= k < orig.len() ==> fetched@[k] == orig[k],
            r@ == spread_spec(flags@.take(i as int), orig),
    {
        proof {
            lemma_count_set_step(flags@, i as int);
            lemma_count_set_prefix(flags@, i + 1);
        }
        if flags[i] {
            let v = fetched[j].take();
            r.push(v);
            j = j + 1;
        } else {
            r.push(None);
        }
        proof {
            assert forall|k: int| 0 <= k < i + 1 implies #[trigger] flags@.take(i + 1).take(k) == flags@.take(k) by {
                assert(flags@.take(i + 1).take(k) =~= flags@.take(k));
            }
            assert forall|k: int| 0 <= k < i implies #[trigger] flags@.take(i as int).take(k) == flags@.take(k) by {
                assert(flags@.take(i as int).take(k) =~= flags@.take(k));
            }
            assert(r@ =~= spread_spec(flags@.take(i + 1), orig));
        }
    }
    proof {
        assert(flags@.take(flags@.len() as int) =~= flags@);
    }
    r
}

/// The tables of the indexer that a repair is asked for.
#[derive(Debug, Clone, Copy, PartialEq, Eq, Structural)]
pub enum RepairIndexerType {
    ObjectState,
    Transaction,
    Event,
}

/// The answer to a request to repair the indexer's table of kind
/// `repair_type`, with `object_ids` the ids the request names (`None` when
/// it names something else): only the object-state tables are repaired, by
/// object ids, and at most `MAX_OBJECT_IDS_PER_QUERY` of them.
pub open spec fn repair_target_spec(repair_type: RepairIndexerType, object_ids: Option<Seq<String>>) -> Result<
    Seq<String>,
    ServiceError,
> {
    match repair_type {
        RepairIndexerType::ObjectState => match object_ids {
            Some(ids) => if ids.len() > MAX_OBJECT_IDS_PER_QUERY {
                Err(ServiceError::TooManyObjectIds)
            } else {
                Ok(ids)
            },
            None => Err(ServiceError::InvalidObjectStateRepairParams),
        },
        RepairIndexerType::Transaction => Err(ServiceError::TransactionRepairNotSupported),
        RepairIndexerType::Event => Err(ServiceError::EventRepairNotSupported),
    }
}

/// The object ids whose states a repair of the indexer goes over, or why the
/// request is refused.
pub fn repair_target(repair_type: RepairIndexerType, object_ids: Option<Vec<String>>) -> (r: Result<
    Vec<String>,
    ServiceError,
>)
    ensures
        match (r, repair_target_spec(repair_type, match object_ids {
            Some(v) => Some(v@),
            None => None,
        })) {
            (Ok(v), Ok(s)) => v@ == s,
            (Err(e), Err(f)) => e == f,
            _ => false,
        },
{
    match repair_type {
        RepairIndexerType::ObjectState => match object_ids {
            Some(ids) => {
                if ids.len() > MAX_OBJECT_IDS_PER_QUERY {
                    Err(ServiceError::TooManyObjectIds)
                } else {
                    Ok(ids)
                }
            },
            None => Err(ServiceError::InvalidObjectStateRepairParams),
        },
        RepairIndexerType::Transaction => Err(ServiceError::TransactionRepairNotSupported),
        RepairIndexerType::Event => Err(ServiceError::EventRepairNotSupported),
    }
}

/// Only repairs of the object-state tables by at most 100 object ids are
/// taken on, and they go over exactly the ids named; the other tables are
/// refused whatever the request names.
pub proof fn lemma_repair_target_accepts_only_bounded_object_ids(
    repair_type: RepairIndexerType,
    object_ids: Option<Seq<String>>,
)
    ensures
        repair_target_spec(repair_type, object_ids) is Ok <==> (repair_type == RepairIndexerType::ObjectState
            && (object_ids matches Some(ids) && ids.len() <= 100)),
        repair_target_spec(repair_type, object_ids) matches Ok(ids) ==> object_ids == Some(ids),
        repair_type == RepairIndexerType::Transaction ==> repair_target_spec(repair_type, object_ids)
            == Err::<Seq<String>, ServiceError>(ServiceError::TransactionRepairNotSupported),
        repair_type == RepairIndexerType::Event ==> repair_target_spec(repair_type, object_ids) == Err::<
            Seq<String>,
            ServiceError,
        >(ServiceError::EventRepairNotSupported),
{
}

} // verus!
