//! Repairing the indexer's table of a kind of object state against the
//! states themselves: which objects to update and which to remove, and the
//! positions the updated rows get.

use crate::indexer::reader::{IndexerStateID, ObjectStateType};
use vstd::prelude::*;

verus! {

/// What the repair reads of an object's state: its id and whether its type
/// is the UTXO type or the inscription type.
#[derive(Debug, Clone, PartialEq, Eq)]
pub struct StateSummary {
    pub id: String,
    pub is_utxo: bool,
    pub is_inscription: bool,
}

/// Whether a state belongs in the table of a kind. For the table of plain
/// object states the test is that the type is not both the UTXO and the
/// inscription type, which every state passes.
pub open spec fn kind_matches(s: StateSummary, st: ObjectStateType) -> bool {
    match st {
        ObjectStateType::ObjectState => !(s.is_utxo && s.is_inscription),
        ObjectStateType::UTXO => s.is_utxo,
        ObjectStateType::Inscription => s.is_inscription,
    }
}

/// `j` is the first position of the id `id` in `acc`.
pub open spec fn is_first_id(acc: Seq<(Seq<char>, int)>, id: Seq<char>, j: int) -> bool {
    &&& 0 <= j < acc.len()
    &&& acc[j].0 == id
    &&& forall|k: int| 0 <= k < j ==> acc[k].0 != id
}

/// The list with the state `i` for the id: in place of the id's entry when
/// it has one, else appended.
pub open spec fn upsert(acc: Seq<(Seq<char>, int)>, id: Seq<char>, i: int) -> Seq<(Seq<char>, int)> {
    if exists|j: int| is_first_id(acc, id, j) {
        acc.update(choose|j: int| is_first_id(acc, id, j), (id, i))
    } else {
        acc.push((id, i))
    }
}

/// The objects to update: for each id whose state belongs in the table, in
/// the order the ids first come, the position of its last state.
pub open spec fn selected_spec(s: Seq<Option<StateSummary>>, st: ObjectStateType) -> Seq<(Seq<char>, int)>
    decreases s.len(),
{
    if s.len() == 0 {
        Seq::empty()
    } else {
        let acc = selected_spec(s.drop_last(), st);
        match s.last() {
            Some(x) => if kind_matches(x, st) {
                upsert(acc, x.id@, s.len() - 1)
            } else {
                acc
            },
            None => acc,
        }
    }
}

/// The objects to remove from the table: those whose state is gone.
pub open spec fn removed_spec(s: Seq<Option<StateSummary>>, ids: Seq<String>) -> Seq<Seq<char>>
    decreases s.len(),
{
    if s.len() == 0 {
        Seq::empty()
    } else {
        let acc = removed_spec(s.drop_last(), ids);
        match s.last() {
            Some(_) => acc,
            None => acc.push(ids[s.len() - 1]@),
        }
    }
}

/// The objects a repair updates (by id, with the position of the state to
/// write) and removes (by id).
#[derive(Debug, Clone, PartialEq, Eq)]
pub struct RepairSelection {
    pub update: Vec<(String, usize)>,
    pub remove: Vec<String>,
}

pub open spec fn pairs_view(v: Seq<(String, usize)>) -> Seq<(Seq<char>, int)> {
    v.map_values(|p: (String, usize)| (p.0@, p.1 as int))
}

pub open spec fn ids_view(v: Seq<String>) -> Seq<Seq<char>> {
    v.map_values(|s: String| s@)
}

fn kind_matches_exec(s: &StateSummary, st: ObjectStateType) -> (r: bool)
    ensures
        r == kind_matches(*s, st),
{
    match st {
        ObjectStateType::ObjectState => !(s.is_utxo && s.is_inscription),
        ObjectStateType::UTXO => s.is_utxo,
        ObjectStateType::Inscription => s.is_inscription,
    }
}

fn upsert_exec(acc: &mut Vec<(String, usize)>, id: &String, i: usize)
    ensures
        pairs_view(final(acc)@) == upsert(pairs_view(old(acc)@), id@, i as int),
{
    let ghost a = pairs_view(acc@);
    let mut j: usize = 0;
    while j < acc.len()
        invariant
            0 <= j <= acc@.len(),
            a == pairs_view(acc@),
            a == pairs_view(old(acc)@),
            forall|k: int| 0 <= k < j ==> a[k].0 != id@,
        decreases acc@.len() - j,
    {
        if acc[j].0 == *id {
            proof {
                assert(is_first_id(a, id@, j as int));
                assert forall|m: int| is_first_id(a, id@, m) implies m == j by {
                    if m < j {
                        assert(a[m].0 != id@);
                    } else if m > j {
                        assert(a[j as int].0 == id@);
                    }
                }
            }
            acc.set(j, (id.clone(), i));
            proof {
                assert(pairs_view(acc@) =~= upsert(a, id@, i as int));
            }
            return;
        }
        j = j + 1;
    }
    acc.push((id.clone(), i));
    proof {
        assert(pairs_view(acc@) =~= upsert(a, id@, i as int));
    }
}

/// Picks, among the states of the requested objects (`None` where an
/// object is gone), those to write to the table of the kind `state_type`,
/// and the objects to remove from it.
pub fn select_object_states_to_repair(
    states: &Vec<Option<StateSummary>>,
    object_ids: &Vec<String>,
    state_type: ObjectStateType,
) -> (r: RepairSelection)
    requires
        forall|i: int| 0 <= i < states@.len() && states@[i] is None ==> i < object_ids@.len(),
    ensures
        pairs_view(r.update@) == selected_spec(states@, state_type),
        ids_view(r.remove@) == removed_spec(states@, object_ids@),
{
    let mut update: Vec<(String, usize)> = Vec::new();
    let mut remove: Vec<String> = Vec::new();
    let mut i: usize = 0;
    while i < states.len()
        invariant
            0 <= i <= states@.len(),
            forall|k: int| 0 <= k < states@.len() && states@[k] is None ==> k < object_ids@.len(),
            pairs_view(update@) == selected_spec(states@.take(i as int), state_type),
            ids_view(remove@) == removed_spec(states@.take(i as int), object_ids@),
        decreases states@.len() - i,
    {
        proof {
            assert(states@.take(i + 1).drop_last() =~= states@.take(i as int));
        }
        match &states[i] {
            Some(s) => {
                if kind_matches_exec(s, state_type) {
                    upsert_exec(&mut update, &s.id, i);
                }
            },
            None => {
                let ghost before = remove@;
                remove.push(object_ids[i].clone());
                proof {
                    assert(ids_view(remove@) =~= ids_view(before).push(object_ids@[i as int]@));
                }
            },
        }
        i = i + 1;
    }
    proof {
        assert(states@.take(states@.len() as int) =~= states@);
    }
    RepairSelection { update, remove }
}

/// A row to write: the state at a position of the requested ones, with the
/// transaction order and state index it is written under.
#[derive(Debug, Copy, Clone, PartialEq, Eq, Structural)]
pub struct RepairUpdate {
    pub state: usize,
    pub tx_order: u64,
    pub state_index: u64,
}

/// Why a repair failed.
#[derive(Debug, Clone, PartialEq, Eq)]
pub enum RepairError {
    /// The indexer returned an object that the repair did not ask for.
    UnexpectedObject(String),
}

/// The entry of `id` among the selected objects, if any.
pub open spec fn find_selected(sel: Seq<(Seq<char>, int)>, id: Seq<char>) -> Option<int> {
    if exists|j: int| is_first_id(sel, id, j) {
        Some(sel[choose|j: int| is_first_id(sel, id, j)].1)
    } else {
        None
    }
}

/// The rows of the objects the indexer has, in the order it returned them,
/// each at the position the indexer holds; `None` when it returned an
/// object that was not asked for.
pub open spec fn found_rows_spec(sel: Seq<(Seq<char>, int)>, found: Seq<(Seq<char>, u64, u64)>) -> Option<Seq<RepairUpdate>>
    decreases found.len(),
{
    if found.len() == 0 {
        Some(Seq::empty())
    } else {
        match found_rows_spec(sel, found.drop_last()) {
            None => None,
            Some(acc) => {
                let (id, t, si) = found.last();
                match find_selected(sel, id) {
                    Some(i) => Some(acc.push(RepairUpdate { state: i as usize, tx_order: t, state_index: si })),
                    None => None,
                }
            },
        }
    }
}

/// Whether the indexer returned the id.
pub open spec fn is_found(found: Seq<(Seq<char>, u64, u64)>, id: Seq<char>) -> bool {
    exists|k: int| 0 <= k < found.len() && found[k].0 == id
}

/// The rows of the selected objects the indexer does not have yet, in the
/// order of the selection, at transaction order 0 and state indexes
/// counting up from `next`.
pub open spec fn new_rows_spec(sel: Seq<(Seq<char>, int)>, found: Seq<(Seq<char>, u64, u64)>, next: int) -> Seq<RepairUpdate>
    decreases sel.len(),
{
    if sel.len() == 0 {
        Seq::empty()
    } else {
        let acc = new_rows_spec(sel.drop_last(), found, next);
        if is_found(found, sel.last().0) {
            acc
        } else {
            acc.push(RepairUpdate { state: sel.last().1 as usize, tx_order: 0, state_index: (next + acc.len()) as u64 })
        }
    }
}

pub open spec fn found_view(v: Seq<(String, IndexerStateID)>) -> Seq<(Seq<char>, u64, u64)> {
    v.map_values(|p: (String, IndexerStateID)| (p.0@, p.1.tx_order, p.1.state_index))
}

/// The state index the new rows start from: after the last index written by
/// the genesis transaction, or 0.
pub open spec fn first_new_index(last_state_index: Option<u64>) -> int {
    match last_state_index {
        Some(x) => x + 1,
        None => 0,
    }
}

/// Whether some selected object is missing from what the indexer returned;
/// the repair then needs the last state index written by the genesis
/// transaction.
pub fn has_new_objects(selected: &Vec<(String, usize)>, found: &Vec<(String, IndexerStateID)>) -> (r: bool)
    ensures
        r == (exists|j: int| 0 <= j < selected@.len() && !is_found(found_view(found@), selected@[j].0@)),
{
    let mut j: usize = 0;
    while j < selected.len()
        invariant
            0 <= j <= selected@.len(),
            forall|m: int| 0 <= m < j ==> is_found(found_view(found@), #[trigger] selected@[m].0@),
        decreases selected@.len() - j,
    {
        if !contains_found(found, &selected[j].0) {
            return true;
        }
        j = j + 1;
    }
    false
}

fn contains_found(found: &Vec<(String, IndexerStateID)>, id: &String) -> (r: bool)
    ensures
        r == is_found(found_view(found@), id@),
{
    let ghost fv = found_view(found@);
    let mut k: usize = 0;
    while k < found.len()
        invariant
            0 <= k <= found@.len(),
            fv == found_view(found@),
            forall|m: int| 0 <= m < k ==> fv[m].0 != id@,
        decreases found@.len() - k,
    {
        if found[k].0 == *id {
            proof {
                assert(fv[k as int].0 == id@);
            }
            return true;
        }
        k = k + 1;
    }
    false
}

fn find_selected_exec(selected: &Vec<(String, usize)>, id: &String) -> (r: Option<usize>)
    ensures
        match find_selected(pairs_view(selected@), id@) {
            Some(i) => r == Some(i as usize),
            None => r is None,
        },
{
    let ghost a = pairs_view(selected@);
    let mut j: usize = 0;
    while j < selected.len()
        invariant
            0 <= j <= selected@.len(),
            a == pairs_view(selected@),
            forall|k: int| 0 <= k < j ==> a[k].0 != id@,
        decreases selected@.len() - j,
    {
        if selected[j].0 == *id {
            proof {
                assert(is_first_id(a, id@, j as int));
                assert forall|m: int| is_first_id(a, id@, m) implies m == j by {
                    if m < j {
                        assert(a[m].0 != id@);
                    } else if m > j {
                        assert(a[j as int].0 == id@);
                    }
                }
            }
            return Some(selected[j].1);
        }
        j = j + 1;
    }
    None
}

/// The rows a repair writes: those of the selected objects the indexer
/// returned (at their positions there), then those it does not have, at
/// transaction order 0 and state indexes counting up from just after
/// `last_state_index` (the last index of the genesis transaction, read by
/// the caller when some object is new). Fails when the indexer returned an
/// object that was not selected.
pub fn repair_rows(
    selected: &Vec<(String, usize)>,
    found: &Vec<(String, IndexerStateID)>,
    last_state_index: Option<u64>,
) -> (r: Result<Vec<RepairUpdate>, RepairError>)
    requires
        first_new_index(last_state_index) + selected@.len() <= u64::MAX,
    ensures
        match found_rows_spec(pairs_view(selected@), found_view(found@)) {
            None => r is Err,
            Some(rows) => r matches Ok(v) && v@ == rows + new_rows_spec(
                pairs_view(selected@),
                found_view(found@),
                first_new_index(last_state_index),
            ),
        },
{
    let ghost sel = pairs_view(selected@);
    let ghost fv = found_view(found@);
    let mut rows: Vec<RepairUpdate> = Vec::new();
    let mut k: usize = 0;
    while k < found.len()
        invariant
            0 <= k <= found@.len(),
            sel == pairs_view(selected@),
            fv == found_view(found@),
            found_rows_spec(sel, fv.take(k as int)) == Some(rows@),
        decreases found@.len() - k,
    {
        proof {
            assert(fv.take(k + 1).drop_last() =~= fv.take(k as int));
        }
        match find_selected_exec(selected, &found[k].0) {
            Some(i) => {
                rows.push(RepairUpdate { state: i, tx_order: found[k].1.tx_order, state_index: found[k].1.state_index });
            },
            None => {
                proof {
                    lemma_found_rows_none_extends(sel, fv, k as int + 1);
                }
                return Err(RepairError::UnexpectedObject(found[k].0.clone()));
            },
        }
        k = k + 1;
    }
    proof {
        assert(fv.take(fv.len() as int) =~= fv);
    }
    let ghost found_rows = rows@;
    let next: u64 = match last_state_index {
        Some(x) => x + 1,
        None => 0,
    };
    let mut generator: u64 = next;
    let mut j: usize = 0;
    while j < selected.len()
        invariant
            0 <= j <= selected@.len(),
            sel == pairs_view(selected@),
            fv == found_view(found@),
            next == first_new_index(last_state_index),
            next + selected@.len() <= u64::MAX,
            rows@ == found_rows + new_rows_spec(sel.take(j as int), fv, next as int),
            generator == next + new_rows_spec(sel.take(j as int), fv, next as int).len(),
            new_rows_spec(sel.take(j as int), fv, next as int).len() <= j,
        decreases selected@.len() - j,
    {
        proof {
            assert(sel.take(j + 1).drop_last() =~= sel.take(j as int));
        }
        if !contains_found(found, &selected[j].0) {
            rows.push(RepairUpdate { state: selected[j].1, tx_order: 0, state_index: generator });
            generator = generator + 1;
        }
        proof {
            let acc = new_rows_spec(sel.take(j as int), fv, next as int);
            assert(sel.take(j + 1).last() == sel[j as int]);
            assert(rows@ =~= found_rows + new_rows_spec(sel.take(j + 1), fv, next as int));
        }
        j = j + 1;
    }
    proof {
        assert(sel.take(sel.len() as int) =~= sel);
    }
    Ok(rows)
}

/// Once an object the indexer returned is not selected, the rows of every
/// longer prefix fail too.
proof fn lemma_found_rows_none_extends(sel: Seq<(Seq<char>, int)>, fv: Seq<(Seq<char>, u64, u64)>, n: int)
    requires
        0 < n <= fv.len(),
        find_selected(sel, fv[n - 1].0) is None,
    ensures
        found_rows_spec(sel, fv.take(n)) is None,
        found_rows_spec(sel, fv) is None,
    decreases fv.len() - n,
{
    assert(fv.take(n).drop_last() =~= fv.take(n - 1));
    assert(fv.take(n).last() == fv[n - 1]);
    if n < fv.len() {
        lemma_found_rows_prefix_none(sel, fv, n);
    } else {
        assert(fv.take(n) =~= fv);
    }
}

proof fn lemma_found_rows_prefix_none(sel: Seq<(Seq<char>, int)>, fv: Seq<(Seq<char>, u64, u64)>, n: int)
    requires
        0 < n <= fv.len(),
        found_rows_spec(sel, fv.take(n)) is None,
    ensures
        found_rows_spec(sel, fv) is None,
    decreases fv.len() - n,
{
    if n < fv.len() {
        assert(fv.take(n + 1).drop_last() =~= fv.take(n));
        lemma_found_rows_prefix_none(sel, fv, n + 1);
    } else {
        assert(fv.take(n) =~= fv);
    }
}

/// Each selected object is selected once, and its entry points at a state
/// of that object that belongs in the table, the last such state.
pub proof fn lemma_selection_well_formed(s: Seq<Option<StateSummary>>, st: ObjectStateType)
    ensures
        forall|j: int, k: int|
            0 <= j < k < selected_spec(s, st).len() ==> selected_spec(s, st)[j].0 != selected_spec(s, st)[k].0,
        forall|j: int|
            #![trigger selected_spec(s, st)[j]]
            0 <= j < selected_spec(s, st).len() ==> {
                let (id, i) = selected_spec(s, st)[j];
                &&& 0 <= i < s.len()
                &&& s[i] matches Some(x) && x.id@ == id && kind_matches(x, st)
                &&& forall|m: int| i < m < s.len() ==> !(#[trigger] s[m] matches Some(y) && y.id@ == id && kind_matches(y, st))
            },
    decreases s.len(),
{
    if s.len() > 0 {
        let t = s.drop_last();
        lemma_selection_well_formed(t, st);
        let acc = selected_spec(t, st);
        let n = s.len() - 1;
        assert forall|m: int| 0 <= m < t.len() implies t[m] == s[m] by {}
        match s.last() {
            Some(x) => if kind_matches(x, st) {
                if exists|j: int| is_first_id(acc, x.id@, j) {
                    let j0 = choose|j: int| is_first_id(acc, x.id@, j);
                    assert(selected_spec(s, st) == acc.update(j0, (x.id@, n)));
                } else {
                    assert forall|j: int| 0 <= j < acc.len() implies acc[j].0 != x.id@ by {
                        if acc[j].0 == x.id@ {
                            lemma_first_id_exists(acc, x.id@, j);
                        }
                    }
                    assert(selected_spec(s, st) == acc.push((x.id@, n)));
                }
            } else {
                assert(selected_spec(s, st) == acc);
            },
            None => {
                assert(selected_spec(s, st) == acc);
            },
        }
    }
}

proof fn lemma_first_id_exists(acc: Seq<(Seq<char>, int)>, id: Seq<char>, j: int)
    requires
        0 <= j < acc.len(),
        acc[j].0 == id,
    ensures
        exists|i: int| is_first_id(acc, id, i),
    decreases j,
{
    if exists|m: int| 0 <= m < j && acc[m].0 == id {
        let m = choose|m: int| 0 <= m < j && acc[m].0 == id;
        lemma_first_id_exists(acc, id, m);
    } else {
        assert(is_first_id(acc, id, j));
    }
}

/// The rows of new objects get consecutive state indexes from `next`, at
/// transaction order 0, one for each selected object the indexer lacks.
pub proof fn lemma_new_rows_consecutive(sel: Seq<(Seq<char>, int)>, found: Seq<(Seq<char>, u64, u64)>, next: int)
    requires
        0 <= next,
        next + sel.len() <= u64::MAX,
    ensures
        new_rows_spec(sel, found, next).len() <= sel.len(),
        forall|k: int|
            #![trigger new_rows_spec(sel, found, next)[k]]
            0 <= k < new_rows_spec(sel, found, next).len() ==> new_rows_spec(sel, found, next)[k].tx_order == 0
                && new_rows_spec(sel, found, next)[k].state_index == next + k,
    decreases sel.len(),
{
    if sel.len() > 0 {
        lemma_new_rows_consecutive(sel.drop_last(), found, next);
    }
}

} // verus!
