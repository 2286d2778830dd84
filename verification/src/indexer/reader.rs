//! The SQL text of the indexer's filtered queries over transactions,
//! events, object states and fields: the filter, the cursor position, the
//! order and the page, as the reader sends them to the database.

use crate::indexer::query::{
    ObjectTypeFilter, not_object_type_query, not_object_type_query_spec, object_type_query,
    object_type_query_spec,
};
use crate::text::{
    decimal_chars, push_char, signed_decimal_chars, write_decimal, write_signed_decimal,
};
use vstd::prelude::*;

verus! {

pub const TX_ORDER_STR: &'static str = "tx_order";
pub const TX_HASH_STR: &'static str = "tx_hash";
pub const TX_SENDER_STR: &'static str = "sender";
pub const CREATED_AT_STR: &'static str = "created_at";
pub const OBJECT_ID_STR: &'static str = "id";
pub const EVENT_HANDLE_ID_STR: &'static str = "event_handle_id";
pub const EVENT_INDEX_STR: &'static str = "event_index";
pub const EVENT_SEQ_STR: &'static str = "event_seq";
pub const EVENT_TYPE_STR: &'static str = "event_type";
pub const STATE_OBJECT_ID_STR: &'static str = "id";
pub const STATE_INDEX_STR: &'static str = "state_index";
pub const STATE_OWNER_STR: &'static str = "owner";
pub const PARENT_OBJECT_ID_STR: &'static str = "parent_id";
pub const SORT_KEY_STR: &'static str = "sort_key";

/// Why the indexer refused a query.
#[derive(Debug, Clone, PartialEq, Eq)]
pub enum IndexerError {
    /// The filter is not supported by this query.
    NotSupportedError(String),
    /// Reading the database failed.
    SQLiteReadError(String),
}

/// The position of an event: the order of its transaction and its index
/// among the transaction's events.
#[derive(Debug, Copy, Clone, PartialEq, Eq, Structural)]
pub struct IndexerEventID {
    pub tx_order: u64,
    pub event_index: u64,
}

/// The position of an object state: the order of the transaction that
/// wrote it and its index among the transaction's states.
#[derive(Debug, Copy, Clone, PartialEq, Eq, Structural)]
pub struct IndexerStateID {
    pub tx_order: u64,
    pub state_index: u64,
}

/// Which events a query selects. Types, addresses, handles and hashes are
/// held as the text the database stores: a struct tag, an address as a hex
/// literal, an object id, and a transaction hash as `0x` and its hex digits.
#[derive(Debug, Clone, PartialEq, Eq)]
pub enum EventFilter {
    EventTypeWithSender { event_type: String, sender: String },
    EventType(String),
    EventHandleWithSender { event_handle_id: String, sender: String },
    EventHandle(String),
    Sender(String),
    TxHash(String),
    TimeRange { start_time: u64, end_time: u64 },
    TxOrderRange { from_order: u64, to_order: u64 },
    All,
}

/// A text between double quotes.
pub open spec fn quote(s: Seq<char>) -> Seq<char> {
    seq!['"'] + s + seq!['"']
}

/// The decimal text of an integer.
pub open spec fn dec(n: int) -> Seq<char> {
    signed_decimal_chars(n)
}

/// The condition on a half-open range of a column: `(col >= from AND col < to)`.
pub open spec fn range_clause(col: Seq<char>, from: u64, to: u64) -> Seq<char> {
    seq!['('] + col + " >= "@ + dec(from as int) + " AND "@ + col + " < "@ + dec(to as int) + seq![')']
}

/// The condition of an event filter, or `None` for the filter that selects
/// every event, which this query does not support.
pub open spec fn event_where_spec(f: EventFilter) -> Option<Seq<char>> {
    match f {
        EventFilter::EventTypeWithSender { event_type, sender } => Some(
            "sender = "@ + quote(sender@) + " AND event_type = "@ + quote(event_type@),
        ),
        EventFilter::EventType(t) => Some("event_type = "@ + quote(t@)),
        EventFilter::EventHandleWithSender { event_handle_id, sender } => Some(
            "sender = "@ + quote(sender@) + " AND event_handle_id = "@ + quote(event_handle_id@),
        ),
        EventFilter::EventHandle(h) => Some("event_handle_id = "@ + quote(h@)),
        EventFilter::Sender(s) => Some("sender = "@ + quote(s@)),
        EventFilter::TxHash(h) => Some("tx_hash = "@ + quote(h@)),
        EventFilter::TimeRange { start_time, end_time } => Some(range_clause("created_at"@, start_time, end_time)),
        EventFilter::TxOrderRange { from_order, to_order } => Some(range_clause("tx_order"@, from_order, to_order)),
        EventFilter::All => None,
    }
}

/// The condition that keeps the rows strictly after the position
/// `(tx_order, index)` in the order of the query.
pub open spec fn after_position_clause(index_col: Seq<char>, tx_order: i64, index: i64, descending: bool) -> Seq<char> {
    let op = if descending { " < "@ } else { " > "@ };
    "(tx_order"@ + op + dec(tx_order as int) + " OR (tx_order = "@ + dec(tx_order as int) + " AND "@
        + index_col + op + dec(index as int) + "))"@
}

/// The order of rows by transaction order, then by the index column.
pub open spec fn two_column_order(first: Seq<char>, second: Seq<char>, descending: bool) -> Seq<char> {
    let dir = if descending { " DESC"@ } else { " ASC"@ };
    first + dir + ", "@ + second + dir
}

/// The text around a query: a line break and indentation before it, and a
/// line break and indentation after it.
pub open spec fn framed(body: Seq<char>) -> Seq<char> {
    "\n                "@ + body + "\n            "@
}

/// The query for the events that match the filter, after the position
/// `(tx_order, event_index)` in the order asked for, at most `limit` rows.
pub open spec fn events_query_spec(
    f: EventFilter,
    tx_order: i64,
    event_index: i64,
    limit: usize,
    descending: bool,
) -> Option<Seq<char>> {
    match event_where_spec(f) {
        None => None,
        Some(w) => Some(
            framed(
                "SELECT * FROM events WHERE "@ + w + " AND "@ + after_position_clause(
                    "event_index"@,
                    tx_order,
                    event_index,
                    descending,
                ) + " ORDER BY "@ + two_column_order("tx_order"@, "event_index"@, descending)
                    + " LIMIT "@ + decimal_chars(limit as nat),
            ),
        ),
    }
}

/// Appends `v` between double quotes.
fn push_quoted(q: &mut String, v: &str)
    ensures
        final(q)@ == old(q)@ + quote(v@),
{
    push_char(q, '"');
    q.append(v);
    push_char(q, '"');
    proof {
        assert(q@ =~= old(q)@ + quote(v@));
    }
}

fn push_dec(q: &mut String, n: i64)
    ensures
        final(q)@ == old(q)@ + dec(n as int),
{
    write_signed_decimal(n, q);
}

fn push_range(q: &mut String, col: &str, from: u64, to: u64)
    ensures
        final(q)@ == old(q)@ + range_clause(col@, from, to),
{
    push_char(q, '(');
    q.append(col);
    q.append(" >= ");
    write_decimal(from, q);
    q.append(" AND ");
    q.append(col);
    q.append(" < ");
    write_decimal(to, q);
    push_char(q, ')');
    proof {
        assert(q@ =~= old(q)@ + range_clause(col@, from, to));
    }
}

fn push_after_position(q: &mut String, index_col: &str, tx_order: i64, index: i64, descending: bool)
    ensures
        final(q)@ == old(q)@ + after_position_clause(index_col@, tx_order, index, descending),
{
    let op = if descending { " < " } else { " > " };
    q.append("(tx_order");
    q.append(op);
    push_dec(q, tx_order);
    q.append(" OR (tx_order = ");
    push_dec(q, tx_order);
    q.append(" AND ");
    q.append(index_col);
    q.append(op);
    push_dec(q, index);
    q.append("))");
    proof {
        assert(q@ =~= old(q)@ + after_position_clause(index_col@, tx_order, index, descending));
    }
}

fn push_two_column_order(q: &mut String, first: &str, second: &str, descending: bool)
    ensures
        final(q)@ == old(q)@ + two_column_order(first@, second@, descending),
{
    let dir = if descending { " DESC" } else { " ASC" };
    q.append(first);
    q.append(dir);
    q.append(", ");
    q.append(second);
    q.append(dir);
    proof {
        assert(q@ =~= old(q)@ + two_column_order(first@, second@, descending));
    }
}

/// Appends the condition of an event filter; fails for the filter that
/// selects every event.
fn push_event_where(q: &mut String, filter: &EventFilter) -> (r: bool)
    ensures
        r == (event_where_spec(*filter) is Some),
        event_where_spec(*filter) matches Some(w) ==> final(q)@ == old(q)@ + w,
{
    match filter {
        EventFilter::EventTypeWithSender { event_type, sender } => {
            q.append("sender = ");
            push_quoted(q, sender.as_str());
            q.append(" AND event_type = ");
            push_quoted(q, event_type.as_str());
        },
        EventFilter::EventType(t) => {
            q.append("event_type = ");
            push_quoted(q, t.as_str());
        },
        EventFilter::EventHandleWithSender { event_handle_id, sender } => {
            q.append("sender = ");
            push_quoted(q, sender.as_str());
            q.append(" AND event_handle_id = ");
            push_quoted(q, event_handle_id.as_str());
        },
        EventFilter::EventHandle(h) => {
            q.append("event_handle_id = ");
            push_quoted(q, h.as_str());
        },
        EventFilter::Sender(s) => {
            q.append("sender = ");
            push_quoted(q, s.as_str());
        },
        EventFilter::TxHash(h) => {
            q.append("tx_hash = ");
            push_quoted(q, h.as_str());
        },
        EventFilter::TimeRange { start_time, end_time } => {
            push_range(q, "created_at", *start_time, *end_time);
        },
        EventFilter::TxOrderRange { from_order, to_order } => {
            push_range(q, "tx_order", *from_order, *to_order);
        },
        EventFilter::All => {
            return false;
        },
    }
    proof {
        assert(q@ =~= old(q)@ + event_where_spec(*filter)->Some_0);
    }
    true
}

/// The query for the events that match the filter, after the position
/// `(tx_order, event_index)` in the order asked for, at most `limit` rows;
/// the filter that selects every event is not supported.
pub fn events_query(
    filter: &EventFilter,
    tx_order: i64,
    event_index: i64,
    limit: usize,
    descending_order: bool,
) -> (r: Result<String, IndexerError>)
    ensures
        match events_query_spec(*filter, tx_order, event_index, limit, descending_order) {
            Some(q) => r matches Ok(s) && s@ == q,
            None => r matches Err(IndexerError::NotSupportedError(m)) && m@ == "Not implemented"@,
        },
{
    let mut q = String::from_str("\n                ");
    q.append("SELECT * FROM events WHERE ");
    if !push_event_where(&mut q, filter) {
        return Err(IndexerError::NotSupportedError(String::from_str("Not implemented")));
    }
    q.append(" AND ");
    push_after_position(&mut q, "event_index", tx_order, event_index, descending_order);
    q.append(" ORDER BY ");
    push_two_column_order(&mut q, "tx_order", "event_index", descending_order);
    q.append(" LIMIT ");
    write_decimal(limit as u64, &mut q);
    q.append("\n            ");
    proof {
        let w = event_where_spec(*filter)->Some_0;
        assert(q@ =~= events_query_spec(*filter, tx_order, event_index, limit, descending_order)->Some_0);
    }
    Ok(q)
}

/// The position a query of events starts after: the cursor when one is
/// given; otherwise, in descending order, just after the last event (read by
/// the caller from the events table, `None` when the table is empty), and in
/// ascending order before every event.
pub open spec fn event_start_spec(
    cursor: Option<IndexerEventID>,
    descending: bool,
    latest_event: Option<(i64, i64)>,
) -> Option<(i64, i64)> {
    match cursor {
        Some(c) => Some((c.tx_order as i64, c.event_index as i64)),
        None => if descending {
            match latest_event {
                Some((t, i)) => Some((t, (i + 1) as i64)),
                None => None,
            }
        } else {
            Some((-1i64, 0i64))
        },
    }
}

/// Whether the read of the last event is used and fits the position.
pub open spec fn latest_event_fits(cursor: Option<IndexerEventID>, descending: bool, latest_event: Option<(i64, i64)>) -> bool {
    cursor is None && descending ==> (latest_event matches Some((t, i)) ==> i < i64::MAX)
}

/// The error of a read that found no row.
pub open spec fn is_record_not_found(e: IndexerError) -> bool {
    e matches IndexerError::SQLiteReadError(m) && m@ == "Record not found"@
}

/// The error of a filter that selects every row.
pub open spec fn is_not_implemented(e: IndexerError) -> bool {
    e matches IndexerError::NotSupportedError(m) && m@ == "Not implemented"@
}

fn record_not_found() -> (e: IndexerError)
    ensures
        is_record_not_found(e),
{
    IndexerError::SQLiteReadError(String::from_str("Record not found"))
}

fn not_implemented() -> (e: IndexerError)
    ensures
        is_not_implemented(e),
{
    IndexerError::NotSupportedError(String::from_str("Not implemented"))
}

/// The SQL text of a query of events: the filter's condition, the rows after
/// the cursor (or, without one, from the first or, descending, from the last
/// event, `latest_event`, which the caller reads from the table), the order
/// and the limit. Fails for the filter that selects every event, and when the
/// position needs the last event and the table has none.
pub fn query_events_with_filter(
    filter: &EventFilter,
    cursor: Option<IndexerEventID>,
    limit: usize,
    descending_order: bool,
    latest_event: Option<(i64, i64)>,
) -> (r: Result<String, IndexerError>)
    requires
        latest_event_fits(cursor, descending_order, latest_event),
    ensures
        match event_start_spec(cursor, descending_order, latest_event) {
            None => r matches Err(e) && is_record_not_found(e),
            Some((t, i)) => match events_query_spec(*filter, t, i, limit, descending_order) {
                Some(q) => r matches Ok(s) && s@ == q,
                None => r matches Err(e) && is_not_implemented(e),
            },
        },
{
    let (tx_order, event_index) = match cursor {
        Some(c) => (c.tx_order as i64, c.event_index as i64),
        None => {
            if descending_order {
                match latest_event {
                    Some((max_tx_order, event_index)) => (max_tx_order, event_index + 1),
                    None => {
                        return Err(record_not_found());
                    },
                }
            } else {
                (-1i64, 0i64)
            }
        },
    };
    match events_query(filter, tx_order, event_index, limit, descending_order) {
        Ok(q) => Ok(q),
        Err(_e) => Err(not_implemented()),
    }
}

/// Which transactions a query selects; senders are addresses as hex
/// literals and hashes are `0x` and their hex digits.
#[derive(Debug, Clone, PartialEq, Eq)]
pub enum TransactionFilter {
    Sender(String),
    TxHashes(Vec<String>),
    TimeRange { start_time: u64, end_time: u64 },
    TxOrderRange { from_order: u64, to_order: u64 },
    All,
}

/// The texts between double quotes, separated by commas.
pub open spec fn quoted_list(items: Seq<String>) -> Seq<char>
    decreases items.len(),
{
    if items.len() == 0 {
        Seq::<char>::empty()
    } else if items.len() == 1 {
        quote(items[0]@)
    } else {
        quoted_list(items.drop_last()) + seq![','] + quote(items.last()@)
    }
}

fn push_quoted_list(q: &mut String, items: &Vec<String>)
    ensures
        final(q)@ == old(q)@ + quoted_list(items@),
{
    let ghost q0 = q@;
    let mut i: usize = 0;
    while i < items.len()
        invariant
            0 <= i <= items@.len(),
            q@ == q0 + quoted_list(items@.take(i as int)),
        decreases items@.len() - i,
    {
        let ghost before = q@;
        if i > 0 {
            push_char(q, ',');
        }
        push_quoted(q, items[i].as_str());
        proof {
            let t = items@.take(i + 1);
            assert(t.drop_last() =~= items@.take(i as int));
            if i == 0 {
                assert(items@.take(0) =~= Seq::<String>::empty());
                assert(q@ =~= q0 + quoted_list(t));
            } else {
                assert(q@ =~= q0 + quoted_list(t));
            }
        }
        i = i + 1;
    }
    proof {
        assert(items@.take(items@.len() as int) =~= items@);
    }
}

/// The condition of a transaction filter, or `None` for the filter that
/// selects every transaction.
pub open spec fn transaction_where_spec(f: TransactionFilter) -> Option<Seq<char>> {
    match f {
        TransactionFilter::Sender(s) => Some("sender = "@ + quote(s@)),
        TransactionFilter::TxHashes(hs) => Some("tx_hash in ("@ + quoted_list(hs@) + ")"@),
        TransactionFilter::TimeRange { start_time, end_time } => Some(range_clause("created_at"@, start_time, end_time)),
        TransactionFilter::TxOrderRange { from_order, to_order } => Some(range_clause("tx_order"@, from_order, to_order)),
        TransactionFilter::All => None,
    }
}

/// The query for the transactions that match the filter, after the
/// transaction `tx_order` in the order asked for, at most `limit` rows.
pub open spec fn transactions_query_spec(f: TransactionFilter, tx_order: i64, limit: usize, descending: bool) -> Option<Seq<char>> {
    match transaction_where_spec(f) {
        None => None,
        Some(w) => Some(
            framed(
                "SELECT * FROM transactions WHERE "@ + w + " AND (tx_order"@ + (if descending {
                    " < "@
                } else {
                    " > "@
                }) + dec(tx_order as int) + ")"@ + " ORDER BY "@ + "tx_order"@ + (if descending {
                    " DESC"@
                } else {
                    " ASC"@
                }) + " LIMIT "@ + decimal_chars(limit as nat),
            ),
        ),
    }
}

fn push_transaction_where(q: &mut String, filter: &TransactionFilter) -> (r: bool)
    ensures
        r == (transaction_where_spec(*filter) is Some),
        transaction_where_spec(*filter) matches Some(w) ==> final(q)@ == old(q)@ + w,
{
    match filter {
        TransactionFilter::Sender(s) => {
            q.append("sender = ");
            push_quoted(q, s.as_str());
        },
        TransactionFilter::TxHashes(hs) => {
            q.append("tx_hash in (");
            push_quoted_list(q, hs);
            q.append(")");
        },
        TransactionFilter::TimeRange { start_time, end_time } => {
            push_range(q, "created_at", *start_time, *end_time);
        },
        TransactionFilter::TxOrderRange { from_order, to_order } => {
            push_range(q, "tx_order", *from_order, *to_order);
        },
        TransactionFilter::All => {
            return false;
        },
    }
    proof {
        assert(q@ =~= old(q)@ + transaction_where_spec(*filter)->Some_0);
    }
    true
}

/// The query for the transactions that match the filter, after the
/// transaction `tx_order` in the order asked for, at most `limit` rows; the
/// filter that selects every transaction is not supported.
pub fn transactions_query(
    filter: &TransactionFilter,
    tx_order: i64,
    limit: usize,
    descending_order: bool,
) -> (r: Result<String, IndexerError>)
    ensures
        match transactions_query_spec(*filter, tx_order, limit, descending_order) {
            Some(q) => r matches Ok(s) && s@ == q,
            None => r matches Err(e) && is_not_implemented(e),
        },
{
    let mut q = String::from_str("\n                ");
    q.append("SELECT * FROM transactions WHERE ");
    if !push_transaction_where(&mut q, filter) {
        return Err(not_implemented());
    }
    let op = if descending_order { " < " } else { " > " };
    let dir = if descending_order { " DESC" } else { " ASC" };
    q.append(" AND (tx_order");
    q.append(op);
    push_dec(&mut q, tx_order);
    q.append(")");
    q.append(" ORDER BY ");
    q.append("tx_order");
    q.append(dir);
    q.append(" LIMIT ");
    write_decimal(limit as u64, &mut q);
    q.append("\n            ");
    proof {
        assert(q@ =~= transactions_query_spec(*filter, tx_order, limit, descending_order)->Some_0);
    }
    Ok(q)
}

/// The order a query of transactions starts after: the cursor when one is
/// given; otherwise, in descending order, just after the last transaction
/// (read by the caller, `None` when the table is empty), and in ascending
/// order before every transaction.
pub open spec fn transaction_start_spec(cursor: Option<u64>, descending: bool, latest_tx_order: Option<i64>) -> Option<i64> {
    match cursor {
        Some(c) => Some(c as i64),
        None => if descending {
            match latest_tx_order {
                Some(t) => Some((t + 1) as i64),
                None => None,
            }
        } else {
            Some(-1i64)
        },
    }
}

/// The SQL text of a query of transactions: the filter's condition, the
/// rows after the cursor (or, without one, from the first or, descending,
/// from the last transaction, `latest_tx_order`, which the caller reads from
/// the table), the order and the limit. Fails for the filter that selects
/// every transaction, and when the position needs the last transaction and
/// the table has none.
pub fn query_transactions_with_filter(
    filter: &TransactionFilter,
    cursor: Option<u64>,
    limit: usize,
    descending_order: bool,
    latest_tx_order: Option<i64>,
) -> (r: Result<String, IndexerError>)
    requires
        cursor is None && descending_order ==> (latest_tx_order matches Some(t) ==> t < i64::MAX),
    ensures
        match transaction_start_spec(cursor, descending_order, latest_tx_order) {
            None => r matches Err(e) && is_record_not_found(e),
            Some(t) => match transactions_query_spec(*filter, t, limit, descending_order) {
                Some(q) => r matches Ok(s) && s@ == q,
                None => r matches Err(e) && is_not_implemented(e),
            },
        },
{
    let tx_order: i64 = match cursor {
        Some(c) => c as i64,
        None => {
            if descending_order {
                match latest_tx_order {
                    Some(max_tx_order) => max_tx_order + 1,
                    None => {
                        return Err(record_not_found());
                    },
                }
            } else {
                -1i64
            }
        },
    };
    match transactions_query(filter, tx_order, limit, descending_order) {
        Ok(q) => Ok(q),
        Err(_e) => Err(not_implemented()),
    }
}

/// The kinds of object states the indexer keeps, each in a table of its own.
#[derive(Debug, Copy, Clone, PartialEq, Eq, Structural)]
pub enum ObjectStateType {
    ObjectState,
    UTXO,
    Inscription,
}

/// The table of a kind of object state.
pub open spec fn state_table_spec(t: ObjectStateType) -> Seq<char> {
    match t {
        ObjectStateType::ObjectState => "object_states"@,
        ObjectStateType::UTXO => "utxos"@,
        ObjectStateType::Inscription => "inscriptions"@,
    }
}

/// The table of a kind of object state.
pub fn get_table_name_by_state_type(state_type: ObjectStateType) -> (r: &'static str)
    ensures
        r@ == state_table_spec(state_type),
{
    match state_type {
        ObjectStateType::ObjectState => "object_states",
        ObjectStateType::UTXO => "utxos",
        ObjectStateType::Inscription => "inscriptions",
    }
}

/// Which object states a query selects; owners are addresses as hex
/// literals and object ids are their text forms.
#[derive(Debug, Clone, PartialEq, Eq)]
pub enum ObjectStateFilter {
    ObjectTypeWithOwner { object_type: ObjectTypeFilter, owner: String, filter_out: bool },
    ObjectType(ObjectTypeFilter),
    Owner(String),
    ObjectId(Vec<String>),
}

/// The condition on the object type: the type (or, with `filter_out`, any
/// other type).
pub open spec fn type_condition(t: ObjectTypeFilter, filter_out: bool) -> Seq<char> {
    if filter_out {
        not_object_type_query_spec(t.object_type@, t.has_type_params)
    } else {
        object_type_query_spec(t.object_type@, t.has_type_params)
    }
}

/// The condition of an object-state filter on a table of states. The UTXO
/// and inscription tables have no object type to filter by, so the type is
/// left out there; a type alone then leaves no condition (a blank).
pub open spec fn object_state_where_spec(f: ObjectStateFilter, st: ObjectStateType) -> Seq<char> {
    match f {
        ObjectStateFilter::ObjectTypeWithOwner { object_type, owner, filter_out } => if st
            == ObjectStateType::ObjectState {
            "owner = "@ + quote(owner@) + " AND "@ + type_condition(object_type, filter_out)
        } else {
            "owner = "@ + quote(owner@)
        },
        ObjectStateFilter::ObjectType(t) => if st == ObjectStateType::ObjectState {
            type_condition(t, false)
        } else {
            " "@
        },
        ObjectStateFilter::Owner(o) => "owner = "@ + quote(o@),
        ObjectStateFilter::ObjectId(ids) => "id IN ("@ + quoted_list(ids@) + ")"@,
    }
}

/// Whether the filter leaves a condition on the table.
pub open spec fn has_state_condition(f: ObjectStateFilter, st: ObjectStateType) -> bool {
    !(f is ObjectType && st != ObjectStateType::ObjectState)
}

/// The query for the ids and positions of the object states of a kind that
/// match the filter, after the position `(tx_order, state_index)` in the
/// order asked for, at most `limit` rows.
pub open spec fn object_states_query_spec(
    f: ObjectStateFilter,
    st: ObjectStateType,
    tx_order: i64,
    state_index: i64,
    limit: usize,
    descending: bool,
) -> Seq<char> {
    framed(
        "SELECT id,tx_order,state_index FROM "@ + state_table_spec(st) + " WHERE "@
            + object_state_where_spec(f, st) + " "@ + (if has_state_condition(f, st) {
            "AND"@
        } else {
            " "@
        }) + " "@ + after_position_clause("state_index"@, tx_order, state_index, descending)
            + " ORDER BY "@ + two_column_order("tx_order"@, "state_index"@, descending) + " LIMIT "@
            + decimal_chars(limit as nat),
    )
}

fn push_type_condition(q: &mut String, t: &ObjectTypeFilter, filter_out: bool)
    ensures
        final(q)@ == old(q)@ + type_condition(*t, filter_out),
{
    let c = if filter_out {
        not_object_type_query(t)
    } else {
        object_type_query(t)
    };
    q.append(c.as_str());
}

fn push_object_state_where(q: &mut String, filter: &ObjectStateFilter, state_type: ObjectStateType)
    ensures
        final(q)@ == old(q)@ + object_state_where_spec(*filter, state_type),
{
    let is_object_state = match state_type {
        ObjectStateType::ObjectState => true,
        _ => false,
    };
    match filter {
        ObjectStateFilter::ObjectTypeWithOwner { object_type, owner, filter_out } => {
            q.append("owner = ");
            push_quoted(q, owner.as_str());
            if is_object_state {
                q.append(" AND ");
                push_type_condition(q, object_type, *filter_out);
            }
        },
        ObjectStateFilter::ObjectType(t) => {
            if is_object_state {
                push_type_condition(q, t, false);
            } else {
                q.append(" ");
            }
        },
        ObjectStateFilter::Owner(o) => {
            q.append("owner = ");
            push_quoted(q, o.as_str());
        },
        ObjectStateFilter::ObjectId(ids) => {
            q.append("id IN (");
            push_quoted_list(q, ids);
            q.append(")");
        },
    }
    proof {
        assert(q@ =~= old(q)@ + object_state_where_spec(*filter, state_type));
    }
}

/// The query for the ids and positions of the object states of a kind that
/// match the filter, after the position `(tx_order, state_index)` in the
/// order asked for, at most `limit` rows.
pub fn object_states_query(
    filter: &ObjectStateFilter,
    state_type: ObjectStateType,
    tx_order: i64,
    state_index: i64,
    limit: usize,
    descending_order: bool,
) -> (r: String)
    ensures
        r@ == object_states_query_spec(*filter, state_type, tx_order, state_index, limit, descending_order),
{
    let has_condition = match filter {
        ObjectStateFilter::ObjectType(_) => match state_type {
            ObjectStateType::ObjectState => true,
            _ => false,
        },
        _ => true,
    };
    let mut q = String::from_str("\n                ");
    q.append("SELECT id,tx_order,state_index FROM ");
    q.append(get_table_name_by_state_type(state_type));
    q.append(" WHERE ");
    push_object_state_where(&mut q, filter, state_type);
    q.append(" ");
    q.append(if has_condition { "AND" } else { " " });
    q.append(" ");
    push_after_position(&mut q, "state_index", tx_order, state_index, descending_order);
    q.append(" ORDER BY ");
    push_two_column_order(&mut q, "tx_order", "state_index", descending_order);
    q.append(" LIMIT ");
    write_decimal(limit as u64, &mut q);
    q.append("\n            ");
    proof {
        assert(q@ =~= object_states_query_spec(*filter, state_type, tx_order, state_index, limit, descending_order));
    }
    q
}

/// The position a query of object states starts after: the cursor when one
/// is given; otherwise, in descending order, just after the last state of
/// the kind (read by the caller, `None` when there is none, and then from
/// the start), and in ascending order before every state.
pub open spec fn state_start_spec(
    cursor: Option<IndexerStateID>,
    descending: bool,
    last_state_id: Option<(i64, i64)>,
) -> (i64, i64) {
    match cursor {
        Some(c) => (c.tx_order as i64, c.state_index as i64),
        None => if descending {
            match last_state_id {
                Some((t, i)) => (t, (i + 1) as i64),
                None => (0i64, 0i64),
            }
        } else {
            (-1i64, 0i64)
        },
    }
}

/// The SQL text of a query of object states of a kind: the filter's
/// condition, the rows after the cursor (or, without one, from the first or,
/// descending, from the last state, `last_state_id`, which the caller reads
/// with the query of `query_last_indexer_state_id`), the order and the limit.
pub fn query_stored_object_state_infos_with_filter(
    filter: &ObjectStateFilter,
    cursor: Option<IndexerStateID>,
    limit: usize,
    descending_order: bool,
    state_type: ObjectStateType,
    last_state_id: Option<(i64, i64)>,
) -> (r: String)
    requires
        cursor is None && descending_order ==> (last_state_id matches Some((t, i)) ==> i < i64::MAX),
    ensures
        ({
            let (t, i) = state_start_spec(cursor, descending_order, last_state_id);
            r@ == object_states_query_spec(*filter, state_type, t, i, limit, descending_order)
        }),
{
    let (tx_order, state_index) = match cursor {
        Some(c) => (c.tx_order as i64, c.state_index as i64),
        None => {
            if descending_order {
                match last_state_id {
                    Some((max_tx_order, state_index)) => (max_tx_order, state_index + 1),
                    None => (0i64, 0i64),
                }
            } else {
                (-1i64, 0i64)
            }
        },
    };
    object_states_query(filter, state_type, tx_order, state_index, limit, descending_order)
}

/// The query for the position of the last state of a kind.
pub open spec fn last_state_id_query_spec(st: ObjectStateType) -> Seq<char> {
    framed(
        "SELECT tx_order,state_index FROM "@ + state_table_spec(st) + " ORDER BY "@ + two_column_order(
            "tx_order"@,
            "state_index"@,
            true,
        ) + " LIMIT 1"@,
    )
}

/// The SQL text of the query for the position of the last state of a kind.
pub fn query_last_indexer_state_id(state_type: ObjectStateType) -> (r: String)
    ensures
        r@ == last_state_id_query_spec(state_type),
{
    let mut q = String::from_str("\n                ");
    q.append("SELECT tx_order,state_index FROM ");
    q.append(get_table_name_by_state_type(state_type));
    q.append(" ORDER BY ");
    push_two_column_order(&mut q, "tx_order", "state_index", true);
    q.append(" LIMIT 1");
    q.append("\n            ");
    proof {
        assert(q@ =~= last_state_id_query_spec(state_type));
    }
    q
}

/// The query for the last state written by the transaction `tx_order`.
pub open spec fn last_state_index_query_spec(tx_order: u64, st: ObjectStateType) -> Seq<char> {
    framed(
        "SELECT tx_order,state_index FROM "@ + state_table_spec(st) + " WHERE "@ + "tx_order = "@
            + quote(dec((tx_order as i64) as int)) + " ORDER BY "@ + two_column_order(
            "tx_order"@,
            "state_index"@,
            true,
        ) + " LIMIT 1"@,
    )
}

/// The SQL text of the query for the last state written by the transaction
/// `tx_order` (its order written as a signed number).
pub fn query_last_state_index_by_tx_order(tx_order: u64, state_type: ObjectStateType) -> (r: String)
    ensures
        r@ == last_state_index_query_spec(tx_order, state_type),
{
    let mut q = String::from_str("\n                ");
    q.append("SELECT tx_order,state_index FROM ");
    q.append(get_table_name_by_state_type(state_type));
    q.append(" WHERE ");
    q.append("tx_order = ");
    push_char(&mut q, '"');
    push_dec(&mut q, tx_order as i64);
    push_char(&mut q, '"');
    q.append(" ORDER BY ");
    push_two_column_order(&mut q, "tx_order", "state_index", true);
    q.append(" LIMIT 1");
    q.append("\n            ");
    proof {
        assert(q@ =~= last_state_index_query_spec(tx_order, state_type));
    }
    q
}

/// Which fields a query selects: those of the objects with the given ids.
#[derive(Debug, Clone, PartialEq, Eq)]
pub enum FieldFilter {
    ObjectId(Vec<String>),
}

/// The page number, counted from 1 (page 0 is page 1).
pub open spec fn page_of(page: u64) -> int {
    if page < 1 { 1 } else { page as int }
}

/// The offset of a page: one less than the rows on the pages before it
/// (and 0 on the first page).
pub open spec fn page_offset(page: u64, limit: usize) -> int {
    let before = (page_of(page) - 1) * limit;
    if before >= 1 { before - 1 } else { 0 }
}

/// The query for a page of the fields that match the filter.
pub open spec fn fields_query_spec(f: FieldFilter, page: u64, limit: usize, descending: bool) -> Seq<char> {
    match f {
        FieldFilter::ObjectId(ids) => framed(
            "SELECT * FROM fields WHERE "@ + "parent_id IN ("@ + quoted_list(ids@) + ")"@ + " ORDER BY "@
                + two_column_order("parent_id"@, "sort_key"@, descending) + " LIMIT "@ + decimal_chars(
                page_offset(page, limit) as nat,
            ) + ", "@ + decimal_chars(limit as nat),
        ),
    }
}

/// The SQL text of the query for a page of the fields that match the
/// filter, ordered by parent object and sort key.
pub fn query_fields_with_filter(filter: &FieldFilter, page: u64, limit: usize, descending_order: bool) -> (r: String)
    requires
        (page_of(page) - 1) * limit <= u64::MAX,
    ensures
        r@ == fields_query_spec(*filter, page, limit, descending_order),
{
    let page_of: u64 = if page < 1 { 1 } else { page };
    let before: u64 = (page_of - 1) * (limit as u64);
    let start_limit: u64 = before.saturating_sub(1);
    let mut q = String::from_str("\n                ");
    q.append("SELECT * FROM fields WHERE ");
    match filter {
        FieldFilter::ObjectId(ids) => {
            q.append("parent_id IN (");
            push_quoted_list(&mut q, ids);
            q.append(")");
        },
    }
    q.append(" ORDER BY ");
    push_two_column_order(&mut q, "parent_id", "sort_key", descending_order);
    q.append(" LIMIT ");
    write_decimal(start_limit, &mut q);
    q.append(", ");
    write_decimal(limit as u64, &mut q);
    q.append("\n            ");
    proof {
        assert(start_limit == page_offset(page, limit));
        assert(q@ =~= fields_query_spec(*filter, page, limit, descending_order));
    }
    q
}

} // verus!
