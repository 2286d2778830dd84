//! The range of an object-type query holds exactly the type's instantiations.

use crate::indexer::query::{escape_sql_spec, increment_spec, like_query_bounds, next_char};
use vstd::prelude::*;

verus! {

/// Strict order of texts, char by char by code point: the order of Rust
/// strings and of the database's binary collation on UTF-8 text.
pub open spec fn text_lt(a: Seq<char>, b: Seq<char>) -> bool
    decreases a.len(),
{
    if b.len() == 0 {
        false
    } else if a.len() == 0 {
        true
    } else if (a[0] as u32) < (b[0] as u32) {
        true
    } else if a[0] == b[0] {
        text_lt(a.drop_first(), b.drop_first())
    } else {
        false
    }
}

/// The text has no single quote, so escaping leaves it as it is.
pub open spec fn has_no_quote(q: Seq<char>) -> bool {
    forall|i: int| 0 <= i < q.len() ==> q[i] != '\''
}

/// Some char of the text is below the greatest char.
pub open spec fn has_char_below_max(q: Seq<char>) -> bool {
    exists|i: int| 0 <= i < q.len() && (q[i] as u32) < 0x10FFFF
}

proof fn lemma_common_prefix(p: Seq<char>, x: Seq<char>, y: Seq<char>)
    ensures
        text_lt(p + x, p + y) == text_lt(x, y),
    decreases p.len(),
{
    if p.len() > 0 {
        assert((p + x).drop_first() =~= p.drop_first() + x);
        assert((p + y).drop_first() =~= p.drop_first() + y);
        assert((p + y).len() > 0);
        assert((p + x)[0] == (p + y)[0]);
        lemma_common_prefix(p.drop_first(), x, y);
    } else {
        assert(p + x =~= x);
        assert(p + y =~= y);
    }
}

proof fn lemma_escape_no_quote(q: Seq<char>)
    requires
        has_no_quote(q),
    ensures
        escape_sql_spec(q) == q,
    decreases q.len(),
{
    if q.len() > 0 {
        lemma_escape_no_quote(q.drop_last());
        assert(q.drop_last().push(q.last()) =~= q);
    }
}

/// The increment of a text with a char below the greatest char is its part
/// before the last such char, then a greater char.
proof fn lemma_increment_shape(q: Seq<char>) -> (i: int)
    requires
        has_char_below_max(q),
    ensures
        0 <= i < q.len(),
        (q[i] as u32) < 0x10FFFF,
        increment_spec(q).len() > i,
        increment_spec(q).take(i) == q.take(i),
        increment_spec(q)[i] == next_char(q[i]),
    decreases q.len(),
{
    if (q.last() as u32) < 0x10FFFF {
        let i = q.len() - 1;
        assert(increment_spec(q) == q.drop_last().push(next_char(q.last())));
        assert(q.drop_last().push(next_char(q.last())).take(i) =~= q.take(i));
        i
    } else {
        let t = q.drop_last();
        let w = choose|w: int| 0 <= w < q.len() && (q[w] as u32) < 0x10FFFF;
        assert(w < q.len() - 1);
        assert(t[w] == q[w]);
        let i = lemma_increment_shape(t);
        assert(increment_spec(q) == increment_spec(t).push('\0'));
        assert(increment_spec(t).push('\0').take(i) =~= increment_spec(t).take(i));
        assert(t.take(i) =~= q.take(i));
        i
    }
}

proof fn lemma_escape_concat(a: Seq<char>, b: Seq<char>)
    ensures
        escape_sql_spec(a + b) == escape_sql_spec(a) + escape_sql_spec(b),
    decreases b.len(),
{
    if b.len() == 0 {
        assert(a + b =~= a);
        assert(escape_sql_spec(a) + escape_sql_spec(b) =~= escape_sql_spec(a));
    } else {
        lemma_escape_concat(a, b.drop_last());
        assert((a + b).drop_last() =~= a + b.drop_last());
        assert((a + b).last() == b.last());
        if b.last() == '\'' {
            assert(escape_sql_spec(a) + escape_sql_spec(b) =~= escape_sql_spec(a) + escape_sql_spec(b.drop_last()).push('\'').push('\''));
        } else {
            assert(escape_sql_spec(a) + escape_sql_spec(b) =~= escape_sql_spec(a) + escape_sql_spec(b.drop_last()).push(b.last()));
        }
    }
}

/// Escaping keeps the first char.
proof fn lemma_escape_first(s: Seq<char>)
    requires
        s.len() > 0,
    ensures
        escape_sql_spec(s).len() > 0,
        escape_sql_spec(s)[0] == s[0],
{
    let h = seq![s[0]];
    assert(s =~= h + s.drop_first());
    lemma_escape_concat(h, s.drop_first());
    assert(h.drop_last() =~= Seq::<char>::empty());
    assert(escape_sql_spec(Seq::<char>::empty()) =~= Seq::<char>::empty());
    if s[0] == '\'' {
        assert(escape_sql_spec(h) == escape_sql_spec(h.drop_last()).push('\'').push('\''));
    } else {
        assert(escape_sql_spec(h) == escape_sql_spec(h.drop_last()).push(s[0]));
    }
}

proof fn lemma_next_char_greater(c: char)
    requires
        (c as u32) < 0x10FFFF,
    ensures
        (c as u32) < (next_char(c) as u32),
{
}

/// Every instantiation of a type, its text followed by `<`, lies in the
/// range of the type's query: at or after the first bound, before the
/// second, and (when the type's text has a char below the greatest) before
/// the upper bound; for type texts without single quotes, which escaping
/// leaves as they are.
pub proof fn lemma_instantiations_in_range(q: Seq<char>, rest: Seq<char>)
    requires
        has_no_quote(q),
    ensures
        ({
            let (first, second, upper) = like_query_bounds(q);
            let t = q.push('<') + rest;
            &&& !text_lt(t, first)
            &&& text_lt(t, second)
            &&& has_char_below_max(q) ==> text_lt(t, upper)
        }),
{
    let (first, second, upper) = like_query_bounds(q);
    let t = q.push('<') + rest;
    assert(has_no_quote(q.push('<')));
    assert(has_no_quote(q.push('=')));
    lemma_escape_no_quote(q.push('<'));
    lemma_escape_no_quote(q.push('='));
    assert(t =~= q + (seq!['<'] + rest));
    assert(q.push('<') =~= q + seq!['<']);
    assert(q.push('=') =~= q + seq!['=']);
    lemma_common_prefix(q, seq!['<'] + rest, seq!['<']);
    assert((seq!['<'] + rest).drop_first() =~= rest);
    assert(seq!['<'].drop_first() =~= Seq::<char>::empty());
    lemma_common_prefix(q, seq!['<'] + rest, seq!['=']);
    assert(!text_lt(rest, Seq::<char>::empty()));
    assert(!text_lt(seq!['<'] + rest, seq!['<']));
    assert(text_lt(seq!['<'] + rest, seq!['=']));
    assert(!text_lt(t, first));
    assert(text_lt(t, second));
    if has_char_below_max(q) {
        let u = increment_spec(q);
        let i = lemma_increment_shape(q);
        let p = q.take(i);
        assert(has_no_quote(p));
        lemma_escape_no_quote(p);
        assert(u =~= p + u.skip(i));
        lemma_escape_concat(p, u.skip(i));
        lemma_escape_first(u.skip(i));
        assert(t =~= p + t.skip(i));
        lemma_common_prefix(p, t.skip(i), escape_sql_spec(u.skip(i)));
        lemma_next_char_greater(q[i]);
        assert(t.skip(i)[0] == q[i]);
        assert(u.skip(i)[0] == next_char(q[i]));
        assert(text_lt(t.skip(i), escape_sql_spec(u.skip(i))));
        assert(escape_sql_spec(u) == p + escape_sql_spec(u.skip(i)));
        assert(text_lt(t, upper));
    }
}

proof fn lemma_between_has_prefix(q: Seq<char>, t: Seq<char>)
    requires
        !text_lt(t, q.push('<')),
        text_lt(t, q.push('=')),
    ensures
        t.len() > q.len(),
        t.take(q.len() + 1int) == q.push('<'),
    decreases q.len(),
{
    assert(t.len() > 0);
    if q.len() == 0 {
        assert(q.push('<') =~= seq!['<']);
        assert(q.push('=') =~= seq!['=']);
        let lt = seq!['<'];
        let eq = seq!['='];
        assert(lt.len() == 1 && lt[0] == '<' && eq.len() == 1 && eq[0] == '=');
        assert(!text_lt(t, lt));
        assert(text_lt(t, eq));
        assert(!text_lt(t.drop_first(), lt.drop_first()));
        assert(!text_lt(t.drop_first(), eq.drop_first()));
        assert(!((t[0] as u32) < ('<' as u32)));
        assert((t[0] as u32) < ('=' as u32));
        assert((t[0] as u32) == ('<' as u32));
        vstd::utf8::char_u32_cast(t[0], t[0] as u32);
        vstd::utf8::char_u32_cast('<', '<' as u32);
        assert(t[0] == '<');
        assert(t.take(1) =~= seq!['<']);
    } else {
        assert(q.push('<')[0] == q[0]);
        assert(q.push('=')[0] == q[0]);
        assert(t[0] == q[0]);
        assert(q.push('<').drop_first() =~= q.drop_first().push('<'));
        assert(q.push('=').drop_first() =~= q.drop_first().push('='));
        lemma_between_has_prefix(q.drop_first(), t.drop_first());
        assert(t.take(q.len() + 1int) =~= seq![t[0]] + t.drop_first().take(q.drop_first().len() + 1int));
        assert(q.push('<') =~= seq![q[0]] + q.drop_first().push('<'));
    }
}

/// Only instantiations of a type lie in the range of the type's query: a
/// text at or after the first bound and before the second is the type's
/// text followed by `<`; for type texts without single quotes.
pub proof fn lemma_range_holds_only_instantiations(q: Seq<char>, t: Seq<char>)
    requires
        has_no_quote(q),
        !text_lt(t, like_query_bounds(q).0),
        text_lt(t, like_query_bounds(q).1),
    ensures
        t.len() > q.len(),
        t.take(q.len() as int) == q,
        t[q.len() as int] == '<',
{
    assert(has_no_quote(q.push('<')));
    assert(has_no_quote(q.push('=')));
    lemma_escape_no_quote(q.push('<'));
    lemma_escape_no_quote(q.push('='));
    lemma_between_has_prefix(q, t);
    assert(t.take(q.len() as int) =~= t.take(q.len() + 1int).take(q.len() as int));
    assert(q.push('<').take(q.len() as int) =~= q);
    assert(t[q.len() as int] == t.take(q.len() + 1int)[q.len() as int]);
}

} // verus!
