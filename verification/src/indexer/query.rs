//! The object-type filters of the indexer's state queries: a type given
//! without type parameters matches itself and its instantiations, through
//! a range of strings that an index can serve.

use crate::text::push_char;
use vstd::prelude::*;
use vstd::string::StrSliceExecFns;

verus! {

pub const STATE_OBJECT_TYPE_STR: &'static str = "object_type";

/// The greatest char.
pub open spec fn char_max() -> char {
    '\u{10FFFF}'
}

/// Whether a number is a char's code point: at most 0x10FFFF and not a
/// surrogate.
pub open spec fn is_char_code(i: u32) -> bool {
    i <= 0x10FFFF && !(0xD800 <= i <= 0xDFFF)
}

/// The char with a code point.
///
/// Trusted: calls `char::from_u32`, which std documents to return the char
/// when the number is a char's code point and `None` otherwise.
#[verifier::external_body]
fn char_from_u32(i: u32) -> (r: Option<char>)
    ensures
        r is Some <==> is_char_code(i),
        r matches Some(c) ==> c == i as char,
{
    char::from_u32(i)
}

/// The char after `c` (which is below the greatest char); the greatest char
/// where the next code point is a surrogate.
pub open spec fn next_char(c: char) -> char {
    if is_char_code((c as u32 + 1) as u32) {
        (c as u32 + 1) as char
    } else {
        char_max()
    }
}

/// The least string greater than every string that starts with `s`: its
/// last char that is below the greatest char is increased, and the chars
/// after it become NUL.
pub open spec fn increment_spec(s: Seq<char>) -> Seq<char>
    decreases s.len(),
{
    if s.len() == 0 {
        s
    } else if (s.last() as u32) < 0x10FFFF {
        s.drop_last().push(next_char(s.last()))
    } else {
        increment_spec(s.drop_last()).push('\0')
    }
}

/// The text with every single quote doubled, as SQL string literals need.
pub open spec fn escape_sql_spec(s: Seq<char>) -> Seq<char>
    decreases s.len(),
{
    if s.len() == 0 {
        s
    } else if s.last() == '\'' {
        escape_sql_spec(s.drop_last()).push('\'').push('\'')
    } else {
        escape_sql_spec(s.drop_last()).push(s.last())
    }
}

fn chars_of(s: &str) -> (r: Vec<char>)
    ensures
        r@ == s@,
{
    let n = s.unicode_len();
    let mut v: Vec<char> = Vec::new();
    let mut i: usize = 0;
    while i < n
        invariant
            0 <= i <= n,
            n == s@.len(),
            v@ == s@.take(i as int),
        decreases n - i,
    {
        let c = s.get_char(i);
        v.push(c);
        proof {
            assert(s@.take(i + 1) =~= s@.take(i as int).push(c));
        }
        i = i + 1;
    }
    proof {
        assert(s@.take(n as int) =~= s@);
    }
    v
}

fn string_from_chars(v: &Vec<char>) -> (r: String)
    ensures
        r@ == v@,
{
    let mut s = String::new();
    let mut i: usize = 0;
    while i < v.len()
        invariant
            0 <= i <= v@.len(),
            s@ == v@.take(i as int),
        decreases v@.len() - i,
    {
        push_char(&mut s, v[i]);
        proof {
            assert(v@.take(i + 1) =~= v@.take(i as int).push(v@[i as int]));
        }
        i = i + 1;
    }
    proof {
        assert(v@.take(v@.len() as int) =~= v@);
    }
    s
}

proof fn lemma_increment_unchanged_prefix(s: Seq<char>, i: int)
    requires
        0 <= i < s.len(),
        (s[i] as u32) < 0x10FFFF,
        forall|k: int| i < k < s.len() ==> (#[trigger] s[k] as u32) >= 0x10FFFF,
    ensures
        increment_spec(s) == s.take(i).push(next_char(s[i])) + Seq::new((s.len() - i - 1) as nat, |k: int| '\0'),
    decreases s.len(),
{
    if i == s.len() - 1 {
        assert(s.drop_last() =~= s.take(i));
        assert(Seq::new((s.len() - i - 1) as nat, |k: int| '\0') =~= Seq::<char>::empty());
        assert(s.take(i).push(next_char(s[i])) + Seq::<char>::empty() =~= s.take(i).push(next_char(s[i])));
    } else {
        let t = s.drop_last();
        lemma_increment_unchanged_prefix(t, i);
        assert(t.take(i) =~= s.take(i));
        assert(t.take(i).push(next_char(t[i])) + Seq::new((t.len() - i - 1) as nat, |k: int| '\0')
            .push('\0') =~= s.take(i).push(next_char(s[i])) + Seq::new((s.len() - i - 1) as nat, |k: int| '\0'));
    }
}

proof fn lemma_increment_all_max(s: Seq<char>)
    requires
        forall|k: int| 0 <= k < s.len() ==> (#[trigger] s[k] as u32) >= 0x10FFFF,
    ensures
        increment_spec(s) == Seq::new(s.len(), |k: int| '\0'),
    decreases s.len(),
{
    if s.len() > 0 {
        lemma_increment_all_max(s.drop_last());
        assert(Seq::new(s.drop_last().len(), |k: int| '\0').push('\0') =~= Seq::new(s.len(), |k: int| '\0'));
    }
}

/// The least string greater than every string that starts with `s`: its
/// last char below the greatest char is increased (to the greatest char
/// where the next code point is a surrogate), and the chars after it become
/// NUL; a string of greatest chars becomes NULs.
pub fn increment_query_string(s: &str) -> (r: String)
    ensures
        r@ == increment_spec(s@),
{
    let mut chars = chars_of(s);
    let n = chars.len();
    let mut i: usize = n;
    while i > 0
        invariant
            0 <= i <= n,
            n == s@.len(),
            chars@.len() == n,
            forall|k: int| 0 <= k < i ==> chars@[k] == s@[k],
            forall|k: int| i <= k < n ==> chars@[k] == '\0',
            forall|k: int| i <= k < n ==> (#[trigger] s@[k] as u32) >= 0x10FFFF,
        decreases i,
    {
        let c = chars[i - 1];
        if (c as u32) < 0x10FFFFu32 {
            let next = match char_from_u32(c as u32 + 1) {
                Some(d) => d,
                None => '\u{10FFFF}',
            };
            chars.set(i - 1, next);
            proof {
                lemma_increment_unchanged_prefix(s@, (i - 1) as int);
                assert(next == next_char(s@[i - 1]));
                assert(chars@ =~= s@.take((i - 1) as int).push(next_char(s@[i - 1])) + Seq::new(
                    (n - i) as nat,
                    |k: int| '\0',
                ));
            }
            return string_from_chars(&chars);
        }
        chars.set(i - 1, '\0');
        i = i - 1;
    }
    proof {
        lemma_increment_all_max(s@);
        assert(chars@ =~= Seq::new(n as nat, |k: int| '\0'));
    }
    string_from_chars(&chars)
}

/// Doubles every single quote, so that the text can stand in an SQL
/// string literal.
pub fn escape_sql_string(value: String) -> (r: String)
    ensures
        r@ == escape_sql_spec(value@),
{
    let chars = chars_of(value.as_str());
    let mut out = String::new();
    let mut i: usize = 0;
    while i < chars.len()
        invariant
            0 <= i <= chars@.len(),
            chars@ == value@,
            out@ == escape_sql_spec(chars@.take(i as int)),
        decreases chars@.len() - i,
    {
        let c = chars[i];
        proof {
            assert(chars@.take(i + 1).drop_last() =~= chars@.take(i as int));
        }
        if c == '\'' {
            push_char(&mut out, '\'');
            push_char(&mut out, '\'');
        } else {
            push_char(&mut out, c);
        }
        i = i + 1;
    }
    proof {
        assert(chars@.take(chars@.len() as int) =~= chars@);
    }
    out
}

/// The bounds of the strings that are `query` followed by `<` (an
/// instantiation of the type) while staying below the increment of `query`.
pub open spec fn like_query_bounds(query: Seq<char>) -> (Seq<char>, Seq<char>, Seq<char>) {
    (
        escape_sql_spec(query.push('<')),
        escape_sql_spec(query.push('=')),
        escape_sql_spec(increment_spec(query)),
    )
}

/// The three bounds of the range that matches `query` followed by type
/// parameters: `query<`, `query=` (the char after `<`), and the increment
/// of `query`, each escaped for SQL.
pub fn optimize_object_type_like_query(query: &str) -> (r: (String, String, String))
    ensures
        (r.0@, r.1@, r.2@) == like_query_bounds(query@),
{
    let mut first_bound = String::from_str(query);
    push_char(&mut first_bound, '<');
    let mut second_bound = String::from_str(query);
    push_char(&mut second_bound, '=');
    let upper_bound = increment_query_string(query);
    (escape_sql_string(first_bound), escape_sql_string(second_bound), escape_sql_string(upper_bound))
}

/// A Move struct type as the indexer filters by it: its text form, and
/// whether it was given with type parameters.
#[derive(Debug, Clone, PartialEq, Eq)]
pub struct ObjectTypeFilter {
    pub object_type: String,
    pub has_type_params: bool,
}

/// The SQL condition that selects the states of a type: equality when the
/// type has type parameters; otherwise the type itself or any of its
/// instantiations.
pub open spec fn object_type_query_spec(object_type: Seq<char>, has_type_params: bool) -> Seq<char> {
    if has_type_params {
        "object_type = \""@ + object_type + "\""@
    } else {
        let (first, second, upper) = like_query_bounds(object_type);
        "(object_type = \""@ + object_type + "\" OR (object_type >= \""@ + first
            + "\" AND object_type < \""@ + second + "\" AND object_type < \""@ + upper + "\"))"@
    }
}

/// The SQL condition that selects the states not of a type (nor, without
/// type parameters, of its instantiations).
pub open spec fn not_object_type_query_spec(object_type: Seq<char>, has_type_params: bool) -> Seq<char> {
    if has_type_params {
        "object_type != \""@ + object_type + "\""@
    } else {
        let (first, second, upper) = like_query_bounds(object_type);
        "(object_type != \""@ + object_type + "\" AND (object_type < \""@ + first
            + "\" OR object_type >= \""@ + second + "\" OR object_type >= \""@ + upper + "\"))"@
    }
}

/// The SQL condition that selects the states of the type.
pub fn object_type_query(object_type: &ObjectTypeFilter) -> (r: String)
    ensures
        r@ == object_type_query_spec(object_type.object_type@, object_type.has_type_params),
{
    let object_type_str = object_type.object_type.as_str();
    if !object_type.has_type_params {
        let (first_bound, second_bound, upper_bound) = optimize_object_type_like_query(object_type_str);
        let mut q = String::from_str("(object_type = \"");
        q.append(object_type_str);
        q.append("\" OR (object_type >= \"");
        q.append(first_bound.as_str());
        q.append("\" AND object_type < \"");
        q.append(second_bound.as_str());
        q.append("\" AND object_type < \"");
        q.append(upper_bound.as_str());
        q.append("\"))");
        q
    } else {
        let mut q = String::from_str("object_type = \"");
        q.append(object_type_str);
        q.append("\"");
        q
    }
}

/// The SQL condition that selects the states not of the type.
pub fn not_object_type_query(object_type: &ObjectTypeFilter) -> (r: String)
    ensures
        r@ == not_object_type_query_spec(object_type.object_type@, object_type.has_type_params),
{
    let object_type_str = object_type.object_type.as_str();
    if !object_type.has_type_params {
        let (first_bound, second_bound, upper_bound) = optimize_object_type_like_query(object_type_str);
        let mut q = String::from_str("(object_type != \"");
        q.append(object_type_str);
        q.append("\" AND (object_type < \"");
        q.append(first_bound.as_str());
        q.append("\" OR object_type >= \"");
        q.append(second_bound.as_str());
        q.append("\" OR object_type >= \"");
        q.append(upper_bound.as_str());
        q.append("\"))");
        q
    } else {
        let mut q = String::from_str("object_type != \"");
        q.append(object_type_str);
        q.append("\"");
        q
    }
}

} // verus!
