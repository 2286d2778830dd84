//! The faucet bot's watch over the gas balance: when to start watching, and
//! what to post after each check of the balance or failed transfer.

use crate::text::{decimal_chars, digit_char, push_char};
use vstd::arithmetic::div_mod::lemma_fundamental_div_mod_converse;
use vstd::prelude::*;

verus! {

/// A 256-bit amount as its high and low 128-bit halves.
#[derive(Debug, Copy, Clone, PartialEq, Eq, Structural)]
pub struct Amount256 {
    pub high: u128,
    pub low: u128,
}

/// The number an amount stands for.
pub open spec fn amount_value(a: Amount256) -> nat {
    (a.high as nat) * 0x1_0000_0000_0000_0000_0000_0000_0000_0000nat + (a.low as nat)
}

/// Whether `a` is less than `b`.
pub fn amount_lt(a: Amount256, b: Amount256) -> (r: bool)
    ensures
        r == (amount_value(a) < amount_value(b)),
{
    proof {
        lemma_amount_order(a, b);
    }
    a.high < b.high || (a.high == b.high && a.low < b.low)
}

proof fn lemma_amount_order(a: Amount256, b: Amount256)
    ensures
        (amount_value(a) < amount_value(b)) == (a.high < b.high || (a.high == b.high && a.low < b.low)),
{
    let m: nat = 0x1_0000_0000_0000_0000_0000_0000_0000_0000nat;
    let (ah, al, bh, bl) = (a.high as nat, a.low as nat, b.high as nat, b.low as nat);
    assert(al < m && bl < m);
    if ah < bh {
        assert(ah * m + al < bh * m + bl) by (nonlinear_arith)
            requires
                ah < bh,
                al < m,
                bl >= 0,
        ;
    } else if ah > bh {
        assert(ah * m + al > bh * m + bl) by (nonlinear_arith)
            requires
                ah > bh,
                bl < m,
                al >= 0,
        ;
    }
}

/// The quotient and remainder of an amount divided by ten.
fn div10(a: Amount256) -> (r: (Amount256, u8))
    ensures
        r.1 < 10,
        amount_value(a) == 10 * amount_value(r.0) + r.1,
{
    let w: u128 = 0x1_0000_0000_0000_0000u128;
    let qh: u128 = a.high / 10;
    let rh: u128 = a.high % 10;
    let lh: u128 = a.low / w;
    let ll: u128 = a.low % w;
    assert(lh < w) by (nonlinear_arith)
        requires
            lh == a.low / w,
            w == 0x1_0000_0000_0000_0000u128,
    ;
    assert(rh * w + lh < 10 * w) by (nonlinear_arith)
        requires
            rh < 10,
            lh < w,
    ;
    let t1: u128 = rh * w + lh;
    let q1: u128 = t1 / 10;
    let r1: u128 = t1 % 10;
    assert(r1 * w + ll < 10 * w) by (nonlinear_arith)
        requires
            r1 < 10,
            ll < w,
    ;
    let t2: u128 = r1 * w + ll;
    let q2: u128 = t2 / 10;
    let r2: u128 = t2 % 10;
    assert(q1 < w && q2 < w) by (nonlinear_arith)
        requires
            q1 == t1 / 10,
            q2 == t2 / 10,
            t1 < 10 * w,
            t2 < 10 * w,
            w > 0,
    ;
    assert(q1 * w + q2 < w * w) by (nonlinear_arith)
        requires
            q1 < w,
            q2 < w,
    ;
    assert(w * w == 0x1_0000_0000_0000_0000_0000_0000_0000_0000nat);
    let ql: u128 = q1 * w + q2;
    let q = Amount256 { high: qh, low: ql };
    proof {
        let m: nat = 0x1_0000_0000_0000_0000_0000_0000_0000_0000nat;
        assert(m == w * w);
        assert(a.high == 10 * qh + rh);
        assert(a.low == lh * w + ll);
        assert(t1 == 10 * q1 + r1);
        assert(t2 == 10 * q2 + r2);
        assert(amount_value(a) == 10 * amount_value(q) + r2) by (nonlinear_arith)
            requires
                amount_value(a) == a.high * m + a.low,
                amount_value(q) == qh * m + ql,
                m == w * w,
                a.high == 10 * qh + rh,
                a.low == lh * w + ll,
                t1 == rh * w + lh,
                t1 == 10 * q1 + r1,
                t2 == r1 * w + ll,
                t2 == 10 * q2 + r2,
                ql == q1 * w + q2,
        ;
    }
    (q, r2 as u8)
}

/// Appends the decimal text of an amount to `s`.
fn write_amount_decimal(a: Amount256, s: &mut String)
    ensures
        final(s)@ == old(s)@ + decimal_chars(amount_value(a)),
    decreases amount_value(a),
{
    let (q, d) = div10(a);
    proof {
        lemma_fundamental_div_mod_converse(amount_value(a) as int, 10, amount_value(q) as int, d as int);
    }
    if q.high != 0 || q.low != 0 {
        assert(amount_value(q) > 0) by (nonlinear_arith)
            requires
                amount_value(q) == (q.high as nat) * 0x1_0000_0000_0000_0000_0000_0000_0000_0000nat
                    + (q.low as nat),
                q.high != 0 || q.low != 0,
        ;
        write_amount_decimal(q, s);
    } else {
        assert(amount_value(q) == 0);
    }
    let c: char = (48u8 + d) as char;
    push_char(s, c);
    proof {
        assert(c == digit_char(d as nat));
        assert(decimal_chars(amount_value(a)) == if amount_value(a) < 10 {
            seq![digit_char(amount_value(a))]
        } else {
            decimal_chars(amount_value(a) / 10).push(digit_char(amount_value(a) % 10))
        });
        if amount_value(q) == 0 {
            assert(s@ =~= old(s)@ + decimal_chars(amount_value(a)));
        } else {
            assert(s@ =~= old(s)@ + decimal_chars(amount_value(a)));
        }
    }
}

/// The decimal text of an amount.
pub fn amount_to_decimal_string(a: Amount256) -> (s: String)
    ensures
        s@ == decimal_chars(amount_value(a)),
{
    let mut s = String::new();
    write_amount_decimal(a, &mut s);
    proof {
        assert(s@ =~= Seq::<char>::empty() + decimal_chars(amount_value(a)));
    }
    s
}

/// A message embed to post: a title and one field.
#[derive(Debug, Clone, PartialEq, Eq)]
pub struct Embed {
    pub title: String,
    pub field_name: String,
    pub field_value: String,
    pub inline: bool,
}

/// The outcome of checking the gas balance: the balance, or the error of
/// the check.
#[derive(Debug, Clone, PartialEq, Eq)]
pub enum GasCheck {
    Balance(Amount256),
    Failed(String),
}

/// What posting after a check holds: a warning with the balance when it is
/// below the threshold, the error when the check failed, nothing otherwise.
pub open spec fn gas_check_embed_spec(check: GasCheck, threshold: Amount256) -> Option<(Seq<char>, Seq<char>, Seq<char>, bool)> {
    match check {
        GasCheck::Balance(amount) => if amount_value(amount) < amount_value(threshold) {
            Some(("Insufficient gas balance"@, "current balance"@, decimal_chars(amount_value(amount)), true))
        } else {
            None
        },
        GasCheck::Failed(e) => Some(("Check gas balance failed"@, "error"@, e@, false)),
    }
}

pub open spec fn embed_view(e: Embed) -> (Seq<char>, Seq<char>, Seq<char>, bool) {
    (e.title@, e.field_name@, e.field_value@, e.inline)
}

/// The embed to post after a check of the gas balance, if any.
pub fn gas_check_embed(check: GasCheck, threshold: Amount256) -> (r: Option<Embed>)
    ensures
        match gas_check_embed_spec(check, threshold) {
            Some(v) => r matches Some(e) && embed_view(e) == v,
            None => r is None,
        },
{
    match check {
        GasCheck::Balance(amount) => {
            if amount_lt(amount, threshold) {
                Some(
                    Embed {
                        title: String::from_str("Insufficient gas balance"),
                        field_name: String::from_str("current balance"),
                        field_value: amount_to_decimal_string(amount),
                        inline: true,
                    },
                )
            } else {
                None
            }
        },
        GasCheck::Failed(e) => Some(
            Embed {
                title: String::from_str("Check gas balance failed"),
                field_name: String::from_str("error"),
                field_value: e,
                inline: false,
            },
        ),
    }
}

/// The embed to post when sending gas funds failed.
pub fn send_failure_embed(err: String) -> (r: Embed)
    ensures
        embed_view(r) == ("Sending gas funds failed"@, "error"@, err@, false),
{
    Embed {
        title: String::from_str("Sending gas funds failed"),
        field_name: String::from_str("error"),
        field_value: err,
        inline: false,
    }
}

/// What to do when the bot's cache is ready.
#[derive(Debug, Copy, Clone, PartialEq, Eq, Structural)]
pub enum CacheReadyAction {
    /// Start watching the balance and the failed transfers, posting to the channel.
    StartWatching(u64),
    /// The watch is running already.
    AlreadyWatching,
    /// No channel to post to: nothing is watched.
    NoNotifyChannel,
}

/// Starts the watch once, and only with a channel to post to.
pub fn cache_ready_action(notify_channel_id: Option<u64>, is_loop_running: bool) -> (r: CacheReadyAction)
    ensures
        r == match notify_channel_id {
            None => CacheReadyAction::NoNotifyChannel,
            Some(c) => if is_loop_running {
                CacheReadyAction::AlreadyWatching
            } else {
                CacheReadyAction::StartWatching(c)
            },
        },
{
    match notify_channel_id {
        None => CacheReadyAction::NoNotifyChannel,
        Some(c) => {
            if is_loop_running {
                CacheReadyAction::AlreadyWatching
            } else {
                CacheReadyAction::StartWatching(c)
            }
        },
    }
}

} // verus!
