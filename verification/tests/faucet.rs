use kanari::faucet::{
    amount_lt, amount_to_decimal_string, cache_ready_action, gas_check_embed, send_failure_embed, Amount256,
    CacheReadyAction, Embed, GasCheck,
};

fn amt(high: u128, low: u128) -> Amount256 {
    Amount256 { high, low }
}

#[test]
fn amounts_compare_by_value() {
    assert!(amt(0, 5).low == 5);
    assert!(amount_lt(amt(0, 5), amt(0, 6)));
    assert!(!amount_lt(amt(0, 6), amt(0, 6)));
    assert!(amount_lt(amt(0, u128::MAX), amt(1, 0)));
    assert!(!amount_lt(amt(2, 0), amt(1, u128::MAX)));
}

#[test]
fn low_balance_is_reported() {
    let threshold = amt(0, 10_000_000_000);
    let e = gas_check_embed(GasCheck::Balance(amt(0, 5)), threshold);
    assert_eq!(
        e,
        Some(Embed {
            title: "Insufficient gas balance".to_string(),
            field_name: "current balance".to_string(),
            field_value: "5".to_string(),
            inline: true,
        })
    );
    let none = gas_check_embed(
        GasCheck::Balance(amt(0, 10_000_000_000)),
        threshold,
    );
    assert_eq!(none, None);
}

#[test]
fn failed_check_and_transfer_are_reported() {
    let e = gas_check_embed(GasCheck::Failed("rpc down".to_string()), amt(0, 1)).unwrap();
    assert_eq!(e.title, "Check gas balance failed");
    assert_eq!(e.field_name, "error");
    assert_eq!(e.field_value, "rpc down");
    assert!(!e.inline);
    let f = send_failure_embed("no funds".to_string());
    assert_eq!(f.title, "Sending gas funds failed");
    assert_eq!(f.field_value, "no funds");
}

#[test]
fn watch_starts_once_with_a_channel() {
    assert_eq!(cache_ready_action(None, false), CacheReadyAction::NoNotifyChannel);
    assert_eq!(cache_ready_action(Some(7), false), CacheReadyAction::StartWatching(7));
    assert_eq!(cache_ready_action(Some(7), true), CacheReadyAction::AlreadyWatching);
}

#[test]
fn amount_decimal_text() {
    assert_eq!(amount_to_decimal_string(amt(0, 0)), "0");
    assert_eq!(amount_to_decimal_string(amt(0, 1234567890)), "1234567890");
    assert_eq!(amount_to_decimal_string(amt(0, u128::MAX)), u128::MAX.to_string());
    assert_eq!(amount_to_decimal_string(amt(1, 0)), "340282366920938463463374607431768211456");
    assert_eq!(
        amount_to_decimal_string(amt(u128::MAX, u128::MAX)),
        "115792089237316195423570985008687907853269984665640564039457584007913129639935"
    );
}

#[test]
fn low_balance_above_u128_shows_full_text() {
    let e = gas_check_embed(GasCheck::Balance(amt(1, 5)), amt(2, 0)).unwrap();
    assert_eq!(e.field_value, "340282366920938463463374607431768211461");
}
