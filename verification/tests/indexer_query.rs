use kanari::indexer::query::{
    escape_sql_string, increment_query_string, not_object_type_query, object_type_query,
    optimize_object_type_like_query, ObjectTypeFilter,
};

fn object_type_query_result(
    origin_object_type: String,
    match_object_type: String,
    first_bound: String,
    second_bound: String,
    upper_bound: String,
) -> bool {
    origin_object_type == match_object_type
        || (match_object_type >= first_bound
            && match_object_type < second_bound
            && match_object_type < upper_bound)
}

fn not_object_type_query_result(
    origin_object_type: String,
    match_object_type: String,
    first_bound: String,
    second_bound: String,
    upper_bound: String,
) -> bool {
    origin_object_type != match_object_type
        && (match_object_type < first_bound
            || match_object_type >= second_bound
            || match_object_type >= upper_bound)
}

#[test]
fn test_optimize_object_type_like_query() {
    let gas_coin_object_type = "0x3::coin_store::CoinStore";
    let (first_bound, second_bound, upper_bound) =
        optimize_object_type_like_query(gas_coin_object_type);
    assert_eq!(first_bound, "0x3::coin_store::CoinStore<");
    assert_eq!(second_bound, "0x3::coin_store::CoinStore=");
    assert_eq!(upper_bound, "0x3::coin_store::CoinStorf");

    let object_type2 =
        "0x5350415253455f4d45524b4c455f504c414345484f4c4445525f484153480000::custom::CustomZZZ";
    let (first_bound, second_bound, upper_bound) = optimize_object_type_like_query(object_type2);
    assert_eq!(
        first_bound,
        "0x5350415253455f4d45524b4c455f504c414345484f4c4445525f484153480000::custom::CustomZZZ<"
    );
    assert_eq!(
        second_bound,
        "0x5350415253455f4d45524b4c455f504c414345484f4c4445525f484153480000::custom::CustomZZZ="
    );
    assert_eq!(
        upper_bound,
        "0x5350415253455f4d45524b4c455f504c414345484f4c4445525f484153480000::custom::CustomZZ["
    );
}

#[test]
fn test_object_type_query() {
    let object_type = "0xabcd::test::Account";
    let object_type_include = "0xabcd::test::Account<T>".to_string();
    let object_type_exclude1 = "0xabcd::test::AccountABC".to_string();
    let object_type_exclude2 = "0xabcd::test::Account123<T>".to_string();
    let (first_bound, second_bound, upper_bound) = optimize_object_type_like_query(object_type);
    assert!(object_type_query_result(
        object_type.to_string(),
        object_type_include,
        first_bound.clone(),
        second_bound.clone(),
        upper_bound.clone()
    ));
    assert!(!object_type_query_result(
        object_type.to_string(),
        object_type_exclude1,
        first_bound.clone(),
        second_bound.clone(),
        upper_bound.clone()
    ));
    assert!(!object_type_query_result(
        object_type.to_string(),
        object_type_exclude2,
        first_bound,
        second_bound,
        upper_bound
    ));
}

#[test]
fn test_not_object_type_query() {
    let object_type = "0xabcd::test::Account";
    let object_type_exclude1 = "0xabcd::test::Account".to_string();
    let object_type_exclude2 = "0xabcd::test::Account<T>".to_string();
    let object_type_include1 = "0xabcd::test::AccountABC".to_string();
    let object_type_include2 = "0xabcd::test::Account123<T>".to_string();
    let (first_bound, second_bound, upper_bound) = optimize_object_type_like_query(object_type);
    assert!(not_object_type_query_result(
        object_type.to_string(),
        object_type_include1,
        first_bound.clone(),
        second_bound.clone(),
        upper_bound.clone()
    ));
    assert!(not_object_type_query_result(
        object_type.to_string(),
        object_type_include2,
        first_bound.clone(),
        second_bound.clone(),
        upper_bound.clone()
    ));
    assert!(!not_object_type_query_result(
        object_type.to_string(),
        object_type_exclude1,
        first_bound.clone(),
        second_bound.clone(),
        upper_bound.clone()
    ));
    assert!(!not_object_type_query_result(
        object_type.to_string(),
        object_type_exclude2,
        first_bound,
        second_bound,
        upper_bound
    ));
}

#[test]
fn increment_bumps_last_char() {
    assert_eq!(increment_query_string("abc"), "abd");
    assert_eq!(increment_query_string("a"), "b");
}

#[test]
fn increment_of_empty_is_empty() {
    assert_eq!(increment_query_string(""), "");
}

#[test]
fn increment_carries_over_max_char() {
    let s: String = ['a', char::MAX].iter().collect();
    assert_eq!(increment_query_string(&s), "b\0");
    let all_max: String = [char::MAX, char::MAX].iter().collect();
    assert_eq!(increment_query_string(&all_max), "\0\0");
}

#[test]
fn increment_skips_to_max_before_surrogates() {
    let s: String = ['x', '\u{D7FF}'].iter().collect();
    let expected: String = ['x', char::MAX].iter().collect();
    assert_eq!(increment_query_string(&s), expected);
}

#[test]
fn escape_doubles_single_quotes() {
    assert_eq!(escape_sql_string("a'b".to_string()), "a''b");
    assert_eq!(escape_sql_string("''".to_string()), "''''");
    assert_eq!(escape_sql_string("plain".to_string()), "plain");
    assert_eq!(escape_sql_string(String::new()), "");
}

#[test]
fn like_query_bounds_are_escaped() {
    let (first, second, upper) = optimize_object_type_like_query("a'b");
    assert_eq!(first, "a''b<");
    assert_eq!(second, "a''b=");
    assert_eq!(upper, "a''c");
}

#[test]
fn object_type_query_without_type_params_uses_prefix_bounds() {
    let filter = ObjectTypeFilter {
        object_type: "0x3::coin::Coin".to_string(),
        has_type_params: false,
    };
    assert_eq!(
        object_type_query(&filter),
        "(object_type = \"0x3::coin::Coin\" OR (object_type >= \"0x3::coin::Coin<\" AND object_type < \"0x3::coin::Coin=\" AND object_type < \"0x3::coin::Coio\"))"
    );
    assert_eq!(
        not_object_type_query(&filter),
        "(object_type != \"0x3::coin::Coin\" AND (object_type < \"0x3::coin::Coin<\" OR object_type >= \"0x3::coin::Coin=\" OR object_type >= \"0x3::coin::Coio\"))"
    );
}

#[test]
fn object_type_query_with_type_params_is_exact() {
    let filter = ObjectTypeFilter {
        object_type: "0x3::coin::Coin<0x3::gas::GAS>".to_string(),
        has_type_params: true,
    };
    assert_eq!(object_type_query(&filter), "object_type = \"0x3::coin::Coin<0x3::gas::GAS>\"");
    assert_eq!(
        not_object_type_query(&filter),
        "object_type != \"0x3::coin::Coin<0x3::gas::GAS>\""
    );
}
