//! Arguments among the parameters of a request.

use wallet_infra::dispatch::extract_args;
use wallet_infra::json::{Json, Number};

fn string(s: &str) -> Json {
    Json::Str(s.to_string())
}

fn number(n: u64) -> Json {
    Json::Number(Number::PosInt(n))
}

fn object(fields: Vec<(&str, Json)>) -> Json {
    Json::Object(fields.into_iter().map(|(k, v)| (k.to_string(), v)).collect())
}

#[test]
fn auth_positional_array_two_elements_returns_second() {
    let params = Json::Array(vec![
        object(vec![("identityKey", string("abc"))]),
        object(vec![("basket", string("default")), ("limit", number(10))]),
    ]);
    let result = extract_args(&params, true);
    assert_eq!(result, object(vec![("basket", string("default")), ("limit", number(10))]));
}

#[test]
fn auth_positional_array_three_elements_returns_second() {
    // Extra elements beyond index 1 are ignored.
    let params = Json::Array(vec![
        string("auth"),
        object(vec![("args", Json::Bool(true))]),
        string("extra"),
    ]);
    let result = extract_args(&params, true);
    assert_eq!(result, object(vec![("args", Json::Bool(true))]));
}

#[test]
fn auth_positional_array_one_element_returns_first() {
    // Array with only 1 element: no auth prefix, so return index 0.
    let params = Json::Array(vec![object(vec![("basket", string("default"))])]);
    let result = extract_args(&params, true);
    assert_eq!(result, object(vec![("basket", string("default"))]));
}

#[test]
fn auth_empty_array_returns_null() {
    let params = Json::Array(vec![]);
    let result = extract_args(&params, true);
    assert_eq!(result, Json::Null);
}

#[test]
fn auth_object_params_returned_as_is() {
    let params = object(vec![("basket", string("default")), ("limit", number(5))]);
    let result = extract_args(&params, true);
    assert_eq!(result, object(vec![("basket", string("default")), ("limit", number(5))]));
}

#[test]
fn non_auth_positional_array_two_elements_returns_first() {
    // Non-auth methods always take index 0, even with 2 elements.
    let params = Json::Array(vec![string("identity_key_123"), string("ignored")]);
    let result = extract_args(&params, false);
    assert_eq!(result, string("identity_key_123"));
}

#[test]
fn non_auth_positional_array_one_element_returns_first() {
    let params = Json::Array(vec![string("identity_key_123")]);
    let result = extract_args(&params, false);
    assert_eq!(result, string("identity_key_123"));
}

#[test]
fn non_auth_empty_array_returns_null() {
    let params = Json::Array(vec![]);
    let result = extract_args(&params, false);
    assert_eq!(result, Json::Null);
}

#[test]
fn non_auth_object_params_returned_as_is() {
    let params = object(vec![("identityKey", string("abc123"))]);
    let result = extract_args(&params, false);
    assert_eq!(result, object(vec![("identityKey", string("abc123"))]));
}

#[test]
fn null_params_returned_as_is() {
    let params = Json::Null;
    let result = extract_args(&params, true);
    assert_eq!(result, Json::Null);

    let result = extract_args(&params, false);
    assert_eq!(result, Json::Null);
}

#[test]
fn string_params_returned_as_is() {
    // A raw string is not an array, so the match falls through to the default.
    let params = string("just_a_string");
    let result = extract_args(&params, true);
    assert_eq!(result, string("just_a_string"));
}

#[test]
fn number_params_returned_as_is() {
    let params = number(42);
    let result = extract_args(&params, false);
    assert_eq!(result, number(42));
}

#[test]
fn bool_params_returned_as_is() {
    let params = Json::Bool(true);
    let result = extract_args(&params, true);
    assert_eq!(result, Json::Bool(true));
}

#[test]
fn auth_flag_selects_different_index_for_two_element_array() {
    let params = Json::Array(vec![string("first"), string("second")]);

    // auth=true -> index 1
    let auth_result = extract_args(&params, true);
    assert_eq!(auth_result, string("second"));

    // auth=false -> index 0
    let non_auth_result = extract_args(&params, false);
    assert_eq!(non_auth_result, string("first"));
}

#[test]
fn nested_objects_in_array_preserved() {
    let params = Json::Array(vec![
        object(vec![("identityKey", string("auth_key"))]),
        object(vec![
            ("basket", string("default")),
            ("tags", Json::Array(vec![string("tag1"), string("tag2")])),
            ("nested", object(vec![("deep", Json::Bool(true))])),
        ]),
    ]);
    let result = extract_args(&params, true);
    assert_eq!(
        result,
        object(vec![
            ("basket", string("default")),
            ("tags", Json::Array(vec![string("tag1"), string("tag2")])),
            ("nested", object(vec![("deep", Json::Bool(true))])),
        ])
    );
}
