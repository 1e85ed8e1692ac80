use ally_poller::auth::{basic_auth_header, decode_token_response};
use ally_poller::errors::{AuthError, FetchError};
use ally_poller::fetch::{bearer_header, decode_devices_response, decode_fetch_response};
use ally_poller::json::JsonValue;
use ally_poller::model::Token;
use ally_poller::text::{parse_i64, parse_u64, u64_to_string};

fn token_body(access_token: &str, token_type: &str, expires_in: &str) -> JsonValue {
    JsonValue::Obj(vec![
        ("access_token".to_string(), JsonValue::Str(access_token.to_string())),
        ("token_type".to_string(), JsonValue::Str(token_type.to_string())),
        ("expires_in".to_string(), JsonValue::Str(expires_in.to_string())),
    ])
}

#[test]
fn token_decodes_from_vendor_body() {
    let r = decode_token_response(Some(token_body("abc", "Bearer", "3600")));
    let t = r.unwrap();
    assert_eq!(t.access_token, "abc");
    assert_eq!(t.token_type, "Bearer");
    assert_eq!(t.expires_in, 3600);
}

#[test]
fn token_decode_rejects_non_numeric_lifetime() {
    let r = decode_token_response(Some(token_body("abc", "Bearer", "soon")));
    assert_eq!(r, Err(AuthError::Decode));
}

#[test]
fn token_decode_rejects_missing_field() {
    let body = JsonValue::Obj(vec![(
        "access_token".to_string(),
        JsonValue::Str("abc".to_string()),
    )]);
    assert_eq!(decode_token_response(Some(body)), Err(AuthError::Decode));
}

#[test]
fn token_decode_rejects_unparsable_body() {
    assert_eq!(decode_token_response(None), Err(AuthError::Decode));
}

#[test]
fn token_decode_rejects_non_object_body() {
    assert_eq!(
        decode_token_response(Some(JsonValue::Str("abc".to_string()))),
        Err(AuthError::Decode)
    );
}

#[test]
fn empty_result_is_an_empty_device_list() {
    let body = JsonValue::Obj(vec![
        ("result".to_string(), JsonValue::Arr(vec![])),
        ("t".to_string(), JsonValue::Num("1".to_string())),
    ]);
    let r = decode_devices_response(Some(body)).unwrap();
    assert!(r.is_empty());
}

fn sample_device_json() -> JsonValue {
    JsonValue::Obj(vec![
        ("active_time".to_string(), JsonValue::Num("1".to_string())),
        ("create_time".to_string(), JsonValue::Num("1".to_string())),
        ("id".to_string(), JsonValue::Str("d1".to_string())),
        ("name".to_string(), JsonValue::Str("Living Room".to_string())),
        ("online".to_string(), JsonValue::Bool(true)),
        (
            "status".to_string(),
            JsonValue::Arr(vec![JsonValue::Obj(vec![
                ("code".to_string(), JsonValue::Str("temp_current".to_string())),
                ("value".to_string(), JsonValue::Num("21.5".to_string())),
            ])]),
        ),
        ("sub".to_string(), JsonValue::Bool(false)),
        ("time_zone".to_string(), JsonValue::Str("UTC".to_string())),
        ("update_time".to_string(), JsonValue::Num("1".to_string())),
        ("device_type".to_string(), JsonValue::Str("thermostat".to_string())),
    ])
}

#[test]
fn device_decodes_from_vendor_envelope() {
    let body = JsonValue::Obj(vec![
        ("result".to_string(), JsonValue::Arr(vec![sample_device_json()])),
        ("t".to_string(), JsonValue::Num("1".to_string())),
    ]);
    let ds = decode_devices_response(Some(body)).unwrap();
    assert_eq!(ds.len(), 1);
    let d = &ds[0];
    assert_eq!(d.id, "d1");
    assert_eq!(d.name, "Living Room");
    assert!(d.online);
    assert!(!d.sub);
    assert_eq!(d.time_zone, "UTC");
    assert_eq!(d.device_type, "thermostat");
    assert_eq!(d.active_time, 1);
    assert_eq!(d.create_time, 1);
    assert_eq!(d.update_time, 1);
    assert_eq!(d.status.len(), 1);
    assert_eq!(d.status[0].code, "temp_current");
    assert_eq!(d.status[0].value, JsonValue::Num("21.5".to_string()));
}

#[test]
fn envelope_without_result_is_a_decode_error() {
    let body = JsonValue::Obj(vec![("t".to_string(), JsonValue::Num("1".to_string()))]);
    assert_eq!(decode_devices_response(Some(body)), Err(FetchError::Decode));
}

#[test]
fn device_with_bad_field_is_a_decode_error() {
    let device = JsonValue::Obj(vec![("id".to_string(), JsonValue::Bool(true))]);
    let body = JsonValue::Obj(vec![("result".to_string(), JsonValue::Arr(vec![device]))]);
    assert_eq!(decode_devices_response(Some(body)), Err(FetchError::Decode));
}

#[test]
fn rejected_bearer_token_is_unauthorized() {
    assert_eq!(decode_fetch_response(401, None), Err(FetchError::Unauthorized));
}

#[test]
fn failed_status_is_a_network_error() {
    assert_eq!(decode_fetch_response(500, None), Err(FetchError::Network));
}

#[test]
fn success_status_decodes_the_body() {
    let body = JsonValue::Obj(vec![("result".to_string(), JsonValue::Arr(vec![]))]);
    assert_eq!(decode_fetch_response(200, Some(body)), Ok(vec![]));
}

#[test]
fn parse_u64_reads_digits() {
    assert_eq!(parse_u64("0"), Some(0));
    assert_eq!(parse_u64("3600"), Some(3600));
    assert_eq!(parse_u64("18446744073709551615"), Some(u64::MAX));
    assert_eq!(parse_u64("18446744073709551616"), None);
    assert_eq!(parse_u64(""), None);
    assert_eq!(parse_u64("12a"), None);
    assert_eq!(parse_u64("-1"), None);
}

#[test]
fn parse_i64_reads_signed_digits() {
    assert_eq!(parse_i64("1"), Some(1));
    assert_eq!(parse_i64("-5"), Some(-5));
    assert_eq!(parse_i64("9223372036854775807"), Some(i64::MAX));
    assert_eq!(parse_i64("-9223372036854775808"), Some(i64::MIN));
    assert_eq!(parse_i64("9223372036854775808"), None);
    assert_eq!(parse_i64("21.5"), None);
    assert_eq!(parse_i64("-"), None);
}

#[test]
fn numbers_render_in_decimal() {
    assert_eq!(u64_to_string(0), "0");
    assert_eq!(u64_to_string(42), "42");
    assert_eq!(u64_to_string(18446744073709551615), "18446744073709551615");
}

#[test]
fn json_values_render_as_their_text() {
    assert_eq!(JsonValue::Null.to_text(), "null");
    assert_eq!(JsonValue::Bool(true).to_text(), "true");
    assert_eq!(JsonValue::Bool(false).to_text(), "false");
    assert_eq!(JsonValue::Num("21.5".to_string()).to_text(), "21.5");
    assert_eq!(JsonValue::Str("hi".to_string()).to_text(), "\"hi\"");
    assert_eq!(
        JsonValue::Str("a\"b\\c\nd".to_string()).to_text(),
        "\"a\\\"b\\\\c\\nd\""
    );
    assert_eq!(JsonValue::Str("\u{1}".to_string()).to_text(), "\"\\u0001\"");
    let arr = JsonValue::Arr(vec![
        JsonValue::Num("1".to_string()),
        JsonValue::Num("2".to_string()),
    ]);
    assert_eq!(arr.to_text(), "[1,2]");
    let obj = JsonValue::Obj(vec![
        ("a".to_string(), JsonValue::Num("1".to_string())),
        ("b".to_string(), JsonValue::Null),
    ]);
    assert_eq!(obj.to_text(), "{\"a\":1,\"b\":null}");
}

#[test]
fn basic_auth_header_encodes_the_credentials() {
    assert_eq!(basic_auth_header("key", "secret"), "Basic a2V5OnNlY3JldA==");
}

#[test]
fn bearer_header_carries_the_access_token() {
    let t = Token {
        access_token: "abc".to_string(),
        token_type: "Bearer".to_string(),
        expires_in: 3600,
    };
    assert_eq!(bearer_header(&t), "Bearer abc");
}
