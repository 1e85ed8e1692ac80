use ally_poller::auth::decode_token_response;
use ally_poller::controller::{Action, Controller, Event};
use ally_poller::fetch::decode_fetch_response;
use ally_poller::json::JsonValue;
use ally_poller::model::Token;
use ally_poller::persist::{plan_writes_at, WriteStamp};
use ally_poller::store::Store;

fn mock_token_body() -> JsonValue {
    JsonValue::Obj(vec![
        ("access_token".to_string(), JsonValue::Str("abc".to_string())),
        ("token_type".to_string(), JsonValue::Str("Bearer".to_string())),
        ("expires_in".to_string(), JsonValue::Str("3600".to_string())),
    ])
}

fn mock_devices_body() -> JsonValue {
    JsonValue::Obj(vec![
        (
            "result".to_string(),
            JsonValue::Arr(vec![JsonValue::Obj(vec![
                ("active_time".to_string(), JsonValue::Num("1".to_string())),
                ("create_time".to_string(), JsonValue::Num("1".to_string())),
                ("id".to_string(), JsonValue::Str("d1".to_string())),
                ("name".to_string(), JsonValue::Str("Living Room".to_string())),
                ("online".to_string(), JsonValue::Bool(true)),
                (
                    "status".to_string(),
                    JsonValue::Arr(vec![JsonValue::Obj(vec![
                        ("code".to_string(), JsonValue::Str("temp_current".to_string())),
                        ("value".to_string(), JsonValue::Num("21.5".to_string())),
                    ])]),
                ),
                ("sub".to_string(), JsonValue::Bool(false)),
                ("time_zone".to_string(), JsonValue::Str("UTC".to_string())),
                ("update_time".to_string(), JsonValue::Num("1".to_string())),
                ("device_type".to_string(), JsonValue::Str("thermostat".to_string())),
            ])]),
        ),
        ("t".to_string(), JsonValue::Num("1".to_string())),
    ])
}

/// One whole cycle against the mock endpoint bodies: after it, the store
/// holds one device row `d1` and one status row `temp_current` / `21.5`.
#[test]
fn one_cycle_against_mock_endpoints_fills_the_store() {
    let mut controller = Controller::new(Token::initial());
    let mut store = Store::new();

    let action = controller.step(Event::Slept { seconds: 30 });
    assert_eq!(action, Action::Acquire);

    let token = decode_token_response(Some(mock_token_body()));
    let action = controller.step(Event::Refreshed { outcome: token });
    assert_eq!(action, Action::Fetch);
    assert_eq!(controller.token.access_token, "abc");
    assert_eq!(controller.token.expires_in, 3600);

    let fetched = decode_fetch_response(200, Some(mock_devices_body()));
    let action = controller.step(Event::Fetched { outcome: fetched });
    assert_eq!(action, Action::Write);

    let stamp = WriteStamp {
        epoch: 7,
        label: "t1".to_string(),
    };
    let cmds = plan_writes_at(&controller.devices, &stamp);
    store.apply_all(cmds);
    let action = controller.step(Event::Written { outcome: Ok(()) });
    assert_eq!(action, Action::Sleep);

    assert_eq!(store.device_rows.len(), 1);
    assert_eq!(store.device_rows[0].id, "d1");
    assert_eq!(store.status_rows.len(), 1);
    assert_eq!(store.status_rows[0].code, "temp_current");
    assert_eq!(store.status_rows[0].value, "21.5");
    assert_eq!(store.status_rows[0].device_id, "d1");
}

/// A second cycle over the identical response adds no device row and one
/// more status row.
#[test]
fn a_second_identical_cycle_only_extends_status_history() {
    let mut store = Store::new();
    let devices = decode_fetch_response(200, Some(mock_devices_body())).unwrap();
    store.apply_all(plan_writes_at(
        &devices,
        &WriteStamp { epoch: 7, label: "t1".to_string() },
    ));
    store.apply_all(plan_writes_at(
        &devices,
        &WriteStamp { epoch: 8, label: "t2".to_string() },
    ));
    assert_eq!(store.device_rows.len(), 1);
    assert_eq!(store.status_rows.len(), 2);
}
