use ally_poller::config::build_config;
use ally_poller::controller::{Action, Controller, Event, Phase};
use ally_poller::errors::{AuthError, FetchError, StartupError};
use ally_poller::fetch::temperature_readings;
use ally_poller::json::JsonValue;
use ally_poller::model::{Device, Status, Token};
use ally_poller::persist::{plan_writes, plan_writes_at, WriteCommand, WriteStamp};
use ally_poller::store::Store;

fn token(expires_in: u64) -> Token {
    Token {
        access_token: "abc".to_string(),
        token_type: "Bearer".to_string(),
        expires_in,
    }
}

fn device(id: &str, name: &str, statuses: Vec<Status>) -> Device {
    Device {
        active_time: 1,
        create_time: 1,
        id: id.to_string(),
        name: name.to_string(),
        online: true,
        status: statuses,
        sub: false,
        time_zone: "UTC".to_string(),
        update_time: 1,
        device_type: "thermostat".to_string(),
    }
}

fn reading(code: &str, value: &str) -> Status {
    Status {
        code: code.to_string(),
        value: JsonValue::Num(value.to_string()),
    }
}

#[test]
fn live_token_is_not_renewed() {
    let mut c = Controller::new(token(3600));
    let a = c.step(Event::Slept { seconds: 30 });
    assert_eq!(a, Action::Fetch);
    assert_ne!(a, Action::Acquire);
    assert_eq!(c.elapsed_since_renewal, 30);
}

#[test]
fn expired_token_is_renewed_before_the_fetch() {
    let mut c = Controller::new(token(30));
    let a = c.step(Event::Slept { seconds: 30 });
    assert_eq!(a, Action::Acquire);
    assert_eq!(c.phase, Phase::Refreshing);
    let a = c.step(Event::Refreshed {
        outcome: Ok(token(3600)),
    });
    assert_eq!(a, Action::Fetch);
    assert_eq!(c.elapsed_since_renewal, 0);
    assert_eq!(c.token.expires_in, 3600);
}

#[test]
fn the_initial_token_is_expired() {
    let mut c = Controller::new(Token::initial());
    let a = c.step(Event::Slept { seconds: 30 });
    assert_eq!(a, Action::Acquire);
}

#[test]
fn failed_renewal_keeps_the_stale_token() {
    let mut c = Controller::new(token(30));
    c.step(Event::Slept { seconds: 30 });
    let a = c.step(Event::Refreshed {
        outcome: Err(AuthError::Network),
    });
    assert_eq!(a, Action::Fetch);
    assert_eq!(c.token.access_token, "abc");
    assert_eq!(c.elapsed_since_renewal, 30);
}

#[test]
fn unauthorized_fetch_skips_the_write() {
    let mut c = Controller::new(token(3600));
    c.devices = vec![device("d1", "Living Room", vec![])];
    c.step(Event::Slept { seconds: 30 });
    let a = c.step(Event::Fetched {
        outcome: Err(FetchError::Unauthorized),
    });
    assert_eq!(a, Action::Sleep);
    assert_ne!(a, Action::Write);
    assert_eq!(c.devices.len(), 1);
    assert_eq!(c.phase, Phase::Sleeping);
}

#[test]
fn a_full_cycle_walks_sleep_fetch_write() {
    let mut c = Controller::new(token(3600));
    assert_eq!(c.step(Event::Slept { seconds: 30 }), Action::Fetch);
    let fetched = vec![device("d1", "Living Room", vec![reading("temp_current", "21.5")])];
    assert_eq!(c.step(Event::Fetched { outcome: Ok(fetched) }), Action::Write);
    assert_eq!(c.devices.len(), 1);
    assert_eq!(c.step(Event::Written { outcome: Ok(()) }), Action::Sleep);
    assert_eq!(c.phase, Phase::Sleeping);
}

#[test]
fn temperature_codes_are_selected_for_logging() {
    let devices = vec![
        device(
            "d1",
            "Living Room",
            vec![
                reading("temp_current", "21.5"),
                reading("battery", "90"),
                reading("va_temperature", "215"),
            ],
        ),
        device("d2", "Hall", vec![reading("humidity", "40")]),
    ];
    let temps = temperature_readings(&devices);
    assert_eq!(
        temps,
        vec![
            ("Living Room".to_string(), "21.5".to_string()),
            ("Living Room".to_string(), "215".to_string()),
        ]
    );
}

fn stamp(epoch: i64, label: &str) -> WriteStamp {
    WriteStamp {
        epoch,
        label: label.to_string(),
    }
}

#[test]
fn one_cycle_writes_the_fetched_rows() {
    let devices = vec![device("d1", "Living Room", vec![reading("temp_current", "21.5")])];
    let cmds = plan_writes_at(&devices, &stamp(1, "t1"));
    assert_eq!(cmds.len(), 2);
    let mut store = Store::new();
    store.apply_all(cmds);
    assert_eq!(store.device_rows.len(), 1);
    assert_eq!(store.device_rows[0].id, "d1");
    assert_eq!(store.device_rows[0].name, "Living Room");
    assert_eq!(store.status_rows.len(), 1);
    assert_eq!(store.status_rows[0].code, "temp_current");
    assert_eq!(store.status_rows[0].value, "21.5");
    assert_eq!(store.status_rows[0].device_id, "d1");
    assert_eq!(store.status_rows[0].id, "d1_t1_0");
    assert_eq!(store.status_rows[0].update_time, 1);
}

#[test]
fn a_repeated_device_id_yields_one_device_row_and_status_history() {
    let mut store = Store::new();
    let first = vec![device("d1", "Living Room", vec![reading("temp_current", "21.5")])];
    store.apply_all(plan_writes_at(&first, &stamp(1, "t1")));
    let second = vec![device("d1", "Living Room", vec![reading("temp_current", "22.0")])];
    store.apply_all(plan_writes_at(&second, &stamp(2, "t2")));
    assert_eq!(store.device_rows.len(), 1);
    assert_eq!(store.status_rows.len(), 2);
    assert_eq!(store.status_rows[0].value, "21.5");
    assert_eq!(store.status_rows[1].value, "22.0");
}

#[test]
fn two_cycles_over_identical_responses_are_idempotent_for_devices() {
    let devices = vec![device("d1", "Living Room", vec![reading("temp_current", "21.5")])];
    let mut store = Store::new();
    store.apply_all(plan_writes_at(&devices, &stamp(1, "t1")));
    store.apply_all(plan_writes_at(&devices, &stamp(2, "t2")));
    assert_eq!(store.device_rows.len(), 1);
    assert_eq!(store.status_rows.len(), 2);
}

#[test]
fn upserts_keep_the_first_row_for_an_id() {
    let mut store = Store::new();
    let first = vec![device("d1", "Living Room", vec![])];
    store.apply_all(plan_writes_at(&first, &stamp(1, "t1")));
    let renamed = vec![device("d1", "Bedroom", vec![])];
    store.apply_all(plan_writes_at(&renamed, &stamp(2, "t2")));
    assert_eq!(store.device_rows.len(), 1);
    assert_eq!(store.device_rows[0].name, "Living Room");
}

#[test]
fn the_plan_upserts_before_it_inserts() {
    let devices = vec![device("d1", "Living Room", vec![reading("temp_current", "21.5")])];
    let cmds = plan_writes_at(&devices, &stamp(1, "t1"));
    assert!(matches!(cmds[0], WriteCommand::Upsert(_)));
    assert!(matches!(cmds[1], WriteCommand::Insert(_)));
}

#[test]
fn plan_writes_stamps_the_present_moment() {
    let devices = vec![device("d1", "Living Room", vec![reading("temp_current", "21.5")])];
    let cmds = plan_writes(&devices);
    assert_eq!(cmds.len(), 2);
    match &cmds[0] {
        WriteCommand::Upsert(row) => assert_eq!(row.id, "d1"),
        WriteCommand::Insert(_) => panic!("the device upsert must come first"),
    }
    match &cmds[1] {
        WriteCommand::Insert(row) => {
            assert_eq!(row.code, "temp_current");
            assert_eq!(row.value, "21.5");
            assert_eq!(row.device_id, "d1");
            assert!(row.id.starts_with("d1_"));
            assert!(row.id.ends_with("_0"));
            assert!(row.update_time > 0);
        }
        WriteCommand::Upsert(_) => panic!("the status insert must follow"),
    }
}

#[test]
fn missing_credentials_are_fatal() {
    let r = build_config(None, Some("s".to_string()), None, None, None, None);
    assert_eq!(r, Err(StartupError::MissingCredential));
    let r = build_config(Some("k".to_string()), None, None, None, None, None);
    assert_eq!(r, Err(StartupError::MissingCredential));
}

#[test]
fn database_settings_fall_back_to_defaults() {
    let c = build_config(
        Some("k".to_string()),
        Some("s".to_string()),
        None,
        None,
        None,
        None,
    )
    .unwrap();
    assert_eq!(c.postgres_password, "postgres");
    assert_eq!(c.postgres_user, "postgres");
    assert_eq!(c.postgres_host, "home-temp-database-1");
    assert_eq!(c.postgres_dbname, "home-temp");
    assert_eq!(
        c.connection_string(),
        "host=home-temp-database-1 user=postgres password=postgres dbname=home-temp"
    );
}

#[test]
fn explicit_database_settings_are_kept() {
    let c = build_config(
        Some("k".to_string()),
        Some("s".to_string()),
        Some("pw".to_string()),
        Some("u".to_string()),
        Some("h".to_string()),
        Some("db".to_string()),
    )
    .unwrap();
    assert_eq!(c.connection_string(), "host=h user=u password=pw dbname=db");
}
