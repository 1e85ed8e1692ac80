use vstd::prelude::*;

use crate::json::JsonValue;

verus! {

/// A bearer token and how many seconds it is advertised to live.
/// It counts as expired once `expires_in` seconds have elapsed since it was
/// acquired.
#[derive(Debug, PartialEq, Eq)]
pub struct Token {
    pub access_token: String,
    pub token_type: String,
    pub expires_in: u64,
}

/// One telemetry reading of a device: a channel code and an arbitrary JSON
/// value.
#[derive(Debug, PartialEq, Eq)]
pub struct Status {
    pub code: String,
    pub value: JsonValue,
}

/// One device as the vendor reports it, with its current status entries.
#[derive(Debug, PartialEq, Eq)]
pub struct Device {
    pub active_time: i64,
    pub create_time: i64,
    pub id: String,
    pub name: String,
    pub online: bool,
    pub status: Vec<Status>,
    pub sub: bool,
    pub time_zone: String,
    pub update_time: i64,
    pub device_type: String,
}

/// The mathematical shape of a status entry.
pub struct StatusV {
    pub code: Seq<char>,
    pub value: JsonValue,
}

/// The mathematical shape of a device.
pub struct DeviceV {
    pub active_time: i64,
    pub create_time: i64,
    pub id: Seq<char>,
    pub name: Seq<char>,
    pub online: bool,
    pub status: Seq<StatusV>,
    pub sub: bool,
    pub time_zone: Seq<char>,
    pub update_time: i64,
    pub device_type: Seq<char>,
}

impl View for Status {
    type V = StatusV;

    open spec fn view(&self) -> StatusV {
        StatusV { code: self.code@, value: self.value }
    }
}

impl View for Device {
    type V = DeviceV;

    open spec fn view(&self) -> DeviceV {
        DeviceV {
            active_time: self.active_time,
            create_time: self.create_time,
            id: self.id@,
            name: self.name@,
            online: self.online,
            status: self.status@.map_values(|s: Status| s@),
            sub: self.sub,
            time_zone: self.time_zone@,
            update_time: self.update_time,
            device_type: self.device_type@,
        }
    }
}

/// The views of a sequence of devices.
pub open spec fn devices_view(ds: Seq<Device>) -> Seq<DeviceV> {
    ds.map_values(|d: Device| d@)
}

impl Token {
    /// The placeholder token a fresh controller starts with; it is already
    /// expired, so the first cycle must acquire a real one.
    pub fn initial() -> (t: Token)
        ensures
            t.expires_in == 0,
            t.access_token@ == Seq::<char>::empty(),
            t.token_type@ == Seq::<char>::empty(),
    {
        Token { access_token: String::new(), token_type: String::new(), expires_in: 0 }
    }
}

} // verus!
