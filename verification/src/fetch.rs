use vstd::prelude::*;

use crate::errors::FetchError;
use crate::json::{obj_lookup, lookup_field, render, JsonValue};
use crate::model::{devices_view, Device, DeviceV, Status, StatusV, Token};
use crate::text::{parse_i64, spec_parse_i64, str_eq};

verus! {

/// The value of the `authorization` header for the devices request:
/// `Bearer ` followed by the access token.
pub fn bearer_header(token: &Token) -> (r: String)
    ensures
        r@ == "Bearer "@ + token.access_token@,
{
    let mut r = String::from_str("Bearer ");
    r.append(token.access_token.as_str());
    r
}

/// Takes the first field with the given name out of an object's field list.
fn take_field(fields: Vec<(String, JsonValue)>, key: &str) -> (r: Option<JsonValue>)
    ensures
        r == obj_lookup(fields@, key@),
{
    let ghost all = fields@;
    let mut rest = fields;
    let mut found: Option<JsonValue> = None;
    proof {
        assert(all.take(all.len() as int) =~= all);
        assert(all.skip(all.len() as int) =~= Seq::<(String, JsonValue)>::empty());
    }
    while rest.len() > 0
        invariant
            rest@.len() <= all.len(),
            rest@ == all.take(rest@.len() as int),
            found == obj_lookup(all.skip(rest@.len() as int), key@),
        decreases rest@.len(),
    {
        let ghost i = rest@.len() as int;
        let popped = rest.pop();
        match popped {
            Some((k, val)) => {
                proof {
                    assert(all.skip(i - 1)[0] == all[i - 1]);
                    assert(all.skip(i - 1).drop_first() =~= all.skip(i));
                    assert(rest@ =~= all.take(i - 1));
                }
                if str_eq(k.as_str(), key) {
                    found = Some(val);
                }
            },
            None => {
                proof {
                    assert(false);
                }
            },
        }
    }
    proof {
        assert(all.skip(0) =~= all);
    }
    found
}

/// What one entry of a device's `status` array yields: a status exactly when
/// it is an object with a string `code` and any `value`.
pub open spec fn spec_decode_status(v: JsonValue) -> Result<StatusV, FetchError> {
    match v {
        JsonValue::Obj(fields) => {
            match (obj_lookup(fields@, "code"@), obj_lookup(fields@, "value"@)) {
                (Some(JsonValue::Str(c)), Some(val)) => Ok(StatusV { code: c@, value: val }),
                _ => Err(FetchError::Decode),
            }
        },
        _ => Err(FetchError::Decode),
    }
}

fn decode_status(v: JsonValue) -> (r: Result<Status, FetchError>)
    ensures
        match r {
            Ok(s) => spec_decode_status(v) == Ok::<StatusV, FetchError>(s@),
            Err(e) => spec_decode_status(v) == Err::<StatusV, FetchError>(e),
        },
{
    match v {
        JsonValue::Obj(fields) => {
            let code_opt: Option<String> = match lookup_field(&fields, "code") {
                Some(JsonValue::Str(c)) => Some(c.clone()),
                _ => None,
            };
            match (code_opt, take_field(fields, "value")) {
                (Some(c), Some(val)) => Ok(Status { code: c, value: val }),
                _ => Err(FetchError::Decode),
            }
        },
        _ => Err(FetchError::Decode),
    }
}

/// What a whole `status` array yields: every entry decoded, in order, or the
/// first failure.
pub open spec fn spec_decode_status_list(items: Seq<JsonValue>) -> Result<
    Seq<StatusV>,
    FetchError,
>
    decreases items.len(),
{
    if items.len() == 0 {
        Ok(Seq::empty())
    } else {
        match spec_decode_status_list(items.drop_last()) {
            Ok(ss) => match spec_decode_status(items.last()) {
                Ok(s) => Ok(ss.push(s)),
                Err(e) => Err(e),
            },
            Err(e) => Err(e),
        }
    }
}

proof fn lemma_status_list_take_step(s: Seq<JsonValue>, i: int)
    requires
        0 < i <= s.len(),
    ensures
        spec_decode_status_list(s.take(i)) == (match spec_decode_status_list(s.take(i - 1)) {
            Ok(ss) => match spec_decode_status(s[i - 1]) {
                Ok(x) => Ok::<Seq<StatusV>, FetchError>(ss.push(x)),
                Err(e) => Err::<Seq<StatusV>, FetchError>(e),
            },
            Err(e) => Err::<Seq<StatusV>, FetchError>(e),
        }),
{
    assert(s.take(i).drop_last() =~= s.take(i - 1));
    assert(s.take(i).last() == s[i - 1]);
}

proof fn lemma_status_list_err_sticks(s: Seq<JsonValue>, i: int)
    requires
        0 <= i <= s.len(),
        spec_decode_status_list(s.take(i)) is Err,
    ensures
        spec_decode_status_list(s) == spec_decode_status_list(s.take(i)),
    decreases s.len() - i,
{
    if i < s.len() {
        lemma_status_list_take_step(s, i + 1);
        lemma_status_list_err_sticks(s, i + 1);
    } else {
        assert(s.take(i) =~= s);
    }
}

#[verifier::loop_isolation(false)]
fn decode_status_list(items: Vec<JsonValue>) -> (r: Result<Vec<Status>, FetchError>)
    ensures
        match r {
            Ok(ss) => spec_decode_status_list(items@) == Ok::<Seq<StatusV>, FetchError>(
                ss@.map_values(|s: Status| s@),
            ),
            Err(e) => spec_decode_status_list(items@) == Err::<Seq<StatusV>, FetchError>(e),
        },
{
    let ghost all = items@;
    let mut rest = items;
    let mut out: Vec<Status> = Vec::new();
    proof {
        assert(all.skip(0) =~= all);
        assert(all.take(0) =~= Seq::<JsonValue>::empty());
        assert(out@.map_values(|s: Status| s@) =~= Seq::<StatusV>::empty());
    }
    while rest.len() > 0
        invariant
            rest@ == all.skip(all.len() - rest@.len()),
            rest@.len() <= all.len(),
            spec_decode_status_list(all.take(all.len() - rest@.len())) == Ok::<
                Seq<StatusV>,
                FetchError,
            >(out@.map_values(|s: Status| s@)),
        decreases rest@.len(),
    {
        let ghost k = all.len() - rest@.len();
        proof {
            assert(rest@[0] == all[k]);
        }
        let item = rest.remove(0);
        match decode_status(item) {
            Ok(s) => {
                out.push(s);
                proof {
                    lemma_status_list_take_step(all, k + 1);
                    assert(rest@ =~= all.skip(all.len() - rest@.len()));
                    assert(out@.map_values(|s: Status| s@) =~= spec_decode_status_list(
                        all.take(k + 1),
                    )->Ok_0);
                }
            },
            Err(e) => {
                proof {
                    lemma_status_list_take_step(all, k + 1);
                    assert(spec_decode_status_list(all.take(k + 1)) == Err::<
                        Seq<StatusV>,
                        FetchError,
                    >(e));
                    lemma_status_list_err_sticks(all, k + 1);
                    assert(spec_decode_status_list(all) == Err::<Seq<StatusV>, FetchError>(e));
                }
                return Err(e);
            },
        }
    }
    proof {
        assert(all.take(all.len() as int) =~= all);
    }
    Ok(out)
}

/// What one entry of the envelope's `result` array yields: a device exactly
/// when it is an object whose `id`, `name`, `time_zone` and `device_type` are
/// strings, whose `active_time`, `create_time` and `update_time` are integer
/// numbers in range, whose `online` and `sub` are booleans, and whose
/// `status` is an array of well-formed status entries.
pub open spec fn spec_decode_device(v: JsonValue) -> Result<DeviceV, FetchError> {
    match v {
        JsonValue::Obj(fields) => {
            match (
                obj_lookup(fields@, "id"@),
                obj_lookup(fields@, "name"@),
                obj_lookup(fields@, "time_zone"@),
                obj_lookup(fields@, "device_type"@),
            ) {
                (
                    Some(JsonValue::Str(id)),
                    Some(JsonValue::Str(name)),
                    Some(JsonValue::Str(tz)),
                    Some(JsonValue::Str(ty)),
                ) => {
                    match (
                        obj_lookup(fields@, "active_time"@),
                        obj_lookup(fields@, "create_time"@),
                        obj_lookup(fields@, "update_time"@),
                    ) {
                        (
                            Some(JsonValue::Num(a)),
                            Some(JsonValue::Num(c)),
                            Some(JsonValue::Num(u)),
                        ) => {
                            match (spec_parse_i64(a@), spec_parse_i64(c@), spec_parse_i64(u@)) {
                                (Some(at), Some(ct), Some(ut)) => {
                                    match (
                                        obj_lookup(fields@, "online"@),
                                        obj_lookup(fields@, "sub"@),
                                        obj_lookup(fields@, "status"@),
                                    ) {
                                        (
                                            Some(JsonValue::Bool(on)),
                                            Some(JsonValue::Bool(sb)),
                                            Some(JsonValue::Arr(sts)),
                                        ) => {
                                            match spec_decode_status_list(sts@) {
                                                Ok(ss) => Ok(
                                                    DeviceV {
                                                        active_time: at,
                                                        create_time: ct,
                                                        id: id@,
                                                        name: name@,
                                                        online: on,
                                                        status: ss,
                                                        sub: sb,
                                                        time_zone: tz@,
                                                        update_time: ut,
                                                        device_type: ty@,
                                                    },
                                                ),
                                                Err(e) => Err(e),
                                            }
                                        },
                                        _ => Err(FetchError::Decode),
                                    }
                                },
                                _ => Err(FetchError::Decode),
                            }
                        },
                        _ => Err(FetchError::Decode),
                    }
                },
                _ => Err(FetchError::Decode),
            }
        },
        _ => Err(FetchError::Decode),
    }
}

fn decode_device(v: JsonValue) -> (r: Result<Device, FetchError>)
    ensures
        match r {
            Ok(d) => spec_decode_device(v) == Ok::<DeviceV, FetchError>(d@),
            Err(e) => spec_decode_device(v) == Err::<DeviceV, FetchError>(e),
        },
{
    match v {
        JsonValue::Obj(fields) => {
            let id_o: Option<String> = match lookup_field(&fields, "id") {
                Some(JsonValue::Str(s)) => Some(s.clone()),
                _ => None,
            };
            let name_o: Option<String> = match lookup_field(&fields, "name") {
                Some(JsonValue::Str(s)) => Some(s.clone()),
                _ => None,
            };
            let tz_o: Option<String> = match lookup_field(&fields, "time_zone") {
                Some(JsonValue::Str(s)) => Some(s.clone()),
                _ => None,
            };
            let ty_o: Option<String> = match lookup_field(&fields, "device_type") {
                Some(JsonValue::Str(s)) => Some(s.clone()),
                _ => None,
            };
            let at_o: Option<i64> = match lookup_field(&fields, "active_time") {
                Some(JsonValue::Num(s)) => parse_i64(s.as_str()),
                _ => None,
            };
            let ct_o: Option<i64> = match lookup_field(&fields, "create_time") {
                Some(JsonValue::Num(s)) => parse_i64(s.as_str()),
                _ => None,
            };
            let ut_o: Option<i64> = match lookup_field(&fields, "update_time") {
                Some(JsonValue::Num(s)) => parse_i64(s.as_str()),
                _ => None,
            };
            let on_o: Option<bool> = match lookup_field(&fields, "online") {
                Some(JsonValue::Bool(b)) => Some(*b),
                _ => None,
            };
            let sb_o: Option<bool> = match lookup_field(&fields, "sub") {
                Some(JsonValue::Bool(b)) => Some(*b),
                _ => None,
            };
            match (id_o, name_o, tz_o, ty_o) {
                (Some(id), Some(name), Some(tz), Some(ty)) => {
                    match (at_o, ct_o, ut_o, on_o, sb_o) {
                        (Some(at), Some(ct), Some(ut), Some(on), Some(sb)) => {
                            match take_field(fields, "status") {
                                Some(JsonValue::Arr(sts)) => {
                                    match decode_status_list(sts) {
                                        Ok(ss) => Ok(
                                            Device {
                                                active_time: at,
                                                create_time: ct,
                                                id,
                                                name,
                                                online: on,
                                                status: ss,
                                                sub: sb,
                                                time_zone: tz,
                                                update_time: ut,
                                                device_type: ty,
                                            },
                                        ),
                                        Err(e) => Err(e),
                                    }
                                },
                                _ => Err(FetchError::Decode),
                            }
                        },
                        _ => Err(FetchError::Decode),
                    }
                },
                _ => Err(FetchError::Decode),
            }
        },
        _ => Err(FetchError::Decode),
    }
}

/// What the envelope's `result` array yields: every device decoded, in
/// order, or the first failure.
pub open spec fn spec_decode_device_list(items: Seq<JsonValue>) -> Result<
    Seq<DeviceV>,
    FetchError,
>
    decreases items.len(),
{
    if items.len() == 0 {
        Ok(Seq::empty())
    } else {
        match spec_decode_device_list(items.drop_last()) {
            Ok(ds) => match spec_decode_device(items.last()) {
                Ok(d) => Ok(ds.push(d)),
                Err(e) => Err(e),
            },
            Err(e) => Err(e),
        }
    }
}

proof fn lemma_device_list_take_step(s: Seq<JsonValue>, i: int)
    requires
        0 < i <= s.len(),
    ensures
        spec_decode_device_list(s.take(i)) == (match spec_decode_device_list(s.take(i - 1)) {
            Ok(ds) => match spec_decode_device(s[i - 1]) {
                Ok(d) => Ok::<Seq<DeviceV>, FetchError>(ds.push(d)),
                Err(e) => Err::<Seq<DeviceV>, FetchError>(e),
            },
            Err(e) => Err::<Seq<DeviceV>, FetchError>(e),
        }),
{
    assert(s.take(i).drop_last() =~= s.take(i - 1));
    assert(s.take(i).last() == s[i - 1]);
}

proof fn lemma_device_list_err_sticks(s: Seq<JsonValue>, i: int)
    requires
        0 <= i <= s.len(),
        spec_decode_device_list(s.take(i)) is Err,
    ensures
        spec_decode_device_list(s) == spec_decode_device_list(s.take(i)),
    decreases s.len() - i,
{
    if i < s.len() {
        lemma_device_list_take_step(s, i + 1);
        lemma_device_list_err_sticks(s, i + 1);
    } else {
        assert(s.take(i) =~= s);
    }
}

#[verifier::loop_isolation(false)]
fn decode_device_list(items: Vec<JsonValue>) -> (r: Result<Vec<Device>, FetchError>)
    ensures
        match r {
            Ok(ds) => spec_decode_device_list(items@) == Ok::<Seq<DeviceV>, FetchError>(
                devices_view(ds@),
            ),
            Err(e) => spec_decode_device_list(items@) == Err::<Seq<DeviceV>, FetchError>(e),
        },
{
    let ghost all = items@;
    let mut rest = items;
    let mut out: Vec<Device> = Vec::new();
    proof {
        assert(all.skip(0) =~= all);
        assert(all.take(0) =~= Seq::<JsonValue>::empty());
        assert(devices_view(out@) =~= Seq::<DeviceV>::empty());
    }
    while rest.len() > 0
        invariant
            rest@ == all.skip(all.len() - rest@.len()),
            rest@.len() <= all.len(),
            spec_decode_device_list(all.take(all.len() - rest@.len())) == Ok::<
                Seq<DeviceV>,
                FetchError,
            >(devices_view(out@)),
        decreases rest@.len(),
    {
        let ghost k = all.len() - rest@.len();
        proof {
            assert(rest@[0] == all[k]);
        }
        let item = rest.remove(0);
        match decode_device(item) {
            Ok(d) => {
                out.push(d);
                proof {
                    lemma_device_list_take_step(all, k + 1);
                    assert(rest@ =~= all.skip(all.len() - rest@.len()));
                    assert(devices_view(out@) =~= spec_decode_device_list(all.take(k + 1))->Ok_0);
                }
            },
            Err(e) => {
                proof {
                    lemma_device_list_take_step(all, k + 1);
                    assert(spec_decode_device_list(all.take(k + 1)) == Err::<
                        Seq<DeviceV>,
                        FetchError,
                    >(e));
                    lemma_device_list_err_sticks(all, k + 1);
                    assert(spec_decode_device_list(all) == Err::<Seq<DeviceV>, FetchError>(e));
                }
                return Err(e);
            },
        }
    }
    proof {
        assert(all.take(all.len() as int) =~= all);
    }
    Ok(out)
}

/// What the devices endpoint's decoded JSON body yields: the device sequence
/// under `result` (any other envelope field, such as the server timestamp,
/// is ignored), or the decode error. `None` stands for a body that was not
/// JSON at all.
pub open spec fn spec_decode_devices(body: Option<JsonValue>) -> Result<
    Seq<DeviceV>,
    FetchError,
> {
    match body {
        Option::None => Err(FetchError::Decode),
        Option::Some(v) => match v {
            JsonValue::Obj(fields) => match obj_lookup(fields@, "result"@) {
                Some(JsonValue::Arr(items)) => spec_decode_device_list(items@),
                _ => Err(FetchError::Decode),
            },
            _ => Err(FetchError::Decode),
        },
    }
}

/// Reads the devices endpoint's response body, already split into JSON (or
/// `None` where the body was not JSON). An empty `result` array yields an
/// empty device list, not an error.
pub fn decode_devices_response(body: Option<JsonValue>) -> (r: Result<Vec<Device>, FetchError>)
    ensures
        match r {
            Ok(ds) => spec_decode_devices(body) == Ok::<Seq<DeviceV>, FetchError>(
                devices_view(ds@),
            ),
            Err(e) => spec_decode_devices(body) == Err::<Seq<DeviceV>, FetchError>(e),
        },
{
    match body {
        Option::None => Err(FetchError::Decode),
        Option::Some(v) => match v {
            JsonValue::Obj(fields) => match take_field(fields, "result") {
                Some(JsonValue::Arr(items)) => decode_device_list(items),
                _ => Err(FetchError::Decode),
            },
            _ => Err(FetchError::Decode),
        },
    }
}

/// What a whole fetch attempt yields once the transport has answered: the
/// bearer token was rejected, or a success status whose body is decoded, or
/// a failed status treated as a transport-level failure.
pub open spec fn spec_fetch_outcome(status: u16, body: Option<JsonValue>) -> Result<
    Seq<DeviceV>,
    FetchError,
> {
    if status == 401 {
        Err(FetchError::Unauthorized)
    } else if 200 <= status && status < 300 {
        spec_decode_devices(body)
    } else {
        Err(FetchError::Network)
    }
}

/// Classifies the devices endpoint's answer: a 401 means the server rejected
/// the bearer token, any other non-success status counts as a failed
/// transport, and a success status has its body decoded.
pub fn decode_fetch_response(status: u16, body: Option<JsonValue>) -> (r: Result<
    Vec<Device>,
    FetchError,
>)
    ensures
        match r {
            Ok(ds) => spec_fetch_outcome(status, body) == Ok::<Seq<DeviceV>, FetchError>(
                devices_view(ds@),
            ),
            Err(e) => spec_fetch_outcome(status, body) == Err::<Seq<DeviceV>, FetchError>(e),
        },
{
    if status == 401 {
        Err(FetchError::Unauthorized)
    } else if 200 <= status && status < 300 {
        decode_devices_response(body)
    } else {
        Err(FetchError::Network)
    }
}

/// The telemetry channels whose readings are worth logging each cycle.
pub open spec fn is_temp_code(c: Seq<char>) -> bool {
    c == "va_temperature"@ || c == "temp_current"@
}

/// The temperature readings of one device's status entries, in order: the
/// device's name paired with the reading's JSON text.
pub open spec fn spec_device_temps(name: Seq<char>, ss: Seq<StatusV>) -> Seq<
    (Seq<char>, Seq<char>),
>
    decreases ss.len(),
{
    if ss.len() == 0 {
        Seq::empty()
    } else {
        spec_device_temps(name, ss.drop_last()) + (if is_temp_code(ss.last().code) {
            seq![(name, render(ss.last().value))]
        } else {
            Seq::empty()
        })
    }
}

/// The temperature readings of a whole device list, in order.
pub open spec fn spec_temps(ds: Seq<DeviceV>) -> Seq<(Seq<char>, Seq<char>)>
    decreases ds.len(),
{
    if ds.len() == 0 {
        Seq::empty()
    } else {
        spec_temps(ds.drop_last()) + spec_device_temps(ds.last().name, ds.last().status)
    }
}

proof fn lemma_device_temps_take_step(name: Seq<char>, ss: Seq<StatusV>, i: int)
    requires
        0 < i <= ss.len(),
    ensures
        spec_device_temps(name, ss.take(i)) == spec_device_temps(name, ss.take(i - 1)) + (
        if is_temp_code(ss[i - 1].code) {
            seq![(name, render(ss[i - 1].value))]
        } else {
            Seq::<(Seq<char>, Seq<char>)>::empty()
        }),
{
    assert(ss.take(i).drop_last() =~= ss.take(i - 1));
    assert(ss.take(i).last() == ss[i - 1]);
}

proof fn lemma_temps_take_step(ds: Seq<DeviceV>, i: int)
    requires
        0 < i <= ds.len(),
    ensures
        spec_temps(ds.take(i)) == spec_temps(ds.take(i - 1)) + spec_device_temps(
            ds[i - 1].name,
            ds[i - 1].status,
        ),
{
    assert(ds.take(i).drop_last() =~= ds.take(i - 1));
    assert(ds.take(i).last() == ds[i - 1]);
}

/// The readings to log this cycle: for every device, each status entry whose
/// code is a temperature channel, as the device name and the reading's JSON
/// text, in device order.
pub fn temperature_readings(devices: &Vec<Device>) -> (r: Vec<(String, String)>)
    ensures
        r@.map_values(|p: (String, String)| (p.0@, p.1@)) == spec_temps(devices_view(devices@)),
{
    let ghost dv = devices_view(devices@);
    let mut out: Vec<(String, String)> = Vec::new();
    proof {
        assert(dv.take(0) =~= Seq::<DeviceV>::empty());
        assert(out@.map_values(|p: (String, String)| (p.0@, p.1@)) =~= Seq::<
            (Seq<char>, Seq<char>),
        >::empty());
    }
    let mut i: usize = 0;
    while i < devices.len()
        invariant
            0 <= i <= devices@.len(),
            dv == devices_view(devices@),
            out@.map_values(|p: (String, String)| (p.0@, p.1@)) == spec_temps(dv.take(i as int)),
        decreases devices@.len() - i,
    {
        let d = &devices[i];
        proof {
            assert(dv[i as int] == devices@[i as int]@);
        }
        let ghost sv = dv[i as int].status;
        let mut j: usize = 0;
        proof {
            assert(sv.take(0) =~= Seq::<StatusV>::empty());
            assert(spec_device_temps(dv[i as int].name, sv.take(0)) =~= Seq::<
                (Seq<char>, Seq<char>),
            >::empty());
        }
        while j < d.status.len()
            invariant
                0 <= j <= d.status@.len(),
                dv == devices_view(devices@),
                0 <= i < devices@.len(),
                *d == devices@[i as int],
                sv == dv[i as int].status,
                sv.len() == d.status@.len(),
                out@.map_values(|p: (String, String)| (p.0@, p.1@)) == spec_temps(
                    dv.take(i as int),
                ) + spec_device_temps(dv[i as int].name, sv.take(j as int)),
            decreases d.status@.len() - j,
        {
            proof {
                assert(sv[j as int] == d.status@[j as int]@);
            }
            let s = &d.status[j];
            let ghost before = out@.map_values(|p: (String, String)| (p.0@, p.1@));
            if str_eq(s.code.as_str(), "va_temperature") || str_eq(s.code.as_str(), "temp_current")
                {
                let text = s.value.to_text();
                let name = d.name.clone();
                proof {
                    assert(name@ == dv[i as int].name);
                    assert(text@ == render(sv[j as int].value));
                }
                out.push((name, text));
                proof {
                    assert(out@.map_values(|p: (String, String)| (p.0@, p.1@)) =~= before.push(
                        (dv[i as int].name, render(sv[j as int].value)),
                    ));
                }
            }
            proof {
                lemma_device_temps_take_step(dv[i as int].name, sv, j + 1);
                assert(out@.map_values(|p: (String, String)| (p.0@, p.1@)) =~= spec_temps(
                    dv.take(i as int),
                ) + spec_device_temps(dv[i as int].name, sv.take(j + 1)));
            }
            j = j + 1;
        }
        proof {
            assert(sv.take(sv.len() as int) =~= sv);
            lemma_temps_take_step(dv, i + 1);
        }
        i = i + 1;
    }
    proof {
        assert(dv.take(devices@.len() as int) =~= dv);
    }
    out
}

} // verus!
