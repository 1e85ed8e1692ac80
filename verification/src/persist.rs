use vstd::prelude::*;

use crate::json::render;
use crate::model::{devices_view, Device, DeviceV};
use crate::text::{dec_digits, push_char, u64_to_string};

verus! {

/// The moment a cycle's rows are captured: the epoch second for the
/// `update_time` column and a textual label woven into each status row's
/// synthesized identifier.
pub struct WriteStamp {
    pub epoch: i64,
    pub label: String,
}

/// One row of the device table.
#[derive(Debug, PartialEq, Eq)]
pub struct DeviceRow {
    pub active_time: i64,
    pub create_time: i64,
    pub id: String,
    pub name: String,
    pub online: bool,
    pub sub: bool,
    pub time_zone: String,
    pub update_time: i64,
    pub device_type: String,
}

/// One row of the status table.
#[derive(Debug, PartialEq, Eq)]
pub struct StatusRow {
    pub code: String,
    pub value: String,
    pub device_id: String,
    pub id: String,
    pub update_time: i64,
}

/// One write of a cycle: a duplicate-safe device upsert or a status insert.
#[derive(Debug, PartialEq, Eq)]
pub enum WriteCommand {
    Upsert(DeviceRow),
    Insert(StatusRow),
}

/// The mathematical shape of a device row.
pub struct DeviceRowV {
    pub active_time: i64,
    pub create_time: i64,
    pub id: Seq<char>,
    pub name: Seq<char>,
    pub online: bool,
    pub sub: bool,
    pub time_zone: Seq<char>,
    pub update_time: i64,
    pub device_type: Seq<char>,
}

/// The mathematical shape of a status row.
pub struct StatusRowV {
    pub code: Seq<char>,
    pub value: Seq<char>,
    pub device_id: Seq<char>,
    pub id: Seq<char>,
    pub update_time: i64,
}

/// The mathematical shape of a write.
pub enum WriteCommandV {
    Upsert(DeviceRowV),
    Insert(StatusRowV),
}

impl View for DeviceRow {
    type V = DeviceRowV;

    open spec fn view(&self) -> DeviceRowV {
        DeviceRowV {
            active_time: self.active_time,
            create_time: self.create_time,
            id: self.id@,
            name: self.name@,
            online: self.online,
            sub: self.sub,
            time_zone: self.time_zone@,
            update_time: self.update_time,
            device_type: self.device_type@,
        }
    }
}

impl View for StatusRow {
    type V = StatusRowV;

    open spec fn view(&self) -> StatusRowV {
        StatusRowV {
            code: self.code@,
            value: self.value@,
            device_id: self.device_id@,
            id: self.id@,
            update_time: self.update_time,
        }
    }
}

impl View for WriteCommand {
    type V = WriteCommandV;

    open spec fn view(&self) -> WriteCommandV {
        match self {
            WriteCommand::Upsert(r) => WriteCommandV::Upsert(r@),
            WriteCommand::Insert(r) => WriteCommandV::Insert(r@),
        }
    }
}

/// The device row a device maps to: every scalar field carried over.
pub open spec fn device_row_of(d: DeviceV) -> DeviceRowV {
    DeviceRowV {
        active_time: d.active_time,
        create_time: d.create_time,
        id: d.id,
        name: d.name,
        online: d.online,
        sub: d.sub,
        time_zone: d.time_zone,
        update_time: d.update_time,
        device_type: d.device_type,
    }
}

/// The synthesized identifier of a status row: the owning device id, the
/// stamp's label and the entry's position, joined with underscores, so that
/// rows of one capture are told apart.
pub open spec fn status_row_id(device_id: Seq<char>, label: Seq<char>, k: nat) -> Seq<char> {
    device_id + seq!['_'] + label + seq!['_'] + dec_digits(k)
}

/// The status row the `k`-th status entry of a device maps to: the channel
/// code, the reading's JSON text, the owning device id, the synthesized row
/// id and the capture time.
pub open spec fn status_row_of(d: DeviceV, k: nat, epoch: i64, label: Seq<char>) -> StatusRowV {
    StatusRowV {
        code: d.status[k as int].code,
        value: render(d.status[k as int].value),
        device_id: d.id,
        id: status_row_id(d.id, label, k),
        update_time: epoch,
    }
}

/// The status inserts of one device's first `k` status entries, in order.
pub open spec fn spec_status_cmds(d: DeviceV, epoch: i64, label: Seq<char>, k: nat) -> Seq<
    WriteCommandV,
>
    decreases k,
{
    if k == 0 {
        Seq::empty()
    } else {
        spec_status_cmds(d, epoch, label, (k - 1) as nat) + seq![
            WriteCommandV::Insert(status_row_of(d, (k - 1) as nat, epoch, label)),
        ]
    }
}

/// The writes of one device: its upsert, then one insert per status entry.
pub open spec fn spec_device_cmds(d: DeviceV, epoch: i64, label: Seq<char>) -> Seq<
    WriteCommandV,
> {
    seq![WriteCommandV::Upsert(device_row_of(d))] + spec_status_cmds(d, epoch, label, d.status.len())
}

/// The writes of one cycle: each device's writes, in device order.
pub open spec fn spec_plan(ds: Seq<DeviceV>, epoch: i64, label: Seq<char>) -> Seq<WriteCommandV>
    decreases ds.len(),
{
    if ds.len() == 0 {
        Seq::empty()
    } else {
        spec_plan(ds.drop_last(), epoch, label) + spec_device_cmds(ds.last(), epoch, label)
    }
}

proof fn lemma_plan_take_step(ds: Seq<DeviceV>, epoch: i64, label: Seq<char>, i: int)
    requires
        0 < i <= ds.len(),
    ensures
        spec_plan(ds.take(i), epoch, label) == spec_plan(ds.take(i - 1), epoch, label)
            + spec_device_cmds(ds[i - 1], epoch, label),
{
    assert(ds.take(i).drop_last() =~= ds.take(i - 1));
    assert(ds.take(i).last() == ds[i - 1]);
}

/// Maps a cycle's device list and capture stamp to the writes to perform.
#[verifier::loop_isolation(false)]
pub fn plan_writes_at(devices: &Vec<Device>, stamp: &WriteStamp) -> (r: Vec<WriteCommand>)
    ensures
        r@.map_values(|c: WriteCommand| c@) == spec_plan(
            devices_view(devices@),
            stamp.epoch,
            stamp.label@,
        ),
{
    let ghost dv = devices_view(devices@);
    let mut out: Vec<WriteCommand> = Vec::new();
    proof {
        assert(dv.take(0) =~= Seq::<DeviceV>::empty());
        assert(out@.map_values(|c: WriteCommand| c@) =~= Seq::<WriteCommandV>::empty());
    }
    let mut i: usize = 0;
    while i < devices.len()
        invariant
            0 <= i <= devices@.len(),
            out@.map_values(|c: WriteCommand| c@) == spec_plan(
                dv.take(i as int),
                stamp.epoch,
                stamp.label@,
            ),
        decreases devices@.len() - i,
    {
        let d = &devices[i];
        proof {
            assert(dv[i as int] == devices@[i as int]@);
        }
        let row = DeviceRow {
            active_time: d.active_time,
            create_time: d.create_time,
            id: d.id.clone(),
            name: d.name.clone(),
            online: d.online,
            sub: d.sub,
            time_zone: d.time_zone.clone(),
            update_time: d.update_time,
            device_type: d.device_type.clone(),
        };
        let ghost before_dev = out@.map_values(|c: WriteCommand| c@);
        out.push(WriteCommand::Upsert(row));
        proof {
            assert(out@.map_values(|c: WriteCommand| c@) =~= before_dev.push(
                WriteCommandV::Upsert(device_row_of(dv[i as int])),
            ));
            assert(before_dev.push(WriteCommandV::Upsert(device_row_of(dv[i as int]))) =~= spec_plan(
                dv.take(i as int),
                stamp.epoch,
                stamp.label@,
            ) + seq![WriteCommandV::Upsert(device_row_of(dv[i as int]))] + spec_status_cmds(
                dv[i as int],
                stamp.epoch,
                stamp.label@,
                0,
            ));
        }
        let mut j: usize = 0;
        while j < d.status.len()
            invariant
                0 <= j <= d.status@.len(),
                0 <= i < devices@.len(),
                *d == devices@[i as int],
                d.status@.len() == dv[i as int].status.len(),
                out@.map_values(|c: WriteCommand| c@) == spec_plan(
                    dv.take(i as int),
                    stamp.epoch,
                    stamp.label@,
                ) + seq![WriteCommandV::Upsert(device_row_of(dv[i as int]))] + spec_status_cmds(
                    dv[i as int],
                    stamp.epoch,
                    stamp.label@,
                    j as nat,
                ),
            decreases d.status@.len() - j,
        {
            let s = &d.status[j];
            proof {
                assert(dv[i as int].status[j as int] == d.status@[j as int]@);
            }
            let mut row_id = d.id.clone();
            push_char(&mut row_id, '_');
            row_id.append(stamp.label.as_str());
            push_char(&mut row_id, '_');
            let digits = u64_to_string(j as u64);
            row_id.append(digits.as_str());
            proof {
                assert(row_id@ =~= status_row_id(dv[i as int].id, stamp.label@, j as nat));
            }
            let srow = StatusRow {
                code: s.code.clone(),
                value: s.value.to_text(),
                device_id: d.id.clone(),
                id: row_id,
                update_time: stamp.epoch,
            };
            let ghost before = out@.map_values(|c: WriteCommand| c@);
            out.push(WriteCommand::Insert(srow));
            proof {
                assert(out@.map_values(|c: WriteCommand| c@) =~= before.push(
                    WriteCommandV::Insert(
                        status_row_of(dv[i as int], j as nat, stamp.epoch, stamp.label@),
                    ),
                ));
                assert(spec_status_cmds(dv[i as int], stamp.epoch, stamp.label@, (j + 1) as nat)
                    =~= spec_status_cmds(dv[i as int], stamp.epoch, stamp.label@, j as nat) + seq![
                    WriteCommandV::Insert(
                        status_row_of(dv[i as int], j as nat, stamp.epoch, stamp.label@),
                    ),
                ]);
                assert(out@.map_values(|c: WriteCommand| c@) =~= spec_plan(
                    dv.take(i as int),
                    stamp.epoch,
                    stamp.label@,
                ) + seq![WriteCommandV::Upsert(device_row_of(dv[i as int]))] + spec_status_cmds(
                    dv[i as int],
                    stamp.epoch,
                    stamp.label@,
                    (j + 1) as nat,
                ));
            }
            j = j + 1;
        }
        proof {
            lemma_plan_take_step(dv, stamp.epoch, stamp.label@, i + 1);
            assert(out@.map_values(|c: WriteCommand| c@) =~= spec_plan(
                dv.take(i + 1),
                stamp.epoch,
                stamp.label@,
            ));
        }
        i = i + 1;
    }
    proof {
        assert(dv.take(devices@.len() as int) =~= dv);
    }
    out
}

/// Relies on `chrono::Utc::now` (and its `timestamp` and `to_rfc3339`): the
/// moment of the call as an epoch second and as text. The moment depends on
/// the clock, so nothing is promised of the value.
#[verifier::external_body]
fn current_stamp() -> WriteStamp
{
    let now = chrono::Utc::now();
    WriteStamp { epoch: now.timestamp(), label: now.to_rfc3339() }
}

/// Maps a cycle's device list to the writes to perform, captured at the
/// present moment: whatever stamp the clock gave, the writes are exactly the
/// plan for that stamp.
pub fn plan_writes(devices: &Vec<Device>) -> (r: Vec<WriteCommand>)
    ensures
        exists|epoch: i64, label: Seq<char>|
            r@.map_values(|c: WriteCommand| c@) == spec_plan(
                devices_view(devices@),
                epoch,
                label,
            ),
{
    let stamp = current_stamp();
    let r = plan_writes_at(devices, &stamp);
    proof {
        let epoch = stamp.epoch;
        let label = stamp.label@;
        assert(r@.map_values(|c: WriteCommand| c@) == spec_plan(
            devices_view(devices@),
            epoch,
            label,
        ));
    }
    r
}

} // verus!
