use vstd::prelude::*;

use crate::model::DeviceV;
use crate::persist::{
    device_row_of, spec_device_cmds, spec_plan, spec_status_cmds, status_row_of, DeviceRow,
    DeviceRowV, StatusRow, StatusRowV, WriteCommand, WriteCommandV,
};
use crate::text::str_eq;

verus! {

/// The mathematical shape of the relational store: the device table and the
/// status table, each as its rows in insertion order.
pub struct StoreV {
    pub device_rows: Seq<DeviceRowV>,
    pub status_rows: Seq<StatusRowV>,
}

/// A model of the two tables, used to state and check what a cycle's writes
/// do to the persisted data.
#[derive(Debug, PartialEq, Eq)]
pub struct Store {
    pub device_rows: Vec<DeviceRow>,
    pub status_rows: Vec<StatusRow>,
}

impl View for Store {
    type V = StoreV;

    open spec fn view(&self) -> StoreV {
        StoreV {
            device_rows: self.device_rows@.map_values(|r: DeviceRow| r@),
            status_rows: self.status_rows@.map_values(|r: StatusRow| r@),
        }
    }
}

/// Whether the device table already has a row with the given id.
pub open spec fn spec_has_device(rows: Seq<DeviceRowV>, id: Seq<char>) -> bool {
    exists|i: int| 0 <= i < rows.len() && rows[i].id == id
}

/// The device table never holds two rows with one id.
pub open spec fn wf_store(s: StoreV) -> bool {
    forall|i: int, j: int|
        0 <= i < j < s.device_rows.len() ==> s.device_rows[i].id != s.device_rows[j].id
}

/// What one write does to the store: an upsert adds the device row only when
/// its id is not yet there (a conflict is a no-op), an insert always adds
/// its status row.
pub open spec fn spec_apply(s: StoreV, c: WriteCommandV) -> StoreV {
    match c {
        WriteCommandV::Upsert(row) => {
            if spec_has_device(s.device_rows, row.id) {
                s
            } else {
                StoreV { device_rows: s.device_rows.push(row), status_rows: s.status_rows }
            }
        },
        WriteCommandV::Insert(row) => {
            StoreV { device_rows: s.device_rows, status_rows: s.status_rows.push(row) }
        },
    }
}

/// What a sequence of writes does to the store, first to last.
pub open spec fn spec_apply_all(s: StoreV, cs: Seq<WriteCommandV>) -> StoreV
    decreases cs.len(),
{
    if cs.len() == 0 {
        s
    } else {
        spec_apply(spec_apply_all(s, cs.drop_last()), cs.last())
    }
}

impl Store {
    /// A store with both tables empty.
    pub fn new() -> (s: Store)
        ensures
            s@.device_rows == Seq::<DeviceRowV>::empty(),
            s@.status_rows == Seq::<StatusRowV>::empty(),
    {
        let s = Store { device_rows: Vec::new(), status_rows: Vec::new() };
        proof {
            assert(s@.device_rows =~= Seq::<DeviceRowV>::empty());
            assert(s@.status_rows =~= Seq::<StatusRowV>::empty());
        }
        s
    }

    /// Whether the device table already has a row with the given id.
    pub fn has_device(&self, id: &str) -> (r: bool)
        ensures
            r == spec_has_device(self@.device_rows, id@),
    {
        let mut i: usize = 0;
        while i < self.device_rows.len()
            invariant
                0 <= i <= self.device_rows@.len(),
                forall|k: int|
                    0 <= k < i ==> self@.device_rows[k].id != id@,
            decreases self.device_rows@.len() - i,
        {
            if str_eq(self.device_rows[i].id.as_str(), id) {
                proof {
                    assert(self@.device_rows[i as int].id == id@);
                }
                return true;
            }
            i = i + 1;
        }
        false
    }

    /// Performs one write on the model store.
    pub fn apply(&mut self, cmd: WriteCommand)
        ensures
            final(self)@ == spec_apply(old(self)@, cmd@),
    {
        match cmd {
            WriteCommand::Upsert(row) => {
                if !self.has_device(row.id.as_str()) {
                    let ghost before = self@.device_rows;
                    let ghost rowv = row@;
                    self.device_rows.push(row);
                    proof {
                        assert(self@.device_rows =~= before.push(rowv));
                        assert(self@ =~= spec_apply(old(self)@, WriteCommandV::Upsert(rowv)));
                    }
                } else {
                    proof {
                        assert(self@ =~= spec_apply(old(self)@, cmd@));
                    }
                }
            },
            WriteCommand::Insert(row) => {
                let ghost before = self@.status_rows;
                let ghost rowv = row@;
                self.status_rows.push(row);
                proof {
                    assert(self@.status_rows =~= before.push(rowv));
                    assert(self@ =~= spec_apply(old(self)@, WriteCommandV::Insert(rowv)));
                }
            },
        }
    }

    /// Performs a cycle's writes on the model store, first to last.
    #[verifier::loop_isolation(false)]
    pub fn apply_all(&mut self, cmds: Vec<WriteCommand>)
        ensures
            final(self)@ == spec_apply_all(old(self)@, cmds@.map_values(|c: WriteCommand| c@)),
    {
        let ghost all = cmds@.map_values(|c: WriteCommand| c@);
        let mut rest = cmds;
        proof {
            assert(all.take(0) =~= Seq::<WriteCommandV>::empty());
        }
        while rest.len() > 0
            invariant
                rest@.len() <= all.len(),
                rest@.map_values(|c: WriteCommand| c@) == all.skip(all.len() - rest@.len()),
                self@ == spec_apply_all(old(self)@, all.take(all.len() - rest@.len())),
            decreases rest@.len(),
        {
            let ghost k = all.len() - rest@.len();
            let ghost prev = rest@;
            proof {
                assert(prev.map_values(|c: WriteCommand| c@)[0] == all[k]);
                assert(prev[0]@ == all[k]);
            }
            let c = rest.remove(0);
            self.apply(c);
            proof {
                assert(all.take(k + 1).drop_last() =~= all.take(k));
                assert(all.take(k + 1).last() == all[k]);
                assert(rest@ =~= prev.drop_first());
                assert forall|m: int| 0 <= m < rest@.len() implies rest@.map_values(
                    |c: WriteCommand| c@,
                )[m] == #[trigger] all.skip(k + 1)[m] by {
                    assert(rest@[m] == prev[m + 1]);
                    assert(prev.map_values(|c: WriteCommand| c@)[m + 1] == all.skip(k)[m + 1]);
                }
                assert(rest@.map_values(|c: WriteCommand| c@) =~= all.skip(k + 1));
            }
        }
        proof {
            assert(all.take(all.len() as int) =~= all);
        }
    }
}

/// How many status entries a device list carries in all.
pub open spec fn total_statuses(ds: Seq<DeviceV>) -> nat
    decreases ds.len(),
{
    if ds.len() == 0 {
        0
    } else {
        total_statuses(ds.drop_last()) + ds.last().status.len()
    }
}

/// Whether a device list carries the given id.
pub open spec fn has_id(ds: Seq<DeviceV>, id: Seq<char>) -> bool {
    exists|j: int| 0 <= j < ds.len() && ds[j].id == id
}

/// The ids present after a cycle are exactly those present before plus the
/// cycle's device ids.
pub open spec fn ids_match(before: StoreV, after: StoreV, ds: Seq<DeviceV>) -> bool {
    forall|id: Seq<char>|
        #![trigger spec_has_device(after.device_rows, id)]
        spec_has_device(after.device_rows, id) <==> (spec_has_device(before.device_rows, id)
            || has_id(ds, id))
}

proof fn lemma_apply_all_concat(s: StoreV, a: Seq<WriteCommandV>, b: Seq<WriteCommandV>)
    ensures
        spec_apply_all(s, a + b) == spec_apply_all(spec_apply_all(s, a), b),
    decreases b.len(),
{
    if b.len() == 0 {
        assert(a + b =~= a);
    } else {
        assert((a + b).drop_last() =~= a + b.drop_last());
        assert((a + b).last() == b.last());
        lemma_apply_all_concat(s, a, b.drop_last());
    }
}

proof fn lemma_status_cmds_effect(s: StoreV, d: DeviceV, epoch: i64, label: Seq<char>, k: nat)
    ensures
        spec_apply_all(s, spec_status_cmds(d, epoch, label, k)).device_rows == s.device_rows,
        spec_apply_all(s, spec_status_cmds(d, epoch, label, k)).status_rows.len()
            == s.status_rows.len() + k,
    decreases k,
{
    if k > 0 {
        lemma_status_cmds_effect(s, d, epoch, label, (k - 1) as nat);
        let a = spec_status_cmds(d, epoch, label, (k - 1) as nat);
        let b = seq![
            WriteCommandV::Insert(status_row_of(d, (k - 1) as nat, epoch, label)),
        ];
        lemma_apply_all_concat(s, a, b);
        assert(spec_status_cmds(d, epoch, label, k) == a + b);
        assert(b.drop_last() =~= Seq::<WriteCommandV>::empty());
        assert(spec_apply_all(spec_apply_all(s, a), b.drop_last()) == spec_apply_all(s, a));
        assert(spec_apply_all(spec_apply_all(s, a), b) == spec_apply(
            spec_apply_all(s, a),
            b.last(),
        ));
    }
}

proof fn lemma_has_device_push(rows: Seq<DeviceRowV>, row: DeviceRowV, id: Seq<char>)
    ensures
        spec_has_device(rows.push(row), id) <==> (spec_has_device(rows, id) || row.id == id),
{
    if spec_has_device(rows, id) {
        let i = choose|i: int| 0 <= i < rows.len() && rows[i].id == id;
        assert(rows.push(row)[i].id == id);
    }
    if row.id == id {
        assert(rows.push(row)[rows.len() as int].id == id);
    }
    if spec_has_device(rows.push(row), id) {
        let i = choose|i: int| 0 <= i < rows.push(row).len() && rows.push(row)[i].id == id;
        if i < rows.len() {
            assert(rows[i].id == id);
        } else {
            assert(row.id == id);
        }
    }
}

proof fn lemma_device_cmds_effect(s: StoreV, d: DeviceV, epoch: i64, label: Seq<char>)
    ensures
        spec_apply_all(s, spec_device_cmds(d, epoch, label)).status_rows.len()
            == s.status_rows.len() + d.status.len(),
        spec_apply_all(s, spec_device_cmds(d, epoch, label)).device_rows == (
        if spec_has_device(s.device_rows, d.id) {
            s.device_rows
        } else {
            s.device_rows.push(device_row_of(d))
        }),
{
    let up = seq![WriteCommandV::Upsert(device_row_of(d))];
    let sc = spec_status_cmds(d, epoch, label, d.status.len());
    lemma_apply_all_concat(s, up, sc);
    assert(up.drop_last() =~= Seq::<WriteCommandV>::empty());
    assert(up.last() == WriteCommandV::Upsert(device_row_of(d)));
    assert(spec_apply_all(s, up.drop_last()) == s);
    let s1 = spec_apply(s, WriteCommandV::Upsert(device_row_of(d)));
    assert(spec_apply_all(s, up) == s1);
    lemma_status_cmds_effect(s1, d, epoch, label, d.status.len());
}

/// What one cycle's writes do to the store, however the capture stamp fell:
/// every status entry becomes one new status row; a device row appears for
/// exactly the ids that were there before or are in the list; the device
/// table stays free of duplicate ids; and a cycle whose device ids are all
/// present already adds no device row at all.
pub proof fn lemma_cycle_effect(s: StoreV, ds: Seq<DeviceV>, epoch: i64, label: Seq<char>)
    ensures
        spec_apply_all(s, spec_plan(ds, epoch, label)).status_rows.len() == s.status_rows.len()
            + total_statuses(ds),
        ids_match(s, spec_apply_all(s, spec_plan(ds, epoch, label)), ds),
        wf_store(s) ==> wf_store(spec_apply_all(s, spec_plan(ds, epoch, label))),
        (forall|j: int| 0 <= j < ds.len() ==> spec_has_device(s.device_rows, ds[j].id))
            ==> spec_apply_all(s, spec_plan(ds, epoch, label)).device_rows == s.device_rows,
    decreases ds.len(),
{
    if ds.len() == 0 {
        assert(spec_plan(ds, epoch, label) == Seq::<WriteCommandV>::empty());
        assert(spec_apply_all(s, spec_plan(ds, epoch, label)) == s);
        assert forall|id: Seq<char>|
            #![trigger spec_has_device(spec_apply_all(s, spec_plan(ds, epoch, label)).device_rows, id)]
            spec_has_device(
                spec_apply_all(s, spec_plan(ds, epoch, label)).device_rows,
                id,
            ) <==> (spec_has_device(s.device_rows, id) || has_id(ds, id)) by {
            assert(!has_id(ds, id));
        }
        assert(ids_match(s, spec_apply_all(s, spec_plan(ds, epoch, label)), ds));
    } else {
        let front = ds.drop_last();
        let d = ds.last();
        lemma_cycle_effect(s, front, epoch, label);
        let mid = spec_apply_all(s, spec_plan(front, epoch, label));
        lemma_apply_all_concat(s, spec_plan(front, epoch, label), spec_device_cmds(
            d,
            epoch,
            label,
        ));
        assert(spec_plan(ds, epoch, label) == spec_plan(front, epoch, label) + spec_device_cmds(
            d,
            epoch,
            label,
        ));
        lemma_device_cmds_effect(mid, d, epoch, label);
        let fin = spec_apply_all(s, spec_plan(ds, epoch, label));
        assert(fin == spec_apply_all(mid, spec_device_cmds(d, epoch, label)));
        assert forall|id: Seq<char>|
            #![trigger spec_has_device(spec_apply_all(s, spec_plan(ds, epoch, label)).device_rows, id)]
            spec_has_device(
                spec_apply_all(s, spec_plan(ds, epoch, label)).device_rows,
                id,
            ) <==> (spec_has_device(s.device_rows, id) || has_id(ds, id)) by {
            assert(spec_apply_all(s, spec_plan(ds, epoch, label)) == fin);
            lemma_has_device_push(mid.device_rows, device_row_of(d), id);
            if has_id(ds, id) {
                let j = choose|j: int| 0 <= j < ds.len() && ds[j].id == id;
                if j < ds.len() - 1 {
                    assert(front[j].id == id);
                    assert(has_id(front, id));
                } else {
                    assert(d.id == id);
                }
            }
            if has_id(front, id) {
                let j = choose|j: int| 0 <= j < front.len() && front[j].id == id;
                assert(ds[j].id == id);
                assert(has_id(ds, id));
            }
            if d.id == id {
                assert(ds[ds.len() - 1].id == id);
                assert(has_id(ds, id));
            }
        }
        assert(ids_match(s, spec_apply_all(s, spec_plan(ds, epoch, label)), ds));
        if wf_store(s) {
            if !spec_has_device(mid.device_rows, d.id) {
                assert forall|i: int, j: int|
                    0 <= i < j < fin.device_rows.len() implies fin.device_rows[i].id
                    != fin.device_rows[j].id by {
                    if j < mid.device_rows.len() {
                    } else {
                        assert(fin.device_rows[j] == device_row_of(d));
                        assert(fin.device_rows[i] == mid.device_rows[i]);
                        assert(!spec_has_device(mid.device_rows, d.id));
                        if fin.device_rows[i].id == d.id {
                            assert(spec_has_device(mid.device_rows, d.id));
                        }
                    }
                }
            }
        }
        if forall|j: int| 0 <= j < ds.len() ==> spec_has_device(s.device_rows, ds[j].id) {
            assert forall|j: int| 0 <= j < front.len() implies spec_has_device(
                s.device_rows,
                front[j].id,
            ) by {
                assert(front[j] == ds[j]);
            }
            assert(mid.device_rows == s.device_rows);
            assert(spec_has_device(s.device_rows, ds[ds.len() - 1].id));
            assert(spec_has_device(mid.device_rows, d.id));
        }
    }
}

/// Filling an empty store from a device list with pairwise distinct ids
/// yields one device row per device.
pub proof fn lemma_fill_from_empty(ds: Seq<DeviceV>, epoch: i64, label: Seq<char>)
    requires
        forall|i: int, j: int| 0 <= i < j < ds.len() ==> ds[i].id != ds[j].id,
    ensures
        spec_apply_all(
            StoreV { device_rows: Seq::empty(), status_rows: Seq::empty() },
            spec_plan(ds, epoch, label),
        ).device_rows.len() == ds.len(),
    decreases ds.len(),
{
    let empty = StoreV { device_rows: Seq::empty(), status_rows: Seq::empty() };
    if ds.len() > 0 {
        let front = ds.drop_last();
        let d = ds.last();
        lemma_fill_from_empty(front, epoch, label);
        lemma_cycle_effect(empty, front, epoch, label);
        let mid = spec_apply_all(empty, spec_plan(front, epoch, label));
        lemma_apply_all_concat(empty, spec_plan(front, epoch, label), spec_device_cmds(
            d,
            epoch,
            label,
        ));
        lemma_device_cmds_effect(mid, d, epoch, label);
        if spec_has_device(mid.device_rows, d.id) {
            assert(has_id(front, d.id));
            let j = choose|j: int| 0 <= j < front.len() && front[j].id == d.id;
            assert(ds[j].id == ds[ds.len() - 1].id);
            assert(false);
        }
    }
}

/// Writing the same device id in two successive cycles never yields two
/// device rows for it, while each cycle's status entries all become rows:
/// the device table stays duplicate-free and grows by at most the one id,
/// and the status table grows by one row per status entry of each cycle.
pub proof fn lemma_same_device_two_cycles(
    s: StoreV,
    d1: DeviceV,
    d2: DeviceV,
    e1: i64,
    l1: Seq<char>,
    e2: i64,
    l2: Seq<char>,
)
    requires
        wf_store(s),
        d1.id == d2.id,
    ensures
        ({
            let s1 = spec_apply_all(s, spec_plan(seq![d1], e1, l1));
            let s2 = spec_apply_all(s1, spec_plan(seq![d2], e2, l2));
            &&& wf_store(s2)
            &&& s2.device_rows.len() <= s.device_rows.len() + 1
            &&& s2.status_rows.len() == s.status_rows.len() + d1.status.len() + d2.status.len()
        }),
{
    lemma_cycle_effect(s, seq![d1], e1, l1);
    let s1 = spec_apply_all(s, spec_plan(seq![d1], e1, l1));
    lemma_cycle_effect(s1, seq![d2], e2, l2);
    let s2 = spec_apply_all(s1, spec_plan(seq![d2], e2, l2));
    assert(seq![d1].drop_last() =~= Seq::<DeviceV>::empty());
    assert(seq![d2].drop_last() =~= Seq::<DeviceV>::empty());
    assert(seq![d1].last() == d1);
    assert(seq![d2].last() == d2);
    assert(total_statuses(Seq::<DeviceV>::empty()) == 0);
    assert(total_statuses(seq![d1]) == d1.status.len());
    assert(total_statuses(seq![d2]) == d2.status.len());
    assert(seq![d1][0] == d1);
    assert(has_id(seq![d1], d1.id));
    assert(spec_has_device(s1.device_rows, d2.id));
    assert(forall|j: int| 0 <= j < seq![d2].len() ==> spec_has_device(
        s1.device_rows,
        seq![d2][j].id,
    ));
    lemma_device_rows_len_after_cycle(s, seq![d1], e1, l1);
}

proof fn lemma_device_rows_len_after_cycle(s: StoreV, ds: Seq<DeviceV>, epoch: i64, label: Seq<char>)
    ensures
        spec_apply_all(s, spec_plan(ds, epoch, label)).device_rows.len() <= s.device_rows.len()
            + ds.len(),
    decreases ds.len(),
{
    if ds.len() > 0 {
        let front = ds.drop_last();
        let d = ds.last();
        lemma_device_rows_len_after_cycle(s, front, epoch, label);
        let mid = spec_apply_all(s, spec_plan(front, epoch, label));
        lemma_apply_all_concat(s, spec_plan(front, epoch, label), spec_device_cmds(
            d,
            epoch,
            label,
        ));
        lemma_device_cmds_effect(mid, d, epoch, label);
    }
}

/// Two cycles over one device list (with pairwise distinct ids), from an
/// empty store: the second cycle adds no device row, the device table holds
/// one row per device, and the status table holds two rows per status entry.
pub proof fn lemma_two_cycles_same_devices(
    ds: Seq<DeviceV>,
    e1: i64,
    l1: Seq<char>,
    e2: i64,
    l2: Seq<char>,
)
    requires
        forall|i: int, j: int| 0 <= i < j < ds.len() ==> ds[i].id != ds[j].id,
    ensures
        ({
            let empty = StoreV { device_rows: Seq::empty(), status_rows: Seq::empty() };
            let s1 = spec_apply_all(empty, spec_plan(ds, e1, l1));
            let s2 = spec_apply_all(s1, spec_plan(ds, e2, l2));
            &&& s2.device_rows == s1.device_rows
            &&& s1.device_rows.len() == ds.len()
            &&& s2.status_rows.len() == 2 * total_statuses(ds)
        }),
{
    let empty = StoreV { device_rows: Seq::empty(), status_rows: Seq::empty() };
    lemma_cycle_effect(empty, ds, e1, l1);
    let s1 = spec_apply_all(empty, spec_plan(ds, e1, l1));
    lemma_cycle_effect(s1, ds, e2, l2);
    lemma_fill_from_empty(ds, e1, l1);
    assert forall|j: int| 0 <= j < ds.len() implies spec_has_device(s1.device_rows, ds[j].id) by {
        assert(has_id(ds, ds[j].id));
    }
}

} // verus!
