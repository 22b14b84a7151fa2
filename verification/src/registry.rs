//! The set of known devices, keyed by id. Groups are never stored: they are
//! computed from the devices' tags, which is what lets one device sit in
//! any number of groups.

use vstd::prelude::*;

use crate::device::{Device, DeviceId, DeviceView};
use crate::field_map::FieldMap;
use crate::text::{chars_of, lex_le, lex_le_chars, lemma_lex_total, lemma_lex_trans, str_eq, views};

verus! {

/// The map from id to device that a sequence of devices denotes (a later
/// device with the same id replaces an earlier one).
pub open spec fn devices_map(devs: Seq<Device>) -> Map<u128, DeviceView>
    decreases devs.len(),
{
    if devs.len() == 0 {
        Map::empty()
    } else {
        devices_map(devs.drop_last()).insert(devs.last().id.0, devs.last()@)
    }
}

/// No id occurs twice.
pub open spec fn ids_unique(devs: Seq<Device>) -> bool {
    forall|i: int, j: int|
        0 <= i < devs.len() && 0 <= j < devs.len() && i != j ==> #[trigger] devs[i].id.0
            != #[trigger] devs[j].id.0
}

proof fn lemma_unique_drop_last(devs: Seq<Device>)
    requires
        ids_unique(devs),
        devs.len() > 0,
    ensures
        ids_unique(devs.drop_last()),
{
    let t = devs.drop_last();
    assert forall|a: int, b: int|
        0 <= a < t.len() && 0 <= b < t.len() && a != b implies #[trigger] t[a].id.0
        != #[trigger] t[b].id.0 by {
        assert(t[a] == devs[a] && t[b] == devs[b]);
    }
}

proof fn lemma_devices_lookup(devs: Seq<Device>, i: int)
    requires
        ids_unique(devs),
        0 <= i < devs.len(),
    ensures
        devices_map(devs).contains_key(devs[i].id.0),
        devices_map(devs)[devs[i].id.0] == devs[i]@,
    decreases devs.len(),
{
    if i < devs.len() - 1 {
        lemma_unique_drop_last(devs);
        lemma_devices_lookup(devs.drop_last(), i);
        assert(devs.drop_last()[i] == devs[i]);
        assert(devs.last().id.0 != devs[i].id.0);
    }
}

proof fn lemma_devices_dom(devs: Seq<Device>, x: u128)
    ensures
        devices_map(devs).contains_key(x) <==> exists|i: int|
            0 <= i < devs.len() && (#[trigger] devs[i]).id.0 == x,
    decreases devs.len(),
{
    if devs.len() > 0 {
        let t = devs.drop_last();
        lemma_devices_dom(t, x);
        if devices_map(devs).contains_key(x) {
            if devs.last().id.0 == x {
                assert(devs[devs.len() - 1].id.0 == x);
            } else {
                let i = choose|i: int| 0 <= i < t.len() && (#[trigger] t[i]).id.0 == x;
                assert(devs[i] == t[i]);
            }
        }
        if exists|i: int| 0 <= i < devs.len() && (#[trigger] devs[i]).id.0 == x {
            let i = choose|i: int| 0 <= i < devs.len() && (#[trigger] devs[i]).id.0 == x;
            if i < devs.len() - 1 {
                assert(t[i] == devs[i]);
            }
        }
    }
}

proof fn lemma_devices_update(devs: Seq<Device>, i: int, d: Device)
    requires
        ids_unique(devs),
        0 <= i < devs.len(),
        devs[i].id.0 == d.id.0,
    ensures
        devices_map(devs.update(i, d)) == devices_map(devs).insert(d.id.0, d@),
    decreases devs.len(),
{
    let u = devs.update(i, d);
    if i == devs.len() - 1 {
        assert(u.drop_last() == devs.drop_last());
        assert(devices_map(u) =~= devices_map(devs).insert(d.id.0, d@));
    } else {
        lemma_unique_drop_last(devs);
        lemma_devices_update(devs.drop_last(), i, d);
        assert(u.drop_last() == devs.drop_last().update(i, d));
        assert(devs.last().id.0 != d.id.0);
        assert(devices_map(u) =~= devices_map(devs).insert(d.id.0, d@));
    }
}

proof fn lemma_devices_remove(devs: Seq<Device>, i: int)
    requires
        ids_unique(devs),
        0 <= i < devs.len(),
    ensures
        devices_map(devs.remove(i)) == devices_map(devs).remove(devs[i].id.0),
    decreases devs.len(),
{
    let r = devs.remove(i);
    let t = devs.drop_last();
    lemma_unique_drop_last(devs);
    if i == devs.len() - 1 {
        assert(r == t);
        assert forall|k: int| 0 <= k < t.len() implies (#[trigger] t[k]).id.0 != devs[i].id.0 by {
            assert(t[k] == devs[k]);
        }
        lemma_devices_dom(t, devs[i].id.0);
        assert(devices_map(r) =~= devices_map(devs).remove(devs[i].id.0));
    } else {
        lemma_devices_remove(t, i);
        assert(r == t.remove(i).push(devs.last()));
        assert(r.drop_last() == t.remove(i));
        assert(devs.last().id.0 != devs[i].id.0);
        assert(t[i] == devs[i]);
        assert(devices_map(r) =~= devices_map(devs).remove(devs[i].id.0));
    }
}

/// Names in non-decreasing order.
pub open spec fn sorted_by_name(devs: Seq<Device>) -> bool {
    forall|i: int, j: int| 0 <= i < j < devs.len() ==> lex_le(devs[i].name@, devs[j].name@)
}

/// `list` is exactly the registry's devices, each once.
pub open spec fn lists_exactly(list: Seq<Device>, m: Map<u128, DeviceView>) -> bool {
    &&& ids_unique(list)
    &&& forall|i: int|
        0 <= i < list.len() ==> m.contains_key(#[trigger] list[i].id.0) && m[list[i].id.0]
            == list[i]@
    &&& forall|x: u128| #[trigger]
        m.contains_key(x) ==> exists|i: int| 0 <= i < list.len() && (#[trigger] list[i]).id.0 == x
}

/// The known devices.
pub struct Registry {
    devices: Vec<Device>,
}

impl View for Registry {
    type V = Map<u128, DeviceView>;

    closed spec fn view(&self) -> Map<u128, DeviceView> {
        devices_map(self.devices@)
    }
}

impl Registry {
    #[verifier::type_invariant]
    closed spec fn inv(&self) -> bool {
        ids_unique(self.devices@)
    }

    /// An empty registry.
    pub fn new() -> (r: Self)
        ensures
            r@ == Map::<u128, DeviceView>::empty(),
    {
        Registry { devices: Vec::new() }
    }

    fn position(&self, id: DeviceId) -> (r: Option<usize>)
        ensures
            r matches Some(i) ==> i < self.devices@.len() && self.devices@[i as int].id.0 == id.0,
            r is None ==> forall|i: int|
                0 <= i < self.devices@.len() ==> (#[trigger] self.devices@[i]).id.0 != id.0,
    {
        let mut i: usize = 0;
        while i < self.devices.len()
            invariant
                i <= self.devices@.len(),
                forall|j: int| 0 <= j < i ==> (#[trigger] self.devices@[j]).id.0 != id.0,
            decreases self.devices.len() - i,
        {
            if self.devices[i].id.0 == id.0 {
                return Some(i);
            }
            i = i + 1;
        }
        None
    }

    /// The device with this id.
    pub fn get(&self, id: &DeviceId) -> (r: Option<Device>)
        ensures
            r is Some <==> self@.contains_key(id.0),
            r matches Some(d) ==> d@ == self@[id.0] && d.id == *id,
    {
        proof {
            use_type_invariant(self);
        }
        match self.position(*id) {
            Some(i) => {
                proof {
                    lemma_devices_lookup(self.devices@, i as int);
                }
                Some(self.devices[i].duplicate())
            },
            None => {
                proof {
                    lemma_devices_dom(self.devices@, id.0);
                }
                None
            },
        }
    }

    /// Adds the device, or replaces the one with the same id.
    pub fn upsert(&mut self, device: Device)
        ensures
            final(self)@ == old(self)@.insert(device.id.0, device@),
    {
        proof {
            use_type_invariant(&*self);
        }
        let pos = self.position(device.id);
        let mut ds: Vec<Device> = Vec::new();
        std::mem::swap(&mut ds, &mut self.devices);
        let ghost old_ds = ds@;
        match pos {
            Some(i) => {
                proof {
                    lemma_devices_update(ds@, i as int, device);
                }
                ds.set(i, device);
                proof {
                    assert(ds@ == old_ds.update(i as int, device));
                    assert forall|a: int, b: int|
                        0 <= a < ds@.len() && 0 <= b < ds@.len() && a != b implies #[trigger] ds@[a].id.0
                        != #[trigger] ds@[b].id.0 by {
                        assert(old_ds[a].id.0 != old_ds[b].id.0);
                    }
                }
            },
            None => {
                ds.push(device);
                proof {
                    assert(ds@.drop_last() == old_ds);
                    assert forall|a: int, b: int|
                        0 <= a < ds@.len() && 0 <= b < ds@.len() && a != b implies #[trigger] ds@[a].id.0
                        != #[trigger] ds@[b].id.0 by {
                        if a < old_ds.len() && b < old_ds.len() {
                            assert(ds@[a] == old_ds[a] && ds@[b] == old_ds[b]);
                        } else if a < old_ds.len() {
                            assert(ds@[a] == old_ds[a]);
                        } else {
                            assert(ds@[b] == old_ds[b]);
                        }
                    }
                }
            },
        }
        self.devices = ds;
    }

    /// Removes the device with this id, handing it back if it was there.
    pub fn remove(&mut self, id: &DeviceId) -> (r: Option<Device>)
        ensures
            r is Some <==> old(self)@.contains_key(id.0),
            r matches Some(d) ==> d@ == old(self)@[id.0],
            final(self)@ == old(self)@.remove(id.0),
    {
        proof {
            use_type_invariant(&*self);
        }
        let pos = self.position(*id);
        match pos {
            None => {
                proof {
                    lemma_devices_dom(self.devices@, id.0);
                    assert(self@.remove(id.0) =~= self@);
                }
                None
            },
            Some(i) => {
                let mut ds: Vec<Device> = Vec::new();
                std::mem::swap(&mut ds, &mut self.devices);
                let ghost old_ds = ds@;
                proof {
                    lemma_devices_lookup(old_ds, i as int);
                    lemma_devices_remove(old_ds, i as int);
                }
                let d = ds.remove(i);
                proof {
                    assert(ds@ == old_ds.remove(i as int));
                    assert forall|a: int, b: int|
                        0 <= a < ds@.len() && 0 <= b < ds@.len() && a != b implies #[trigger] ds@[a].id.0
                        != #[trigger] ds@[b].id.0 by {
                        let a2 = if a < i { a } else { a + 1 };
                        let b2 = if b < i { b } else { b + 1 };
                        assert(ds@[a] == old_ds[a2] && ds@[b] == old_ds[b2]);
                    }
                }
                self.devices = ds;
                Some(d)
            },
        }
    }

    /// A registry holding the given devices; for a repeated id the later
    /// device wins.
    pub fn from_devices(devices: Vec<Device>) -> (r: Self)
        ensures
            r@ == devices_map(devices@),
    {
        let mut r = Registry::new();
        let mut rest = devices;
        let ghost all = rest@;
        let ghost n = all.len();
        while rest.len() > 0
            invariant
                rest@.len() <= n,
                all.len() == n,
                rest@ == all.skip(n - rest@.len()),
                r@ == devices_map(all.take(n - rest@.len())),
            decreases rest.len(),
        {
            let ghost i = n - rest@.len();
            let d = rest.remove(0);
            proof {
                assert(d == all[i]);
                assert(all.take(i + 1).drop_last() == all.take(i));
                assert(all.take(i + 1).last() == all[i]);
                assert(rest@ == all.skip(i + 1));
            }
            r.upsert(d);
        }
        assert(all.take(n as int) == all);
        r
    }

    /// Number of devices.
    pub fn len(&self) -> (n: usize)
        ensures
            n == self@.dom().len(),
    {
        proof {
            use_type_invariant(self);
            lemma_devices_len(self.devices@);
        }
        self.devices.len()
    }

    /// Every device, ordered by name.
    pub fn list(&self) -> (r: Vec<Device>)
        ensures
            lists_exactly(r@, self@),
            sorted_by_name(r@),
            r@.len() == self@.dom().len(),
    {
        proof {
            use_type_invariant(self);
            lemma_devices_len(self.devices@);
        }
        let devs = &self.devices;
        let order = name_order(devs);
        let mut out: Vec<Device> = Vec::new();
        let mut k: usize = 0;
        while k < order.len()
            invariant
                k <= order@.len(),
                order@.len() == devs@.len(),
                out@.len() == k,
                forall|a: int| 0 <= a < order@.len() ==> (#[trigger] order@[a]) < devs@.len(),
                forall|a: int| 0 <= a < k ==> (#[trigger] out@[a])@ == devs@[order@[a] as int]@,
            decreases order.len() - k,
        {
            out.push(devs[order[k]].duplicate());
            k = k + 1;
        }
        proof {
            assert forall|a: int, b: int| 0 <= a < b < out@.len() implies lex_le(
                out@[a].name@,
                out@[b].name@,
            ) by {
                assert(out@[a]@ == devs@[order@[a] as int]@);
                assert(out@[b]@ == devs@[order@[b] as int]@);
            }
            assert forall|a: int, b: int|
                0 <= a < out@.len() && 0 <= b < out@.len() && a != b implies #[trigger] out@[a].id.0
                != #[trigger] out@[b].id.0 by {
                assert(out@[a]@ == devs@[order@[a] as int]@);
                assert(out@[b]@ == devs@[order@[b] as int]@);
                assert(order@[a] != order@[b]);
            }
            assert forall|a: int| 0 <= a < out@.len() implies self@.contains_key(
                #[trigger] out@[a].id.0,
            ) && self@[out@[a].id.0] == out@[a]@ by {
                assert(out@[a]@ == devs@[order@[a] as int]@);
                lemma_devices_lookup(devs@, order@[a] as int);
            }
            assert forall|x: u128| #[trigger] self@.contains_key(x) implies exists|a: int|
                0 <= a < out@.len() && (#[trigger] out@[a]).id.0 == x by {
                lemma_devices_dom(devs@, x);
                let j = choose|j: int| 0 <= j < devs@.len() && (#[trigger] devs@[j]).id.0 == x;
                assert(has_pos(order@, j));
                let a = choose|a: int| 0 <= a < order@.len() && order@[a] == j;
                assert(out@[a]@ == devs@[order@[a] as int]@);
                assert(out@[a].id.0 == x);
            }
        }
        out
    }
}

/// Position `j` occurs in `order`.
pub open spec fn has_pos(order: Seq<usize>, j: int) -> bool {
    exists|a: int| 0 <= a < order.len() && order[a] == j
}

/// Positions of `devs` ordered by name: every position exactly once.
fn name_order(devs: &Vec<Device>) -> (order: Vec<usize>)
    ensures
        order@.len() == devs@.len(),
        forall|a: int| 0 <= a < order@.len() ==> (#[trigger] order@[a]) < devs@.len(),
        forall|a: int, b: int|
            0 <= a < order@.len() && 0 <= b < order@.len() && a != b ==> #[trigger] order@[a]
                != #[trigger] order@[b],
        forall|j: int| 0 <= j < devs@.len() ==> #[trigger] has_pos(order@, j),
        forall|a: int, b: int|
            0 <= a < b < order@.len() ==> lex_le(
                devs@[order@[a] as int].name@,
                devs@[order@[b] as int].name@,
            ),
{
    let mut order: Vec<usize> = Vec::new();
    let mut i: usize = 0;
    while i < devs.len()
        invariant
            i <= devs@.len(),
            order@.len() == i,
            forall|a: int| 0 <= a < order@.len() ==> (#[trigger] order@[a]) < i,
            forall|a: int, b: int|
                0 <= a < order@.len() && 0 <= b < order@.len() && a != b ==> #[trigger] order@[a]
                    != #[trigger] order@[b],
            forall|j: int| 0 <= j < i ==> #[trigger] has_pos(order@, j),
            forall|a: int, b: int|
                0 <= a < b < order@.len() ==> lex_le(
                    devs@[order@[a] as int].name@,
                    devs@[order@[b] as int].name@,
                ),
        decreases devs.len() - i,
    {
        let dn = chars_of(devs[i].name.as_str());
        let ghost name = devs@[i as int].name@;
        let mut p: usize = 0;
        while p < order.len() && lex_le_chars(&chars_of(devs[order[p]].name.as_str()), &dn)
            invariant
                p <= order@.len(),
                dn@ == name,
                forall|a: int| 0 <= a < order@.len() ==> (#[trigger] order@[a]) < i,
                i < devs@.len(),
                forall|k: int| 0 <= k < p ==> lex_le(devs@[(#[trigger] order@[k]) as int].name@, name),
            decreases order.len() - p,
        {
            p = p + 1;
        }
        let ghost before = order@;
        proof {
            if p < before.len() {
                lemma_lex_total(name, devs@[before[p as int] as int].name@);
            }
        }
        order.insert(p, i);
        proof {
            assert(order@ == before.insert(p as int, i));
            assert forall|a: int, b: int| 0 <= a < b < order@.len() implies lex_le(
                devs@[order@[a] as int].name@,
                devs@[order@[b] as int].name@,
            ) by {
                if a < p && b < p {
                } else if a < p && b == p {
                } else if a < p {
                    assert(order@[b] == before[b - 1]);
                } else if a == p {
                    assert(order@[b] == before[b - 1]);
                    if b - 1 > p {
                        lemma_lex_trans(
                            name,
                            devs@[before[p as int] as int].name@,
                            devs@[before[b - 1] as int].name@,
                        );
                    }
                } else {
                    assert(order@[a] == before[a - 1] && order@[b] == before[b - 1]);
                }
            }
            assert forall|j: int| 0 <= j < i + 1 implies #[trigger] has_pos(order@, j) by {
                if j == i {
                    assert(order@[p as int] == j);
                } else {
                    assert(has_pos(before, j));
                    let a = choose|a: int| 0 <= a < before.len() && before[a] == j;
                    if a < p {
                        assert(order@[a] == j);
                    } else {
                        assert(order@[a + 1] == j);
                    }
                }
            }
            assert forall|a: int, b: int|
                0 <= a < order@.len() && 0 <= b < order@.len() && a != b implies #[trigger] order@[a]
                != #[trigger] order@[b] by {
                if a != p && b != p {
                    let a2 = if a < p { a } else { a - 1 };
                    let b2 = if b < p { b } else { b - 1 };
                    assert(order@[a] == before[a2] && order@[b] == before[b2]);
                } else {
                    let o = if a == p { b } else { a };
                    let o2 = if o < p { o } else { o - 1 };
                    assert(order@[o] == before[o2]);
                }
            }
        }
        i = i + 1;
    }
    order
}

proof fn lemma_devices_len(devs: Seq<Device>)
    requires
        ids_unique(devs),
    ensures
        devices_map(devs).dom().finite(),
        devices_map(devs).dom().len() == devs.len(),
    decreases devs.len(),
{
    if devs.len() > 0 {
        let t = devs.drop_last();
        lemma_unique_drop_last(devs);
        lemma_devices_len(t);
        assert forall|k: int| 0 <= k < t.len() implies (#[trigger] t[k]).id.0 != devs.last().id.0 by {
            assert(t[k] == devs[k]);
        }
        lemma_devices_dom(t, devs.last().id.0);
    }
}

// ---------------------------------------------------------------------------
// Groups
// ---------------------------------------------------------------------------

/// How many times `t` occurs in `tags`.
pub open spec fn tag_count(tags: Seq<Seq<char>>, t: Seq<char>) -> nat
    decreases tags.len(),
{
    if tags.len() == 0 {
        0
    } else {
        tag_count(tags.drop_last(), t) + if tags.last() == t {
            1nat
        } else {
            0nat
        }
    }
}

/// How many times the id `x` occurs in `ids`.
pub open spec fn id_count(ids: Seq<DeviceId>, x: u128) -> nat
    decreases ids.len(),
{
    if ids.len() == 0 {
        0
    } else {
        id_count(ids.drop_last(), x) + if ids.last().0 == x {
            1nat
        } else {
            0nat
        }
    }
}

/// Ids in non-decreasing order.
pub open spec fn ids_sorted(ids: Seq<DeviceId>) -> bool {
    forall|a: int, b: int| 0 <= a < b < ids.len() ==> ids[a].0 <= ids[b].0
}

/// Some device of `m` carries tag `t`.
pub open spec fn has_tag(m: Map<u128, DeviceView>, t: Seq<char>) -> bool {
    exists|x: u128| #[trigger] m.contains_key(x) && m[x].tags.contains(t)
}

/// `ids` is group `t` of `m`: ordered by id, each device of `m` listed once
/// per occurrence of `t` among its tags, and nothing else.
pub open spec fn is_group(m: Map<u128, DeviceView>, t: Seq<char>, ids: Seq<DeviceId>) -> bool {
    &&& ids_sorted(ids)
    &&& forall|x: u128|
        #[trigger] id_count(ids, x) == if m.contains_key(x) {
            tag_count(m[x].tags, t)
        } else {
            0
        }
}

proof fn lemma_id_count_concat(a: Seq<DeviceId>, b: Seq<DeviceId>, x: u128)
    ensures
        id_count(a + b, x) == id_count(a, x) + id_count(b, x),
    decreases b.len(),
{
    if b.len() > 0 {
        lemma_id_count_concat(a, b.drop_last(), x);
        assert((a + b).drop_last() == a + b.drop_last());
    } else {
        assert(a + b == a);
    }
}

proof fn lemma_id_count_insert(s: Seq<DeviceId>, p: int, id: DeviceId, x: u128)
    requires
        0 <= p <= s.len(),
    ensures
        id_count(s.insert(p, id), x) == id_count(s, x) + if id.0 == x {
            1nat
        } else {
            0nat
        },
{
    assert(s.insert(p, id) =~= s.take(p) + seq![id] + s.skip(p));
    assert(s =~= s.take(p) + s.skip(p));
    lemma_id_count_concat(s.take(p) + seq![id], s.skip(p), x);
    lemma_id_count_concat(s.take(p), seq![id], x);
    lemma_id_count_concat(s.take(p), s.skip(p), x);
    assert(seq![id].drop_last() =~= Seq::<DeviceId>::empty());
    assert(seq![id].last() == id);
    assert(id_count(seq![id], x) == id_count(Seq::<DeviceId>::empty(), x) + if id.0 == x {
        1nat
    } else {
        0nat
    });
}

proof fn lemma_tag_count_zero(tags: Seq<Seq<char>>, t: Seq<char>)
    ensures
        tag_count(tags, t) == 0 <==> !tags.contains(t),
    decreases tags.len(),
{
    if tags.len() > 0 {
        lemma_tag_count_zero(tags.drop_last(), t);
        if tags.drop_last().contains(t) {
            let i = choose|i: int| 0 <= i < tags.drop_last().len() && tags.drop_last()[i] == t;
            assert(tags[i] == t);
        }
        if tags.contains(t) && tags.last() != t {
            let i = choose|i: int| 0 <= i < tags.len() && tags[i] == t;
            assert(tags.drop_last()[i] == t);
        }
        if tags.last() == t {
            assert(tags[tags.len() - 1] == t);
        }
    }
}

/// Inserts `id` after every smaller-or-equal id.
fn insert_id_sorted(b: &mut Vec<DeviceId>, id: DeviceId)
    requires
        ids_sorted(old(b)@),
    ensures
        ids_sorted(final(b)@),
        forall|x: u128|
            #[trigger] id_count(final(b)@, x) == id_count(old(b)@, x) + if id.0 == x {
                1nat
            } else {
                0nat
            },
{
    let mut p: usize = 0;
    while p < b.len() && b[p].0 <= id.0
        invariant
            p <= b@.len(),
            forall|k: int| 0 <= k < p ==> (#[trigger] b@[k]).0 <= id.0,
        decreases b.len() - p,
    {
        p = p + 1;
    }
    let ghost before = b@;
    b.insert(p, id);
    proof {
        assert forall|x: u128| #[trigger] id_count(b@, x) == id_count(before, x) + if id.0 == x {
            1nat
        } else {
            0nat
        } by {
            lemma_id_count_insert(before, p as int, id, x);
        }
        assert forall|a: int, c: int| 0 <= a < c < b@.len() implies b@[a].0 <= b@[c].0 by {
            if c < p {
            } else if c == p {
            } else if a < p {
                assert(b@[c] == before[c - 1]);
            } else if a == p {
                assert(b@[c] == before[c - 1]);
            } else {
                assert(b@[a] == before[a - 1] && b@[c] == before[c - 1]);
            }
        }
    }
}

/// Tag `t` is at some position of `tags`.
pub open spec fn in_tags(tags: Seq<String>, t: Seq<char>) -> bool {
    exists|k: int| 0 <= k < tags.len() && (#[trigger] tags[k])@ == t
}

/// The count of `x` in the bucket of tag `t` (0 for a tag not yet seen).
pub open spec fn bucket_count(tags: Seq<String>, buckets: Seq<Vec<DeviceId>>, t: Seq<char>, x: u128) -> nat {
    if in_tags(tags, t) {
        let k = choose|k: int| 0 <= k < tags.len() && (#[trigger] tags[k])@ == t;
        id_count(buckets[k]@, x)
    } else {
        0
    }
}

pub open spec fn tags_unique(tags: Seq<String>) -> bool {
    forall|a: int, b: int|
        0 <= a < tags.len() && 0 <= b < tags.len() && a != b ==> (#[trigger] tags[a])@
            != (#[trigger] tags[b])@
}

pub open spec fn buckets_ok(tags: Seq<String>, buckets: Seq<Vec<DeviceId>>) -> bool {
    &&& tags.len() == buckets.len()
    &&& tags_unique(tags)
    &&& forall|k: int| 0 <= k < buckets.len() ==> ids_sorted(#[trigger] buckets[k]@)
}

proof fn lemma_bucket_count_at(tags: Seq<String>, buckets: Seq<Vec<DeviceId>>, k: int, x: u128)
    requires
        buckets_ok(tags, buckets),
        0 <= k < tags.len(),
    ensures
        bucket_count(tags, buckets, tags[k]@, x) == id_count(buckets[k]@, x),
{
    let t = tags[k]@;
    assert(in_tags(tags, t));
    let c = choose|c: int| 0 <= c < tags.len() && (#[trigger] tags[c])@ == t;
    assert(c == k);
}

fn tag_position(tags: &Vec<String>, t: &str) -> (r: Option<usize>)
    ensures
        r matches Some(k) ==> k < tags@.len() && tags@[k as int]@ == t@,
        r is None ==> !in_tags(tags@, t@),
{
    let mut k: usize = 0;
    while k < tags.len()
        invariant
            k <= tags@.len(),
            forall|c: int| 0 <= c < k ==> (#[trigger] tags@[c])@ != t@,
        decreases tags.len() - k,
    {
        if str_eq(tags[k].as_str(), t) {
            return Some(k);
        }
        k = k + 1;
    }
    None
}

/// Adds `id` to the bucket of tag `t`, opening the bucket if the tag is new.
fn add_member(tags: &mut Vec<String>, buckets: &mut Vec<Vec<DeviceId>>, t: &String, id: DeviceId)
    requires
        buckets_ok(old(tags)@, old(buckets)@),
    ensures
        buckets_ok(final(tags)@, final(buckets)@),
        forall|u: Seq<char>| #[trigger]
            in_tags(final(tags)@, u) <==> in_tags(old(tags)@, u) || u == t@,
        forall|u: Seq<char>, x: u128|
            #[trigger] bucket_count(final(tags)@, final(buckets)@, u, x) == bucket_count(
                old(tags)@,
                old(buckets)@,
                u,
                x,
            ) + if u == t@ && id.0 == x {
                1nat
            } else {
                0nat
            },
{
    let ghost tags0 = tags@;
    let ghost buckets0 = buckets@;
    let k = match tag_position(tags, t.as_str()) {
        Some(k) => k,
        None => {
            tags.push(t.clone());
            buckets.push(Vec::new());
            proof {
                assert(tags@.drop_last() == tags0);
                assert forall|a: int, b: int|
                    0 <= a < tags@.len() && 0 <= b < tags@.len() && a != b implies (
                    #[trigger] tags@[a])@ != (#[trigger] tags@[b])@ by {
                    if a < tags0.len() && b < tags0.len() {
                        assert(tags@[a] == tags0[a] && tags@[b] == tags0[b]);
                    } else if a < tags0.len() {
                        assert(tags@[a] == tags0[a]);
                    } else {
                        assert(tags@[b] == tags0[b]);
                    }
                }
                assert forall|c: int| 0 <= c < buckets@.len() implies ids_sorted(
                    #[trigger] buckets@[c]@,
                ) by {
                    if c < buckets0.len() {
                        assert(buckets@[c] == buckets0[c]);
                    }
                }
            }
            tags.len() - 1
        },
    };
    let ghost tags1 = tags@;
    let ghost buckets1 = buckets@;
    proof {
        // opening a bucket changes no count
        assert forall|u: Seq<char>, x: u128| #[trigger]
            bucket_count(tags1, buckets1, u, x) == bucket_count(tags0, buckets0, u, x) by {
            if in_tags(tags0, u) {
                let c = choose|c: int| 0 <= c < tags0.len() && (#[trigger] tags0[c])@ == u;
                lemma_bucket_count_at(tags0, buckets0, c, x);
                assert(tags1[c] == tags0[c]);
                lemma_bucket_count_at(tags1, buckets1, c, x);
                assert(buckets1[c] == buckets0[c]);
            } else if in_tags(tags1, u) {
                assert(u == t@);
                lemma_bucket_count_at(tags1, buckets1, k as int, x);
                assert(buckets1[k as int]@ == Seq::<DeviceId>::empty());
            }
        }
        assert forall|u: Seq<char>| #[trigger] in_tags(tags1, u) <==> in_tags(tags0, u) || u
            == t@ by {
            if in_tags(tags0, u) {
                let c = choose|c: int| 0 <= c < tags0.len() && (#[trigger] tags0[c])@ == u;
                assert(tags1[c] == tags0[c]);
            }
            if u == t@ {
                assert(tags1[k as int]@ == u);
            }
            if in_tags(tags1, u) && !in_tags(tags0, u) {
                let c = choose|c: int| 0 <= c < tags1.len() && (#[trigger] tags1[c])@ == u;
                if c < tags0.len() {
                    assert(tags1[c] == tags0[c]);
                }
            }
        }
    }
    let mut b = buckets.remove(k);
    insert_id_sorted(&mut b, id);
    let ghost nb = b;
    buckets.insert(k, b);
    proof {
        assert(buckets@ == buckets1.update(k as int, nb));
        assert forall|c: int| 0 <= c < buckets@.len() implies ids_sorted(#[trigger] buckets@[c]@) by {
            if c != k {
                assert(buckets@[c] == buckets1[c]);
            }
        }
        assert forall|u: Seq<char>, x: u128| #[trigger]
            bucket_count(tags@, buckets@, u, x) == bucket_count(tags1, buckets1, u, x) + if u
                == t@ && id.0 == x {
                1nat
            } else {
                0nat
            } by {
            if in_tags(tags1, u) {
                let c = choose|c: int| 0 <= c < tags1.len() && (#[trigger] tags1[c])@ == u;
                lemma_bucket_count_at(tags1, buckets1, c, x);
                lemma_bucket_count_at(tags@, buckets@, c, x);
                if c != k {
                    assert(buckets@[c] == buckets1[c]);
                    assert(u != t@);
                }
            }
        }
    }
}

/// Counts of `x` under tag `t` over the devices of `devs`.
pub open spec fn count_before(devs: Seq<Device>, t: Seq<char>, x: u128) -> nat
    decreases devs.len(),
{
    if devs.len() == 0 {
        0
    } else {
        count_before(devs.drop_last(), t, x) + if devs.last().id.0 == x {
            tag_count(views(devs.last().tags@), t)
        } else {
            0
        }
    }
}

/// Tag `t` occurs on some device of `devs`.
pub open spec fn seen_tag(devs: Seq<Device>, t: Seq<char>) -> bool {
    exists|k: int| 0 <= k < devs.len() && views((#[trigger] devs[k]).tags@).contains(t)
}

proof fn lemma_count_before_map(devs: Seq<Device>, t: Seq<char>, x: u128)
    requires
        ids_unique(devs),
    ensures
        count_before(devs, t, x) == if devices_map(devs).contains_key(x) {
            tag_count(devices_map(devs)[x].tags, t)
        } else {
            0
        },
    decreases devs.len(),
{
    if devs.len() > 0 {
        let dl = devs.drop_last();
        lemma_unique_drop_last(devs);
        lemma_count_before_map(dl, t, x);
        if devs.last().id.0 == x {
            assert forall|k: int| 0 <= k < dl.len() implies (#[trigger] dl[k]).id.0 != x by {
                assert(dl[k] == devs[k]);
            }
            lemma_devices_dom(dl, x);
        }
    }
}

proof fn lemma_seen_tag_map(devs: Seq<Device>, t: Seq<char>)
    requires
        ids_unique(devs),
    ensures
        seen_tag(devs, t) <==> has_tag(devices_map(devs), t),
{
    let m = devices_map(devs);
    if seen_tag(devs, t) {
        let k = choose|k: int| 0 <= k < devs.len() && views((#[trigger] devs[k]).tags@).contains(t);
        lemma_devices_lookup(devs, k);
        assert(m.contains_key(devs[k].id.0) && m[devs[k].id.0].tags.contains(t));
    }
    if has_tag(m, t) {
        let x = choose|x: u128| #[trigger] m.contains_key(x) && m[x].tags.contains(t);
        lemma_devices_dom(devs, x);
        let k = choose|k: int| 0 <= k < devs.len() && (#[trigger] devs[k]).id.0 == x;
        lemma_devices_lookup(devs, k);
        assert(views(devs[k].tags@).contains(t));
    }
}

impl Registry {
    /// The groups: for every tag that some device carries, the ids of the
    /// devices carrying it, in id order. One device appears in as many
    /// groups as it has tags.
    pub fn groups(&self) -> (g: FieldMap<Vec<DeviceId>>)
        ensures
            forall|t: Seq<char>| #[trigger] g@.contains_key(t) <==> has_tag(self@, t),
            forall|t: Seq<char>| #[trigger] g@.contains_key(t) ==> is_group(self@, t, g@[t]),
    {
        proof {
            use_type_invariant(self);
        }
        let devs = &self.devices;
        let mut tags: Vec<String> = Vec::new();
        let mut buckets: Vec<Vec<DeviceId>> = Vec::new();
        let mut i: usize = 0;
        while i < devs.len()
            invariant
                i <= devs@.len(),
                buckets_ok(tags@, buckets@),
                forall|u: Seq<char>| #[trigger] in_tags(tags@, u) <==> seen_tag(devs@.take(i as int), u),
                forall|u: Seq<char>, x: u128|
                    #[trigger] bucket_count(tags@, buckets@, u, x) == count_before(devs@.take(i as int), u, x),
            decreases devs.len() - i,
        {
            let d = &devs[i];
            let ghost dtags = views(d.tags@);
            let ghost prev = devs@.take(i as int);
            let mut j: usize = 0;
            while j < d.tags.len()
                invariant
                    j <= d.tags@.len(),
                    dtags == views(d.tags@),
                    buckets_ok(tags@, buckets@),
                    forall|u: Seq<char>| #[trigger] in_tags(tags@, u) <==> seen_tag(prev, u) || dtags.take(j as int).contains(u),
                    forall|u: Seq<char>, x: u128|
                        #[trigger] bucket_count(tags@, buckets@, u, x) == count_before(prev, u, x) + if d.id.0 == x {
                            tag_count(dtags.take(j as int), u)
                        } else {
                            0
                        },
                decreases d.tags.len() - j,
            {
                let ghost t = d.tags@[j as int]@;
                add_member(&mut tags, &mut buckets, &d.tags[j], d.id);
                proof {
                    assert(dtags.take(j + 1).drop_last() == dtags.take(j as int));
                    assert(dtags.take(j + 1).last() == t);
                    assert forall|u: Seq<char>| #[trigger] in_tags(tags@, u) <==> seen_tag(prev, u)
                        || dtags.take(j + 1).contains(u) by {
                        if dtags.take(j + 1).contains(u) && u != t {
                            let c = choose|c: int| 0 <= c < j + 1 && #[trigger] dtags.take(j + 1)[c] == u;
                            assert(dtags.take(j as int)[c] == u);
                        }
                        if dtags.take(j as int).contains(u) {
                            let c = choose|c: int| 0 <= c < j && #[trigger] dtags.take(j as int)[c] == u;
                            assert(dtags.take(j + 1)[c] == u);
                        }
                        if u == t {
                            assert(dtags.take(j + 1)[j as int] == u);
                        }
                    }
                }
                j = j + 1;
            }
            proof {
                assert(dtags.take(j as int) == dtags);
                let next = devs@.take(i + 1);
                assert(next.drop_last() == prev);
                assert(next.last() == *d);
                assert forall|u: Seq<char>| #[trigger] seen_tag(next, u) <==> seen_tag(prev, u)
                    || dtags.contains(u) by {
                    if seen_tag(next, u) {
                        let k = choose|k: int| 0 <= k < next.len() && views((#[trigger] next[k]).tags@).contains(u);
                        if k < i {
                            assert(prev[k] == next[k]);
                        }
                    }
                    if seen_tag(prev, u) {
                        let k = choose|k: int| 0 <= k < prev.len() && views((#[trigger] prev[k]).tags@).contains(u);
                        assert(next[k] == prev[k]);
                    }
                    if dtags.contains(u) {
                        assert(next[i as int] == *d);
                    }
                }
            }
            i = i + 1;
        }
        proof {
            assert(devs@.take(devs@.len() as int) == devs@);
        }
        let ghost ftags = tags@;
        let ghost fbuckets = buckets@;
        let mut entries: Vec<(String, Vec<DeviceId>)> = Vec::new();
        let mut k: usize = 0;
        let mut ts = tags;
        let mut bs = buckets;
        let total: usize = ts.len();
        assert(total == ftags.len());
        while ts.len() > 0
            invariant
                ts@.len() == bs@.len(),
                ftags.len() == fbuckets.len(),
                ftags.len() <= usize::MAX,
                k + ts@.len() == ftags.len(),
                ts@ == ftags.skip(k as int),
                bs@ == fbuckets.skip(k as int),
                entries@.len() == k,
                forall|c: int| 0 <= c < k ==> (#[trigger] entries@[c]).0 == ftags[c] && entries@[c].1 == fbuckets[c],
            decreases ts.len(),
        {
            let t = ts.remove(0);
            let b = bs.remove(0);
            entries.push((t, b));
            k = k + 1;
            proof {
                assert(ts@ == ftags.skip(k as int));
                assert(bs@ == fbuckets.skip(k as int));
            }
        }
        let ghost es = entries@;
        let g = FieldMap::from_entries(entries);
        proof {
            assert(es.len() == ftags.len());
            assert forall|a: int, b: int|
                0 <= a < es.len() && 0 <= b < es.len() && a != b implies #[trigger] es[a].0@
                != #[trigger] es[b].0@ by {
                assert(ftags[a]@ != ftags[b]@);
            }
            assert forall|t: Seq<char>| #[trigger] g@.contains_key(t) <==> has_tag(self@, t) by {
                crate::field_map::lemma_map_of_dom(es, t);
                lemma_seen_tag_map(devs@, t);
                if in_tags(ftags, t) {
                    let c = choose|c: int| 0 <= c < ftags.len() && (#[trigger] ftags[c])@ == t;
                    assert(es[c].0@ == t);
                }
                if g@.contains_key(t) {
                    let c = choose|c: int| 0 <= c < es.len() && (#[trigger] es[c]).0@ == t;
                    assert(ftags[c]@ == t);
                }
            }
            assert forall|t: Seq<char>| #[trigger] g@.contains_key(t) implies is_group(self@, t, g@[t]) by {
                crate::field_map::lemma_map_of_dom(es, t);
                let c = choose|c: int| 0 <= c < es.len() && (#[trigger] es[c]).0@ == t;
                crate::field_map::lemma_map_of_lookup(es, c);
                assert(g@[t] == fbuckets[c]@);
                assert forall|x: u128| #[trigger] id_count(g@[t], x) == if self@.contains_key(x) {
                    tag_count(self@[x].tags, t)
                } else {
                    0
                } by {
                    lemma_bucket_count_at(ftags, fbuckets, c, x);
                    lemma_count_before_map(devs@, t, x);
                }
            }
        }
        g
    }
}

/// Group membership follows the tags: a device is in group `t` exactly when
/// it carries tag `t`, so a device with several tags is in several groups.
pub proof fn lemma_member_iff_tagged(m: Map<u128, DeviceView>, t: Seq<char>, ids: Seq<DeviceId>, x: u128)
    requires
        is_group(m, t, ids),
    ensures
        ids.contains(DeviceId(x)) <==> m.contains_key(x) && m[x].tags.contains(t),
{
    lemma_tag_count_zero(if m.contains_key(x) { m[x].tags } else { Seq::empty() }, t);
    lemma_id_count_contains(ids, x);
    assert(id_count(ids, x) == if m.contains_key(x) { tag_count(m[x].tags, t) } else { 0 });
}

proof fn lemma_id_count_contains(ids: Seq<DeviceId>, x: u128)
    ensures
        id_count(ids, x) > 0 <==> ids.contains(DeviceId(x)),
    decreases ids.len(),
{
    if ids.len() > 0 {
        lemma_id_count_contains(ids.drop_last(), x);
        if ids.drop_last().contains(DeviceId(x)) {
            let i = choose|i: int| 0 <= i < ids.drop_last().len() && ids.drop_last()[i] == DeviceId(x);
            assert(ids[i] == DeviceId(x));
        }
        if ids.contains(DeviceId(x)) && ids.last() != DeviceId(x) {
            let i = choose|i: int| 0 <= i < ids.len() && ids[i] == DeviceId(x);
            assert(ids.drop_last()[i] == DeviceId(x));
        }
        if ids.last() == DeviceId(x) {
            assert(ids[ids.len() - 1] == DeviceId(x));
        }
        if ids.last().0 == x {
            assert(ids.last() == DeviceId(x));
        }
    }
}

} // verus!
