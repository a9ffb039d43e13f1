//! Saved credentials and the list of known (user-labelled) devices. The JSON files they
//! are kept in are read and written by the caller; the edits of the list are here.
use vstd::prelude::*;

use crate::cloud::Region;

verus! {

/// The resolved EcoFlow User ID, email and region. The password is never stored.
#[derive(Clone, Debug)]
pub struct SavedCreds {
    pub user_id: Option<String>,
    pub email: Option<String>,
    pub region: String,
}

/// The region saved when none is known.
pub fn default_region() -> (r: String)
    ensures
        r@ == "Eu"@,
{
    String::from_str("Eu")
}

impl Default for SavedCreds {
    fn default() -> (r: Self)
        ensures
            r.user_id is None,
            r.email is None,
            r.region@ == "Eu"@,
    {
        SavedCreds { user_id: None, email: None, region: default_region() }
    }
}

/// The region named by a saved string: "Us" selects the US endpoint, anything else the EU one.
pub fn parse_region(s: &str) -> (r: Region)
    ensures
        r == (if s@ == "Us"@ {
            Region::Us
        } else {
            Region::Eu
        }),
{
    proof {
        reveal_strlit("Us");
    }
    if s.unicode_len() == 2 && s.get_char(0) == 'U' && s.get_char(1) == 's' {
        proof {
            assert(s@ =~= "Us"@);
        }
        Region::Us
    } else {
        Region::Eu
    }
}

/// A device the user labelled.
#[derive(Debug)]
pub struct KnownDevice {
    pub id: String,
    pub label: String,
    pub serial: Option<String>,
    pub address: Option<String>,
}

fn clone_opt_string(s: &Option<String>) -> (r: Option<String>)
    ensures
        r == *s,
{
    match s {
        Some(x) => Some(x.clone()),
        None => None,
    }
}

impl Clone for KnownDevice {
    fn clone(&self) -> (r: Self)
        ensures
            r == *self,
    {
        KnownDevice {
            id: self.id.clone(),
            label: self.label.clone(),
            serial: clone_opt_string(&self.serial),
            address: clone_opt_string(&self.address),
        }
    }
}

/// The index of the first device with this id.
pub open spec fn index_of_id(devices: Seq<KnownDevice>, id: Seq<char>) -> Option<int>
    decreases devices.len(),
{
    if devices.len() == 0 {
        None
    } else {
        match index_of_id(devices.drop_last(), id) {
            Some(i) => Some(i),
            None => if devices.last().id@ == id {
                Some(devices.len() - 1)
            } else {
                None
            },
        }
    }
}

/// The list after an upsert: the first device with the same id replaced, else the device
/// appended.
pub open spec fn upsert_spec(devices: Seq<KnownDevice>, device: KnownDevice) -> Seq<KnownDevice> {
    match index_of_id(devices, device.id@) {
        Some(i) => devices.update(i, device),
        None => devices.push(device),
    }
}

/// The list after a removal: every device with this id dropped, the others kept in order.
pub open spec fn remove_spec(devices: Seq<KnownDevice>, id: Seq<char>) -> Seq<KnownDevice>
    decreases devices.len(),
{
    if devices.len() == 0 {
        devices
    } else {
        let r = remove_spec(devices.drop_last(), id);
        if devices.last().id@ != id {
            r.push(devices.last())
        } else {
            r
        }
    }
}

/// Whether no two devices share an id.
pub open spec fn ids_unique(devices: Seq<KnownDevice>) -> bool {
    forall|i: int, j: int| 0 <= i < j < devices.len() ==> devices[i].id@ != devices[j].id@
}

proof fn lemma_index_of_id(devices: Seq<KnownDevice>, id: Seq<char>)
    ensures
        match index_of_id(devices, id) {
            Some(i) => 0 <= i < devices.len() && devices[i].id@ == id && forall|j: int|
                0 <= j < i ==> devices[j].id@ != id,
            None => forall|j: int| 0 <= j < devices.len() ==> devices[j].id@ != id,
        },
    decreases devices.len(),
{
    if devices.len() > 0 {
        let p = devices.drop_last();
        lemma_index_of_id(p, id);
        assert(forall|j: int| 0 <= j < p.len() ==> p[j] == devices[j]);
    }
}

fn find_device(devices: &Vec<KnownDevice>, id: &str) -> (r: Option<usize>)
    ensures
        r is None <==> index_of_id(devices@, id@) is None,
        r matches Some(i) ==> index_of_id(devices@, id@) == Some(i as int) && i < devices@.len(),
{
    proof {
        lemma_index_of_id(devices@, id@);
    }
    let mut i: usize = 0;
    while i < devices.len()
        invariant
            i <= devices.len(),
            index_of_id(devices@.take(i as int), id@) is None,
        decreases devices.len() - i,
    {
        proof {
            assert(devices@.take(i + 1).drop_last() =~= devices@.take(i as int));
        }
        if str_eq(devices[i].id.as_str(), id) {
            proof {
                lemma_index_of_id_prefix(devices@, id@, i + 1);
            }
            return Some(i);
        }
        i = i + 1;
    }
    proof {
        assert(devices@.take(devices@.len() as int) =~= devices@);
    }
    None
}

proof fn lemma_index_of_id_prefix(s: Seq<KnownDevice>, id: Seq<char>, k: int)
    requires
        0 <= k <= s.len(),
        index_of_id(s.take(k), id) is Some,
    ensures
        index_of_id(s, id) == index_of_id(s.take(k), id),
    decreases s.len() - k,
{
    if k < s.len() {
        assert(s.take(k + 1).drop_last() =~= s.take(k));
        lemma_index_of_id_prefix(s, id, k + 1);
    } else {
        assert(s.take(k) =~= s);
    }
}

/// Character-wise equality of two strings.
fn str_eq(a: &str, b: &str) -> (r: bool)
    ensures
        r == (a@ == b@),
{
    let n = a.unicode_len();
    if n != b.unicode_len() {
        return false;
    }
    let mut i: usize = 0;
    while i < n
        invariant
            i <= n,
            n == a@.len(),
            n == b@.len(),
            a@.take(i as int) == b@.take(i as int),
        decreases n - i,
    {
        if a.get_char(i) != b.get_char(i) {
            return false;
        }
        proof {
            assert(a@.take(i + 1) =~= a@.take(i as int).push(a@[i as int]));
            assert(b@.take(i + 1) =~= b@.take(i as int).push(b@[i as int]));
        }
        i = i + 1;
    }
    proof {
        assert(a@.take(n as int) =~= a@);
        assert(b@.take(n as int) =~= b@);
    }
    true
}

/// Insert a device, or replace the first one with the same id in place.
pub fn upsert_device(devices: &mut Vec<KnownDevice>, device: KnownDevice)
    ensures
        final(devices)@ == upsert_spec(old(devices)@, device),
{
    match find_device(devices, device.id.as_str()) {
        Some(i) => {
            devices.set(i, device);
        },
        None => {
            devices.push(device);
        },
    }
}

/// Relabel the first device with this id; the list is unchanged when there is none.
pub fn rename_device(devices: &mut Vec<KnownDevice>, id: &str, label: &str)
    ensures
        match index_of_id(old(devices)@, id@) {
            Some(i) => final(devices)@.len() == old(devices)@.len() && final(devices)@[i].label@ == label@
                && final(devices)@[i].id == old(devices)@[i].id && final(devices)@[i].serial == old(devices)@[i].serial
                && final(devices)@[i].address == old(devices)@[i].address && forall|j: int|
                0 <= j < old(devices)@.len() && j != i ==> final(devices)@[j] == old(devices)@[j],
            None => final(devices)@ == old(devices)@,
        },
{
    match find_device(devices, id) {
        Some(i) => {
            let d = KnownDevice {
                id: devices[i].id.clone(),
                label: String::from_str(label),
                serial: clone_opt_string(&devices[i].serial),
                address: clone_opt_string(&devices[i].address),
            };
            devices.set(i, d);
        },
        None => {},
    }
}

/// Drop every device with this id.
pub fn remove_device(devices: &mut Vec<KnownDevice>, id: &str)
    ensures
        final(devices)@ == remove_spec(old(devices)@, id@),
{
    let mut kept: Vec<KnownDevice> = Vec::new();
    let mut rest: Vec<KnownDevice> = Vec::new();
    std::mem::swap(&mut rest, devices);
    let ghost all = rest@;
    let mut i: usize = 0;
    while i < rest.len()
        invariant
            i <= rest.len(),
            rest@ == all,
            kept@ == remove_spec(all.take(i as int), id@),
        decreases rest.len() - i,
    {
        proof {
            assert(all.take(i + 1).drop_last() =~= all.take(i as int));
        }
        if !str_eq(rest[i].id.as_str(), id) {
            kept.push(rest[i].clone());
        }
        i = i + 1;
    }
    proof {
        assert(all.take(all.len() as int) =~= all);
    }
    *devices = kept;
}

/// After an upsert the device is in the list under its id, and a list whose ids were
/// unique still has unique ids.
pub proof fn lemma_upsert_keeps_ids_unique(devices: Seq<KnownDevice>, device: KnownDevice)
    requires
        ids_unique(devices),
    ensures
        ids_unique(upsert_spec(devices, device)),
        match index_of_id(upsert_spec(devices, device), device.id@) {
            Some(i) => upsert_spec(devices, device)[i] == device,
            None => false,
        },
{
    lemma_index_of_id(devices, device.id@);
    let r = upsert_spec(devices, device);
    lemma_index_of_id(r, device.id@);
    match index_of_id(devices, device.id@) {
        Some(i) => {
            assert forall|a: int, b: int| 0 <= a < b < r.len() implies r[a].id@ != r[b].id@ by {
                if a == i {
                    assert(devices[b].id@ != devices[i].id@);
                } else if b == i {
                    assert(devices[a].id@ != devices[i].id@);
                }
            }
        },
        None => {
            assert forall|a: int, b: int| 0 <= a < b < r.len() implies r[a].id@ != r[b].id@ by {
                if b == devices.len() {
                    assert(devices[a].id@ != device.id@);
                }
            }
        },
    }
    let pos = match index_of_id(devices, device.id@) {
        Some(i) => i,
        None => devices.len() as int,
    };
    assert(r[pos] == device);
    match index_of_id(r, device.id@) {
        Some(j) => {
            if j != pos {
                if j < pos {
                    assert(r[j].id@ != r[pos].id@);
                } else {
                    assert(r[pos].id@ != r[j].id@);
                }
            }
        },
        None => {
            assert(r[pos].id@ != device.id@);
        },
    }
}

/// After a removal no device has the id, the other devices keep their order, and unique
/// ids stay unique.
pub proof fn lemma_remove_drops_id(devices: Seq<KnownDevice>, id: Seq<char>)
    ensures
        index_of_id(remove_spec(devices, id), id) is None,
        forall|i: int| 0 <= i < remove_spec(devices, id).len() ==> remove_spec(devices, id)[i].id@ != id,
        remove_spec(devices, id).len() <= devices.len(),
        ids_unique(devices) ==> ids_unique(remove_spec(devices, id)),
    decreases devices.len(),
{
    let r = remove_spec(devices, id);
    if devices.len() > 0 {
        let p = devices.drop_last();
        lemma_remove_drops_id(p, id);
        lemma_remove_subseq(p, id);
        if ids_unique(devices) {
            assert(ids_unique(p));
            assert forall|a: int, b: int| 0 <= a < b < r.len() implies r[a].id@ != r[b].id@ by {
                if devices.last().id@ != id && b == r.len() - 1 {
                    let k = choose|k: int| 0 <= k < p.len() && p[k] == r[a];
                    assert(devices[k] == p[k]);
                    assert(devices[k].id@ != devices[devices.len() - 1].id@);
                }
            }
        }
    }
    lemma_index_of_id(r, id);
}

/// Every device kept by a removal comes from the list it was removed from.
proof fn lemma_remove_subseq(devices: Seq<KnownDevice>, id: Seq<char>)
    ensures
        forall|i: int|
            0 <= i < remove_spec(devices, id).len() ==> exists|k: int|
                0 <= k < devices.len() && #[trigger] devices[k] == #[trigger] remove_spec(devices, id)[i],
    decreases devices.len(),
{
    if devices.len() > 0 {
        let p = devices.drop_last();
        lemma_remove_subseq(p, id);
        let r = remove_spec(devices, id);
        assert forall|i: int| 0 <= i < r.len() implies exists|k: int| 0 <= k < devices.len() && #[trigger] devices[k] == #[trigger] r[i] by {
            if i < remove_spec(p, id).len() {
                let k = choose|k: int| 0 <= k < p.len() && p[k] == remove_spec(p, id)[i];
                assert(devices[k] == p[k]);
            } else {
                assert(devices[devices.len() - 1] == r[i]);
            }
        }
    }
}

} // verus!
