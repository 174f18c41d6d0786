//! The registry of client devices: which device identifiers have called,
//! and from which addresses.

use vstd::prelude::*;
use vstd::string::*;
use crate::codec::{json_string, quote};
use crate::json::{json_array, ToJson};

verus! {

/// A device as a mathematical value: its identifier and the addresses it was
/// seen at, oldest first.
pub ghost struct DeviceView {
    pub device_id: Seq<char>,
    pub observed_addresses: Seq<Seq<char>>,
}

/// The texts of `items`, in order.
pub open spec fn texts(items: Seq<String>) -> Seq<Seq<char>> {
    Seq::new(items.len(), |i: int| items[i]@)
}

/// `device` after it was seen at `address`: the address is added at the end
/// unless it is already there.
pub open spec fn observed(device: DeviceView, address: Seq<char>) -> DeviceView {
    if device.observed_addresses.contains(address) {
        device
    } else {
        DeviceView {
            device_id: device.device_id,
            observed_addresses: device.observed_addresses.push(address),
        }
    }
}

/// The JSON array of the JSON strings of `items`.
pub open spec fn json_strings(items: Seq<Seq<char>>) -> Seq<char> {
    json_array(Seq::new(items.len(), |i: int| json_string(items[i])))
}

/// The JSON object of a device: its identifier, then its addresses.
pub open spec fn device_json(device: DeviceView) -> Seq<char> {
    "{\"device_id\":"@ + json_string(device.device_id) + ",\"observed_addresses\":"@
        + json_strings(device.observed_addresses) + "}"@
}

/// A client device and every distinct address it was seen at. Two values
/// with the same identifier stand for the same device.
#[derive(Debug)]
pub struct DeviceInfo {
    device_id: String,
    observed_addresses: Vec<String>,
}

impl View for DeviceInfo {
    type V = DeviceView;

    closed spec fn view(&self) -> DeviceView {
        DeviceView {
            device_id: self.device_id@,
            observed_addresses: texts(self.observed_addresses@),
        }
    }
}

impl DeviceInfo {
    #[verifier::type_invariant]
    spec fn distinct(&self) -> bool {
        texts(self.observed_addresses@).no_duplicates()
    }

    /// A device that has not been seen at any address yet.
    pub fn new(device_id: String) -> (r: Self)
        ensures
            r@.device_id == device_id@,
            r@.observed_addresses == Seq::<Seq<char>>::empty(),
    {
        let r = DeviceInfo { device_id, observed_addresses: Vec::new() };
        assert(r@.observed_addresses =~= Seq::<Seq<char>>::empty());
        r
    }

    pub fn device_id(&self) -> (r: &str)
        ensures
            r@ == self@.device_id,
    {
        self.device_id.as_str()
    }

    /// The addresses the device was seen at, oldest first, none twice.
    pub fn observed_addresses(&self) -> (r: &Vec<String>)
        ensures
            texts(r@) == self@.observed_addresses,
            self@.observed_addresses.no_duplicates(),
    {
        proof {
            use_type_invariant(self);
        }
        &self.observed_addresses
    }

    /// Whether the device was seen at `address`.
    pub fn seen_at(&self, address: &str) -> (r: bool)
        ensures
            r == self@.observed_addresses.contains(address@),
    {
        let wanted = String::from_str(address);
        let mut i: usize = 0;
        while i < self.observed_addresses.len()
            invariant
                i <= self.observed_addresses.len(),
                wanted@ == address@,
                forall|j: int| 0 <= j < i ==> texts(self.observed_addresses@)[j] != address@,
            decreases self.observed_addresses.len() - i,
        {
            if self.observed_addresses[i] == wanted {
                assert(texts(self.observed_addresses@)[i as int] == address@);
                return true;
            }
            i += 1;
        }
        false
    }

    /// Notes that the device was seen at `address`.
    pub fn observe(&mut self, address: &str)
        ensures
            final(self)@ == observed(old(self)@, address@),
            final(self)@.observed_addresses.no_duplicates(),
    {
        proof {
            use_type_invariant(&*self);
        }
        if !self.seen_at(address) {
            let ghost before = self.observed_addresses@;
            let mut addresses: Vec<String> = Vec::new();
            core::mem::swap(&mut self.observed_addresses, &mut addresses);
            addresses.push(String::from_str(address));
            assert(texts(addresses@) =~= texts(before).push(address@));
            self.observed_addresses = addresses;
        }
    }
}

impl Clone for DeviceInfo {
    fn clone(&self) -> (r: Self)
        ensures
            r@ == self@,
    {
        proof {
            use_type_invariant(self);
        }
        let mut addresses: Vec<String> = Vec::new();
        let mut i: usize = 0;
        while i < self.observed_addresses.len()
            invariant
                i <= self.observed_addresses.len(),
                addresses.len() == i,
                forall|j: int| 0 <= j < i ==> addresses[j]@ == self.observed_addresses[j]@,
            decreases self.observed_addresses.len() - i,
        {
            addresses.push(self.observed_addresses[i].clone());
            i += 1;
        }
        assert(texts(addresses@) =~= texts(self.observed_addresses@));
        DeviceInfo { device_id: self.device_id.clone(), observed_addresses: addresses }
    }
}

impl PartialEq for DeviceInfo {
    fn eq(&self, other: &Self) -> (r: bool) {
        self.device_id == other.device_id
    }
}

impl Eq for DeviceInfo {

}

impl vstd::std_specs::cmp::PartialEqSpecImpl for DeviceInfo {
    open spec fn obeys_eq_spec() -> bool {
        true
    }

    open spec fn eq_spec(&self, other: &Self) -> bool {
        self@.device_id == other@.device_id
    }
}

impl ToJson for String {
    open spec fn json_spec(&self) -> Seq<char> {
        json_string(self@)
    }

    fn to_json(&self) -> (r: String) {
        quote(self.as_str())
    }
}

impl ToJson for DeviceInfo {
    open spec fn json_spec(&self) -> Seq<char> {
        device_json(self@)
    }

    fn to_json(&self) -> (r: String) {
        let mut text = String::from_str("{\"device_id\":");
        text.append(quote(self.device_id.as_str()).as_str());
        text.append(",\"observed_addresses\":");
        let addresses = self.observed_addresses.to_json();
        assert(crate::json::json_texts(self.observed_addresses@) =~= Seq::new(
            self@.observed_addresses.len(),
            |i: int| json_string(self@.observed_addresses[i]),
        ));
        text.append(addresses.as_str());
        text.append("}");
        text
    }
}

/// The identifiers of `devices`, in order.
pub open spec fn device_ids(devices: Seq<DeviceView>) -> Seq<Seq<char>> {
    Seq::new(devices.len(), |i: int| devices[i].device_id)
}

/// No identifier occurs twice in `devices`, and no address twice in one of
/// them.
pub open spec fn well_formed(devices: Seq<DeviceView>) -> bool {
    &&& device_ids(devices).no_duplicates()
    &&& forall|i: int|
        0 <= i < devices.len() ==> (#[trigger] devices[i]).observed_addresses.no_duplicates()
}

/// `devices` after a call by `device_id` from `address`. A known device
/// keeps its place and gains the address if it is new to it; an unknown one
/// is added at the end with that one address.
pub open spec fn recorded(
    devices: Seq<DeviceView>,
    device_id: Seq<char>,
    address: Seq<char>,
) -> Seq<DeviceView> {
    if device_ids(devices).contains(device_id) {
        let i = device_ids(devices).index_of(device_id);
        devices.update(i, observed(devices[i], address))
    } else {
        devices.push(DeviceView { device_id, observed_addresses: seq![address] })
    }
}

/// Counting a call keeps a registry well formed, and the caller is then
/// known and was seen at the address of the call.
pub proof fn lemma_recorded(devices: Seq<DeviceView>, device_id: Seq<char>, address: Seq<char>)
    requires
        well_formed(devices),
    ensures
        well_formed(recorded(devices, device_id, address)),
        device_ids(recorded(devices, device_id, address)).contains(device_id),
        recorded(devices, device_id, address)[device_ids(
            recorded(devices, device_id, address),
        ).index_of(device_id)].observed_addresses.contains(address),
{
    let ids = device_ids(devices);
    let after = recorded(devices, device_id, address);
    if ids.contains(device_id) {
        let i = ids.index_of(device_id);
        assert(device_ids(after) =~= ids);
        assert(device_ids(after)[i] == device_id);
        let seen = devices[i].observed_addresses;
        if !seen.contains(address) {
            assert(seen.push(address)[seen.len() as int] == address);
            assert(seen.push(address).no_duplicates());
        }
        assert(after[i].observed_addresses.contains(address));
        assert forall|k: int| 0 <= k < after.len() implies (
        #[trigger] after[k]).observed_addresses.no_duplicates() by {
            if k != i {
                assert(after[k] == devices[k]);
            }
        }
        let j = device_ids(after).index_of(device_id);
        assert(j == i);
    } else {
        assert(device_ids(after) =~= ids.push(device_id));
        let n = devices.len() as int;
        assert(device_ids(after)[n] == device_id);
        assert(seq![address][0] == address);
        assert forall|k: int| 0 <= k < after.len() implies (
        #[trigger] after[k]).observed_addresses.no_duplicates() by {
            if k < n {
                assert(after[k] == devices[k]);
            }
        }
        let j = device_ids(after).index_of(device_id);
        assert(j == n);
    }
}

/// A device that was unknown and then called from two distinct addresses is
/// known as one device with exactly those two addresses.
pub proof fn lemma_two_addresses(
    devices: Seq<DeviceView>,
    device_id: Seq<char>,
    first: Seq<char>,
    second: Seq<char>,
)
    requires
        well_formed(devices),
        !device_ids(devices).contains(device_id),
        first != second,
    ensures
        recorded(recorded(devices, device_id, first), device_id, second) == devices.push(
            DeviceView { device_id, observed_addresses: seq![first, second] },
        ),
        well_formed(recorded(recorded(devices, device_id, first), device_id, second)),
{
    let once = recorded(devices, device_id, first);
    let n = devices.len() as int;
    lemma_recorded(devices, device_id, first);
    assert(device_ids(once) =~= device_ids(devices).push(device_id));
    assert(device_ids(once)[n] == device_id);
    assert(device_ids(once).index_of(device_id) == n);
    assert(!seq![first].contains(second));
    assert(seq![first].push(second) =~= seq![first, second]);
    lemma_recorded(once, device_id, second);
    assert(recorded(once, device_id, second) =~= devices.push(
        DeviceView { device_id, observed_addresses: seq![first, second] },
    ));
}

/// Counting the same call a second time changes nothing.
pub proof fn lemma_record_twice(devices: Seq<DeviceView>, device_id: Seq<char>, address: Seq<char>)
    requires
        well_formed(devices),
    ensures
        recorded(recorded(devices, device_id, address), device_id, address) == recorded(
            devices,
            device_id,
            address,
        ),
{
    let once = recorded(devices, device_id, address);
    lemma_recorded(devices, device_id, address);
    let i = device_ids(once).index_of(device_id);
    assert(0 <= i < once.len());
    assert(once[i].observed_addresses.contains(address));
    assert(recorded(once, device_id, address) =~= once);
}

/// The JSON array of `devices`.
pub open spec fn devices_json(devices: Seq<DeviceView>) -> Seq<char> {
    json_array(Seq::new(devices.len(), |i: int| device_json(devices[i])))
}

/// The views of `devices`, in order.
pub open spec fn device_views(devices: Seq<DeviceInfo>) -> Seq<DeviceView> {
    Seq::new(devices.len(), |i: int| devices[i]@)
}

/// Every device that has called, in the order of its first call.
pub struct DeviceRegistry {
    devices: Vec<DeviceInfo>,
}

impl View for DeviceRegistry {
    type V = Seq<DeviceView>;

    closed spec fn view(&self) -> Seq<DeviceView> {
        device_views(self.devices@)
    }
}

impl DeviceRegistry {
    #[verifier::type_invariant]
    spec fn sound(&self) -> bool {
        well_formed(device_views(self.devices@))
    }

    /// A registry that has seen no device.
    pub fn new() -> (r: Self)
        ensures
            r@ == Seq::<DeviceView>::empty(),
    {
        let r = DeviceRegistry { devices: Vec::new() };
        assert(r@ =~= Seq::<DeviceView>::empty());
        r
    }

    /// Where the device `device_id` stands, if it is known.
    fn position(&self, device_id: &str) -> (r: Option<usize>)
        ensures
            match r {
                Some(i) => i < self@.len() && self@[i as int].device_id == device_id@,
                None => !device_ids(self@).contains(device_id@),
            },
    {
        let wanted = String::from_str(device_id);
        let mut i: usize = 0;
        while i < self.devices.len()
            invariant
                i <= self.devices.len(),
                wanted@ == device_id@,
                forall|j: int| 0 <= j < i ==> device_ids(self@)[j] != device_id@,
            decreases self.devices.len() - i,
        {
            if self.devices[i].device_id == wanted {
                return Some(i);
            }
            i += 1;
        }
        None
    }

    /// Notes a call by `device_id` from `address`.
    pub fn record(&mut self, device_id: &str, address: &str)
        ensures
            final(self)@ == recorded(old(self)@, device_id@, address@),
            well_formed(final(self)@),
    {
        proof {
            use_type_invariant(&*self);
        }
        let ghost before = self@;
        let found = self.position(device_id);
        let mut devices: Vec<DeviceInfo> = Vec::new();
        core::mem::swap(&mut self.devices, &mut devices);
        match found {
            Some(i) => {
                proof {
                    let ids = device_ids(before);
                    assert(ids[i as int] == device_id@);
                    assert(ids.contains(device_id@));
                    assert(ids.index_of(device_id@) == i);
                }
                let mut device = devices.remove(i);
                device.observe(address);
                devices.insert(i, device);
                proof {
                    assert(device_views(devices@) =~= before.update(
                        i as int,
                        observed(before[i as int], address@),
                    ));
                    assert(device_ids(device_views(devices@)) =~= device_ids(before));
                }
            },
            None => {
                let mut device = DeviceInfo::new(String::from_str(device_id));
                device.observe(address);
                devices.push(device);
                proof {
                    let added = DeviceView {
                        device_id: device_id@,
                        observed_addresses: seq![address@],
                    };
                    assert(device@.observed_addresses =~= seq![address@]);
                    assert(device_views(devices@) =~= before.push(added));
                    assert(device_ids(device_views(devices@)) =~= device_ids(before).push(
                        device_id@,
                    ));
                }
            },
        }
        self.devices = devices;
    }

    /// The devices known at the time of the call.
    pub fn snapshot(&self) -> (r: Vec<DeviceInfo>)
        ensures
            device_views(r@) == self@,
            well_formed(self@),
    {
        proof {
            use_type_invariant(self);
        }
        let mut listing: Vec<DeviceInfo> = Vec::new();
        let mut i: usize = 0;
        while i < self.devices.len()
            invariant
                i <= self.devices.len(),
                listing.len() == i,
                forall|j: int| 0 <= j < i ==> listing[j]@ == self.devices[j]@,
            decreases self.devices.len() - i,
        {
            listing.push(self.devices[i].clone());
            i += 1;
        }
        assert(device_views(listing@) =~= self@);
        listing
    }
}

impl ToJson for DeviceRegistry {
    open spec fn json_spec(&self) -> Seq<char> {
        devices_json(self@)
    }

    fn to_json(&self) -> (r: String) {
        let text = self.devices.to_json();
        assert(crate::json::json_texts(self.devices@) =~= Seq::new(
            self@.len(),
            |i: int| device_json(self@[i]),
        ));
        text
    }
}

} // verus!
