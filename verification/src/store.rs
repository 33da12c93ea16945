//! The saved devices and settings, and every change the app makes to them.
use vstd::prelude::*;
use crate::maps::{self, StatusMap};
use crate::scrcpy::ScrcpyLaunchOptions;
use crate::text::{self, owned, push_all, push_char, push_decimal, trim_str};

verus! {

/// A saved device.
#[derive(Clone, Debug)]
pub struct AdbDevice {
    pub id: String,
    pub name: String,
    pub ip_address: String,
    pub port: u16,
    pub status: String,
    pub pinned: bool,
}

/// The model of a device.
#[verifier::ext_equal]
pub struct DeviceView {
    pub id: Seq<char>,
    pub name: Seq<char>,
    pub ip_address: Seq<char>,
    pub port: u16,
    pub status: Seq<char>,
    pub pinned: bool,
}

impl View for AdbDevice {
    type V = DeviceView;

    open spec fn view(&self) -> DeviceView {
        DeviceView {
            id: self.id@,
            name: self.name@,
            ip_address: self.ip_address@,
            port: self.port,
            status: self.status@,
            pinned: self.pinned,
        }
    }
}

/// The views of a sequence of devices.
pub open spec fn device_views(v: Seq<AdbDevice>) -> Seq<DeviceView> {
    v.map_values(|d: AdbDevice| d@)
}

/// `ip:port`, the address adb knows a device by.
pub open spec fn address_of(d: DeviceView) -> Seq<char> {
    d.ip_address + seq![':'] + text::dec(d.port as nat)
}

/// The status a device has before adb has reported on it.
pub open spec fn disconnected() -> Seq<char> {
    "disconnected"@
}

/// `d` with status `s`.
pub open spec fn with_status(d: DeviceView, s: Seq<char>) -> DeviceView {
    DeviceView { status: s, ..d }
}

/// `d` with name `n`.
pub open spec fn with_name(d: DeviceView, n: Seq<char>) -> DeviceView {
    DeviceView { name: n, ..d }
}

/// `d` pinned or not.
pub open spec fn with_pinned(d: DeviceView, p: bool) -> DeviceView {
    DeviceView { pinned: p, ..d }
}

/// Some device of `ds` has address `a`.
pub open spec fn has_address(ds: Seq<DeviceView>, a: Seq<char>) -> bool {
    exists|i: int| 0 <= i < ds.len() && address_of(#[trigger] ds[i]) == a
}

/// No two devices of `ds` share an address.
pub open spec fn addresses_unique(ds: Seq<DeviceView>) -> bool {
    forall|i: int, j: int|
        0 <= i < j < ds.len() ==> address_of(#[trigger] ds[i]) != address_of(#[trigger] ds[j])
}

/// The index of the first device of `ds` with id `id`.
pub open spec fn index_of_id(ds: Seq<DeviceView>, id: Seq<char>) -> Option<int>
    decreases ds.len(),
{
    if ds.len() == 0 {
        None
    } else if ds[0].id == id {
        Some(0)
    } else {
        match index_of_id(ds.drop_first(), id) {
            Some(j) => Some(j + 1),
            None => None,
        }
    }
}

/// `ds` without the devices whose id is `id`.
pub open spec fn without_id(ds: Seq<DeviceView>, id: Seq<char>) -> Seq<DeviceView>
    decreases ds.len(),
{
    if ds.len() == 0 {
        Seq::empty()
    } else {
        let r = without_id(ds.drop_last(), id);
        if ds.last().id == id {
            r
        } else {
            r.push(ds.last())
        }
    }
}

/// `ds` after adb reported `statuses`: each device takes the status reported
/// for its address, or "disconnected" when adb did not list it.
pub open spec fn statuses_applied(ds: Seq<DeviceView>, statuses: Seq<maps::Entry>) -> Seq<
    DeviceView,
> {
    ds.map_values(
        |d: DeviceView|
            with_status(
                d,
                match maps::lookup(statuses, address_of(d)) {
                    Some(s) => s,
                    None => disconnected(),
                },
            ),
    )
}

/// `ds` with every status "disconnected".
pub open spec fn all_disconnected(ds: Seq<DeviceView>) -> Seq<DeviceView> {
    ds.map_values(|d: DeviceView| with_status(d, disconnected()))
}

/// `ds` after importing `imported` in order: a device whose address is
/// already present (also through an earlier imported one) is skipped, the
/// others are appended with status "disconnected".
pub open spec fn imported_into(ds: Seq<DeviceView>, imported: Seq<DeviceView>) -> Seq<DeviceView>
    decreases imported.len(),
{
    if imported.len() == 0 {
        ds
    } else {
        let cur = imported_into(ds, imported.drop_last());
        let d = imported.last();
        if has_address(cur, address_of(d)) {
            cur
        } else {
            cur.push(with_status(d, disconnected()))
        }
    }
}

/// The status a device has before adb has reported on it.
pub fn default_status() -> (r: String)
    ensures
        r@ == disconnected(),
{
    owned("disconnected")
}

impl AdbDevice {
    /// `ip:port`, the address adb knows the device by.
    pub fn address(&self) -> (r: String)
        ensures
            r@ == address_of(self@),
    {
        let mut a = self.ip_address.clone();
        push_char(&mut a, ':');
        push_decimal(&mut a, self.port as u64);
        a
    }

    /// A copy of the device.
    pub fn duplicate(&self) -> (r: Self)
        ensures
            r@ == self@,
    {
        AdbDevice {
            id: self.id.clone(),
            name: self.name.clone(),
            ip_address: self.ip_address.clone(),
            port: self.port,
            status: self.status.clone(),
            pinned: self.pinned,
        }
    }

    /// A device added by hand: its id is its address, it is not pinned and is
    /// disconnected.
    pub fn new_manual(ip_address: String, port: u16, name: String) -> (r: Self)
        ensures
            r@ == (DeviceView {
                id: ip_address@ + seq![':'] + text::dec(port as nat),
                name: name@,
                ip_address: ip_address@,
                port: port,
                status: disconnected(),
                pinned: false,
            }),
    {
        let mut id = ip_address.clone();
        push_char(&mut id, ':');
        push_decimal(&mut id, port as u64);
        assert(id@ =~= ip_address@ + seq![':'] + text::dec(port as nat));
        AdbDevice { id, name, ip_address, port, status: default_status(), pinned: false }
    }
}

/// The saved devices and settings.
#[derive(Clone, Debug)]
pub struct Store {
    pub devices: Vec<AdbDevice>,
    pub adb_path: Option<String>,
    pub locale: Option<String>,
    pub scrcpy_bitrate_mbps: Option<u32>,
    pub scrcpy_turn_screen_off: bool,
    pub scrcpy_max_size: Option<u32>,
    pub scrcpy_stay_awake: bool,
    pub scan_port: Option<u16>,
}

/// The model of the store.
#[verifier::ext_equal]
pub struct StoreView {
    pub devices: Seq<DeviceView>,
    pub adb_path: Option<Seq<char>>,
    pub locale: Option<Seq<char>>,
    pub scrcpy_bitrate_mbps: Option<u32>,
    pub scrcpy_turn_screen_off: bool,
    pub scrcpy_max_size: Option<u32>,
    pub scrcpy_stay_awake: bool,
    pub scan_port: Option<u16>,
}

impl View for Store {
    type V = StoreView;

    open spec fn view(&self) -> StoreView {
        StoreView {
            devices: device_views(self.devices@),
            adb_path: text::opt_view(self.adb_path),
            locale: text::opt_view(self.locale),
            scrcpy_bitrate_mbps: self.scrcpy_bitrate_mbps,
            scrcpy_turn_screen_off: self.scrcpy_turn_screen_off,
            scrcpy_max_size: self.scrcpy_max_size,
            scrcpy_stay_awake: self.scrcpy_stay_awake,
            scan_port: self.scan_port,
        }
    }
}

/// `s` with devices `ds`.
pub open spec fn with_devices(s: StoreView, ds: Seq<DeviceView>) -> StoreView {
    StoreView { devices: ds, ..s }
}

impl Default for Store {
    /// No devices and no settings.
    fn default() -> (r: Self)
        ensures
            r@ == (StoreView {
                devices: Seq::empty(),
                adb_path: None,
                locale: None,
                scrcpy_bitrate_mbps: None,
                scrcpy_turn_screen_off: false,
                scrcpy_max_size: None,
                scrcpy_stay_awake: false,
                scan_port: None,
            }),
    {
        let s = Store {
            devices: Vec::new(),
            adb_path: None,
            locale: None,
            scrcpy_bitrate_mbps: None,
            scrcpy_turn_screen_off: false,
            scrcpy_max_size: None,
            scrcpy_stay_awake: false,
            scan_port: None,
        };
        assert(s@.devices =~= Seq::<DeviceView>::empty());
        s
    }
}

/// Whether some device of `devices` has address `addr`.
fn has_address_exec(devices: &Vec<AdbDevice>, addr: &String) -> (r: bool)
    ensures
        r == has_address(device_views(devices@), addr@),
{
    let ghost ds = device_views(devices@);
    let mut i: usize = 0;
    while i < devices.len()
        invariant
            i <= devices@.len(),
            ds == device_views(devices@),
            forall|j: int| 0 <= j < i ==> address_of(#[trigger] ds[j]) != addr@,
        decreases devices@.len() - i,
    {
        let a = devices[i].address();
        if a == *addr {
            assert(address_of(ds[i as int]) == addr@);
            return true;
        }
        i = i + 1;
    }
    false
}

/// The index of the first device with id `id`.
fn index_of_id_exec(devices: &Vec<AdbDevice>, id: &str) -> (r: Option<usize>)
    ensures
        match r {
            Some(k) => index_of_id(device_views(devices@), id@) == Some(k as int),
            None => index_of_id(device_views(devices@), id@) is None,
        },
{
    let ghost ds = device_views(devices@);
    let key = owned(id);
    let mut i: usize = 0;
    while i < devices.len()
        invariant
            i <= devices@.len(),
            ds == device_views(devices@),
            key@ == id@,
            forall|j: int| 0 <= j < i ==> (#[trigger] ds[j]).id != id@,
        decreases devices@.len() - i,
    {
        if devices[i].id == key {
            proof {
                lemma_index_of_id_is(ds, id@, i as int);
            }
            return Some(i);
        }
        i = i + 1;
    }
    proof {
        lemma_index_of_id_none(ds, id@);
    }
    None
}

/// The index found for an id holds that id, and no earlier device does.
pub proof fn lemma_index_of_id(ds: Seq<DeviceView>, id: Seq<char>)
    ensures
        match index_of_id(ds, id) {
            Some(j) => 0 <= j < ds.len() && ds[j].id == id && forall|i: int|
                0 <= i < j ==> ds[i].id != id,
            None => forall|i: int| 0 <= i < ds.len() ==> ds[i].id != id,
        },
    decreases ds.len(),
{
    if ds.len() > 0 {
        lemma_index_of_id(ds.drop_first(), id);
        if ds[0].id != id {
            assert forall|i: int| 0 < i < ds.len() implies ds[i].id == ds.drop_first()[i - 1].id by {}
        }
    }
}

/// The first device with an id is the one found.
pub proof fn lemma_index_of_id_is(ds: Seq<DeviceView>, id: Seq<char>, j: int)
    requires
        0 <= j < ds.len(),
        ds[j].id == id,
        forall|i: int| 0 <= i < j ==> ds[i].id != id,
    ensures
        index_of_id(ds, id) == Some(j),
{
    lemma_index_of_id(ds, id);
    match index_of_id(ds, id) {
        Some(m) => {
            if m < j {
                assert(ds[m].id != id);
            } else if m > j {
                assert(ds[j].id != id);
            }
        },
        None => {
            assert(ds[j].id != id);
        },
    }
}

/// An id held by no device is not found.
pub proof fn lemma_index_of_id_none(ds: Seq<DeviceView>, id: Seq<char>)
    requires
        forall|i: int| 0 <= i < ds.len() ==> ds[i].id != id,
    ensures
        index_of_id(ds, id) is None,
{
    lemma_index_of_id(ds, id);
    if let Some(j) = index_of_id(ds, id) {
        assert(ds[j].id != id);
    }
}

/// Removing an id that no device has changes nothing.
pub proof fn lemma_without_absent_id(ds: Seq<DeviceView>, id: Seq<char>)
    requires
        forall|i: int| 0 <= i < ds.len() ==> ds[i].id != id,
    ensures
        without_id(ds, id) == ds,
    decreases ds.len(),
{
    if ds.len() > 0 {
        lemma_without_absent_id(ds.drop_last(), id);
        assert(ds.drop_last().push(ds.last()) =~= ds);
    }
}

/// Removing an id that some device has shortens the list.
pub proof fn lemma_without_present_id(ds: Seq<DeviceView>, id: Seq<char>)
    ensures
        without_id(ds, id).len() <= ds.len(),
        (exists|i: int| 0 <= i < ds.len() && ds[i].id == id) ==> without_id(ds, id).len()
            < ds.len(),
    decreases ds.len(),
{
    if ds.len() > 0 {
        lemma_without_present_id(ds.drop_last(), id);
        if ds.last().id != id {
            if exists|i: int| 0 <= i < ds.len() && ds[i].id == id {
                let i = choose|i: int| 0 <= i < ds.len() && ds[i].id == id;
                assert(i < ds.len() - 1);
                assert(ds.drop_last()[i].id == id);
            }
        }
    }
}

impl Store {
    /// Adds a device, refused when a saved device has the same address.
    pub fn add(&mut self, device: AdbDevice) -> (r: Result<(), String>)
        ensures
            match r {
                Ok(_) => !has_address(old(self)@.devices, address_of(device@))
                    && final(self)@ == with_devices(
                    old(self)@,
                    old(self)@.devices.push(device@),
                ),
                Err(e) => has_address(old(self)@.devices, address_of(device@)) && final(self)@
                    == old(self)@ && e@ == "Device "@ + address_of(device@) + " already exists"@,
            },
    {
        let addr = device.address();
        if has_address_exec(&self.devices, &addr) {
            let mut e = owned("Device ");
            push_all(&mut e, addr.as_str());
            push_all(&mut e, " already exists");
            return Err(e);
        }
        let ghost d = device@;
        self.devices.push(device);
        assert(self@.devices =~= old(self)@.devices.push(d));
        Ok(())
    }

    /// Removes every device with id `id`; refused when there is none.
    pub fn remove(&mut self, id: &str) -> (r: Result<(), String>)
        ensures
            final(self)@ == with_devices(old(self)@, without_id(old(self)@.devices, id@)),
            match r {
                Ok(_) => exists|i: int|
                    0 <= i < old(self)@.devices.len() && old(self)@.devices[i].id == id@,
                Err(e) => (forall|i: int|
                    0 <= i < old(self)@.devices.len() ==> old(self)@.devices[i].id != id@) && e@
                    == "Device "@ + id@ + " not found"@,
            },
    {
        let ghost ds = old(self)@.devices;
        let key = owned(id);
        let mut kept: Vec<AdbDevice> = Vec::new();
        let mut found = false;
        let mut i: usize = 0;
        while i < self.devices.len()
            invariant
                i <= self.devices@.len(),
                ds == device_views(self.devices@),
                key@ == id@,
                device_views(kept@) == without_id(ds.take(i as int), id@),
                found == exists|j: int| 0 <= j < i && ds[j].id == id@,
            decreases self.devices@.len() - i,
        {
            assert(ds.take(i + 1).drop_last() =~= ds.take(i as int));
            assert(ds.take(i + 1).last() == ds[i as int]);
            if self.devices[i].id == key {
                found = true;
            } else {
                let d = self.devices[i].duplicate();
                let ghost old_kept = kept@;
                kept.push(d);
                assert(device_views(kept@) =~= device_views(old_kept).push(d@));
            }
            i = i + 1;
        }
        assert(ds.take(ds.len() as int) =~= ds);
        proof {
            lemma_without_present_id(ds, id@);
            if !found {
                lemma_without_absent_id(ds, id@);
            }
        }
        self.devices = kept;
        if !found {
            let mut e = owned("Device ");
            push_all(&mut e, id);
            push_all(&mut e, " not found");
            return Err(e);
        }
        Ok(())
    }

    /// Renames the first device with id `id` to the trimmed `new_name`;
    /// refused when the trimmed name is empty or no device has the id.
    pub fn rename(&mut self, id: &str, new_name: &str) -> (r: Result<(), String>)
        ensures
            text::trim(new_name@).len() == 0 ==> r == Err::<(), String>(r->Err_0) && r->Err_0@
                == "Device name cannot be empty"@ && final(self)@ == old(self)@,
            text::trim(new_name@).len() > 0 ==> match index_of_id(old(self)@.devices, id@) {
                Some(k) => r is Ok && final(self)@ == with_devices(
                    old(self)@,
                    old(self)@.devices.update(
                        k,
                        with_name(old(self)@.devices[k], text::trim(new_name@)),
                    ),
                ),
                None => r is Err && r->Err_0@ == "Device "@ + id@ + " not found"@ && final(self)@ == old(self)@,
            },
    {
        let name = trim_str(new_name);
        if name.as_str().is_empty() {
            return Err(owned("Device name cannot be empty"));
        }
        match index_of_id_exec(&self.devices, id) {
            Some(k) => {
                proof {
                    lemma_index_of_id(old(self)@.devices, id@);
                }
                let mut d = self.devices[k].duplicate();
                d.name = name;
                let ghost dv = d@;
                self.devices.set(k, d);
                assert(self@.devices =~= old(self)@.devices.update(k as int, dv));
                Ok(())
            },
            None => {
                let mut e = owned("Device ");
                push_all(&mut e, id);
                push_all(&mut e, " not found");
                Err(e)
            },
        }
    }

    /// Pins or unpins the first device with id `id`; refused when there is none.
    pub fn set_pinned(&mut self, id: &str, pinned: bool) -> (r: Result<(), String>)
        ensures
            match index_of_id(old(self)@.devices, id@) {
                Some(k) => r is Ok && final(self)@ == with_devices(
                    old(self)@,
                    old(self)@.devices.update(k, with_pinned(old(self)@.devices[k], pinned)),
                ),
                None => r is Err && r->Err_0@ == "Device "@ + id@ + " not found"@ && final(self)@ == old(self)@,
            },
    {
        match index_of_id_exec(&self.devices, id) {
            Some(k) => {
                proof {
                    lemma_index_of_id(old(self)@.devices, id@);
                }
                let mut d = self.devices[k].duplicate();
                d.pinned = pinned;
                let ghost dv = d@;
                self.devices.set(k, d);
                assert(self@.devices =~= old(self)@.devices.update(k as int, dv));
                Ok(())
            },
            None => {
                let mut e = owned("Device ");
                push_all(&mut e, id);
                push_all(&mut e, " not found");
                Err(e)
            },
        }
    }

    /// Forgets every device.
    pub fn clear(&mut self)
        ensures
            final(self)@ == with_devices(old(self)@, Seq::empty()),
    {
        self.devices = Vec::new();
        assert(self@.devices =~= Seq::<DeviceView>::empty());
    }

    /// Sets each device's status from what adb reported.
    pub fn update_statuses(&mut self, status_map: &StatusMap)
        ensures
            final(self)@ == with_devices(
                old(self)@,
                statuses_applied(old(self)@.devices, status_map@),
            ),
    {
        let ghost ds = old(self)@.devices;
        let mut i: usize = 0;
        while i < self.devices.len()
            invariant
                i <= self.devices@.len(),
                ds.len() == self.devices@.len(),
                ds == old(self)@.devices,
                self@ == with_devices(old(self)@, self@.devices),
                forall|j: int|
                    0 <= j < i ==> (#[trigger] self@.devices[j]) == statuses_applied(
                        ds,
                        status_map@,
                    )[j],
                forall|j: int| i <= j < ds.len() ==> (#[trigger] self@.devices[j]) == ds[j],
            decreases self.devices@.len() - i,
        {
            assert(self@.devices[i as int] == ds[i as int]);
            assert(self.devices@[i as int]@ == self@.devices[i as int]);
            let addr = self.devices[i].address();
            let st = match status_map.get(addr.as_str()) {
                Some(s) => s.clone(),
                None => default_status(),
            };
            let mut d = self.devices[i].duplicate();
            d.status = st;
            assert(d@ =~= statuses_applied(ds, status_map@)[i as int]);
            let ghost before = self@.devices;
            self.devices.set(i, d);
            assert(self@.devices =~= before.update(i as int, d@));
            i = i + 1;
        }
        assert(self@.devices =~= statuses_applied(ds, status_map@));
    }

    /// Marks every device disconnected (statuses are not kept across restarts).
    pub fn reset_statuses(&mut self)
        ensures
            final(self)@ == with_devices(old(self)@, all_disconnected(old(self)@.devices)),
    {
        let ghost ds = old(self)@.devices;
        let mut i: usize = 0;
        while i < self.devices.len()
            invariant
                i <= self.devices@.len(),
                ds.len() == self.devices@.len(),
                ds == old(self)@.devices,
                self@ == with_devices(old(self)@, self@.devices),
                forall|j: int|
                    0 <= j < i ==> (#[trigger] self@.devices[j]) == all_disconnected(ds)[j],
                forall|j: int| i <= j < ds.len() ==> (#[trigger] self@.devices[j]) == ds[j],
            decreases self.devices@.len() - i,
        {
            assert(self@.devices[i as int] == ds[i as int]);
            assert(self.devices@[i as int]@ == self@.devices[i as int]);
            let mut d = self.devices[i].duplicate();
            d.status = default_status();
            assert(d@ =~= all_disconnected(ds)[i as int]);
            let ghost before = self@.devices;
            self.devices.set(i, d);
            assert(self@.devices =~= before.update(i as int, d@));
            i = i + 1;
        }
        assert(self@.devices =~= all_disconnected(ds));
    }

    /// A copy for export: portable, so without the machine-local adb path and
    /// language, and with every device disconnected.
    pub fn export_snapshot(&self) -> (r: Store)
        ensures
            r@ == (StoreView {
                devices: all_disconnected(self@.devices),
                adb_path: None,
                locale: None,
                ..self@
            }),
    {
        let mut devices: Vec<AdbDevice> = Vec::new();
        let mut i: usize = 0;
        while i < self.devices.len()
            invariant
                i <= self.devices@.len(),
                device_views(devices@) == all_disconnected(self@.devices).take(i as int),
            decreases self.devices@.len() - i,
        {
            let mut d = self.devices[i].duplicate();
            d.status = default_status();
            assert(d@ =~= all_disconnected(self@.devices)[i as int]);
            let ghost old_devices = devices@;
            devices.push(d);
            assert(device_views(devices@) =~= device_views(old_devices).push(d@));
            assert(device_views(devices@) =~= all_disconnected(self@.devices).take(i + 1));
            i = i + 1;
        }
        assert(all_disconnected(self@.devices).take(self@.devices.len() as int) =~= all_disconnected(
            self@.devices,
        ));
        Store {
            devices,
            adb_path: None,
            locale: None,
            scrcpy_bitrate_mbps: self.scrcpy_bitrate_mbps,
            scrcpy_turn_screen_off: self.scrcpy_turn_screen_off,
            scrcpy_max_size: self.scrcpy_max_size,
            scrcpy_stay_awake: self.scrcpy_stay_awake,
            scan_port: self.scan_port,
        }
    }

    /// Imports devices from another store; returns how many were added.
    pub fn import_devices(&mut self, imported: Vec<AdbDevice>) -> (r: usize)
        ensures
            final(self)@ == with_devices(
                old(self)@,
                imported_into(old(self)@.devices, device_views(imported@)),
            ),
            r == final(self)@.devices.len() - old(self)@.devices.len(),
    {
        let ghost ds = old(self)@.devices;
        let ghost imp = device_views(imported@);
        let mut added: usize = 0;
        let mut i: usize = 0;
        while i < imported.len()
            invariant
                i <= imported@.len(),
                imp == device_views(imported@),
                ds == old(self)@.devices,
                self@ == with_devices(old(self)@, imported_into(ds, imp.take(i as int))),
                self@.devices.len() == ds.len() + added,
                added <= i,
            decreases imported@.len() - i,
        {
            assert(imp.take(i + 1).drop_last() =~= imp.take(i as int));
            assert(imp.take(i + 1).last() == imported@[i as int]@);
            let addr = imported[i].address();
            if !has_address_exec(&self.devices, &addr) {
                let mut d = imported[i].duplicate();
                d.status = default_status();
                let ghost before = self@.devices;
                self.devices.push(d);
                assert(self@.devices =~= before.push(d@));
                added = added + 1;
            }
            i = i + 1;
        }
        assert(imp.take(imp.len() as int) =~= imp);
        added
    }

    /// Remembers the adb executable to use.
    pub fn set_adb_path(&mut self, path: String)
        ensures
            final(self)@ == (StoreView { adb_path: Some(path@), ..old(self)@ }),
    {
        self.adb_path = Some(path);
    }

    /// Remembers the UI language; only "en" and "zh" are accepted.
    pub fn set_locale(&mut self, locale: &str) -> (r: Result<(), String>)
        ensures
            match r {
                Ok(_) => (locale@ == "en"@ || locale@ == "zh"@) && final(self)@ == (StoreView {
                    locale: Some(locale@),
                    ..old(self)@
                }),
                Err(e) => !(locale@ == "en"@ || locale@ == "zh"@) && e@ == "Invalid locale"@
                    && final(self)@ == old(self)@,
            },
    {
        if text::str_eq(locale, "en") || text::str_eq(locale, "zh") {
            self.locale = Some(owned(locale));
            Ok(())
        } else {
            Err(owned("Invalid locale"))
        }
    }

    /// Remembers the port to scan the network on; port 0 is refused.
    pub fn set_scan_port(&mut self, port: u16) -> (r: Result<(), String>)
        ensures
            match r {
                Ok(_) => 1 <= port && final(self)@ == (StoreView {
                    scan_port: Some(port),
                    ..old(self)@
                }),
                Err(e) => port == 0 && e@ == "Port must be 1-65535"@ && final(self)@ == old(self)@,
            },
    {
        if !(1 <= port) {
            return Err(owned("Port must be 1-65535"));
        }
        self.scan_port = Some(port);
        Ok(())
    }

    /// Remembers the scrcpy launch options: a bitrate must be 1-1000 Mbps and a
    /// maximum size 100-8192 px.
    pub fn set_scrcpy_options(
        &mut self,
        bitrate_mbps: Option<u32>,
        turn_screen_off: bool,
        max_size: Option<u32>,
        stay_awake: bool,
    ) -> (r: Result<(), String>)
        ensures
            match bitrate_mbps {
                Some(m) if !(1 <= m <= 1000) => r is Err && r->Err_0@
                    == "Bitrate must be 1-1000 Mbps"@ && final(self)@ == old(self)@,
                _ => match max_size {
                    Some(s) if !(100 <= s <= 8192) => r is Err && r->Err_0@
                        == "Max size must be 100-8192 px"@ && final(self)@ == old(self)@,
                    _ => r is Ok && final(self)@ == (StoreView {
                        scrcpy_bitrate_mbps: bitrate_mbps,
                        scrcpy_turn_screen_off: turn_screen_off,
                        scrcpy_max_size: max_size,
                        scrcpy_stay_awake: stay_awake,
                        ..old(self)@
                    }),
                },
            },
    {
        if let Some(mbps) = bitrate_mbps {
            if !(1 <= mbps && mbps <= 1000) {
                return Err(owned("Bitrate must be 1-1000 Mbps"));
            }
        }
        if let Some(size) = max_size {
            if !(100 <= size && size <= 8192) {
                return Err(owned("Max size must be 100-8192 px"));
            }
        }
        self.scrcpy_bitrate_mbps = bitrate_mbps;
        self.scrcpy_turn_screen_off = turn_screen_off;
        self.scrcpy_max_size = max_size;
        self.scrcpy_stay_awake = stay_awake;
        Ok(())
    }

    /// The saved scrcpy options as `(bitrate, turn screen off, max size, stay awake)`.
    pub fn scrcpy_options(&self) -> (r: (Option<u32>, bool, Option<u32>, bool))
        ensures
            r == (
                self.scrcpy_bitrate_mbps,
                self.scrcpy_turn_screen_off,
                self.scrcpy_max_size,
                self.scrcpy_stay_awake,
            ),
    {
        (
            self.scrcpy_bitrate_mbps,
            self.scrcpy_turn_screen_off,
            self.scrcpy_max_size,
            self.scrcpy_stay_awake,
        )
    }

    /// The options scrcpy is launched with.
    pub fn scrcpy_launch_options(&self) -> (r: ScrcpyLaunchOptions)
        ensures
            r == (ScrcpyLaunchOptions {
                bitrate_mbps: self.scrcpy_bitrate_mbps,
                turn_screen_off: self.scrcpy_turn_screen_off,
                max_size: self.scrcpy_max_size,
                stay_awake: self.scrcpy_stay_awake,
            }),
    {
        ScrcpyLaunchOptions {
            bitrate_mbps: self.scrcpy_bitrate_mbps,
            turn_screen_off: self.scrcpy_turn_screen_off,
            max_size: self.scrcpy_max_size,
            stay_awake: self.scrcpy_stay_awake,
        }
    }

    /// The addresses of the saved devices, in order.
    pub fn addresses(&self) -> (r: Vec<String>)
        ensures
            text::sviews(r@) == self@.devices.map_values(|d: DeviceView| address_of(d)),
    {
        let mut out: Vec<String> = Vec::new();
        let mut i: usize = 0;
        while i < self.devices.len()
            invariant
                i <= self.devices@.len(),
                text::sviews(out@) == self@.devices.map_values(|d: DeviceView| address_of(d)).take(
                    i as int,
                ),
            decreases self.devices@.len() - i,
        {
            let a = self.devices[i].address();
            let ghost old_out = out@;
            out.push(a);
            assert(text::sviews(out@) =~= text::sviews(old_out).push(a@));
            assert(text::sviews(out@) =~= self@.devices.map_values(|d: DeviceView| address_of(d)).take(
                i + 1,
            ));
            i = i + 1;
        }
        assert(self@.devices.map_values(|d: DeviceView| address_of(d)).take(
            self@.devices.len() as int,
        ) =~= self@.devices.map_values(|d: DeviceView| address_of(d)));
        out
    }
}

// ---------------------------------------------------------------------------
// Laws
// ---------------------------------------------------------------------------

/// Adding a device whose address is new keeps the saved addresses unique.
pub proof fn law_add_keeps_addresses_unique(ds: Seq<DeviceView>, d: DeviceView)
    requires
        addresses_unique(ds),
        !has_address(ds, address_of(d)),
    ensures
        addresses_unique(ds.push(d)),
{
    let r = ds.push(d);
    assert forall|i: int, j: int| 0 <= i < j < r.len() implies address_of(#[trigger] r[i])
        != address_of(#[trigger] r[j]) by {
        if j == ds.len() {
            assert(r[i] == ds[i]);
        } else {
            assert(r[i] == ds[i] && r[j] == ds[j]);
        }
    }
}

/// Importing keeps what was saved, in front, unchanged.
pub proof fn lemma_import_extends(ds: Seq<DeviceView>, imp: Seq<DeviceView>)
    ensures
        imported_into(ds, imp).len() >= ds.len(),
        imported_into(ds, imp).take(ds.len() as int) == ds,
    decreases imp.len(),
{
    if imp.len() > 0 {
        lemma_import_extends(ds, imp.drop_last());
        let cur = imported_into(ds, imp.drop_last());
        if !has_address(cur, address_of(imp.last())) {
            assert(cur.push(with_status(imp.last(), disconnected())).take(ds.len() as int)
                =~= cur.take(ds.len() as int));
        }
    }
}

/// After an import, every imported address is among the saved ones, and so is
/// every address saved before.
pub proof fn law_import_covers_addresses(ds: Seq<DeviceView>, imp: Seq<DeviceView>)
    ensures
        forall|j: int|
            0 <= j < imp.len() ==> has_address(
                imported_into(ds, imp),
                address_of(#[trigger] imp[j]),
            ),
        forall|a: Seq<char>| has_address(ds, a) ==> has_address(imported_into(ds, imp), a),
    decreases imp.len(),
{
    if imp.len() > 0 {
        let prev = imp.drop_last();
        law_import_covers_addresses(ds, prev);
        let cur = imported_into(ds, prev);
        let r = imported_into(ds, imp);
        let d = imp.last();
        assert forall|a: Seq<char>| has_address(cur, a) implies has_address(r, a) by {
            let i = choose|i: int| 0 <= i < cur.len() && address_of(#[trigger] cur[i]) == a;
            if !has_address(cur, address_of(d)) {
                assert(r[i] == cur[i]);
            }
        }
        assert forall|j: int| 0 <= j < imp.len() implies has_address(
            r,
            address_of(#[trigger] imp[j]),
        ) by {
            if j < imp.len() - 1 {
                assert(imp[j] == prev[j]);
                assert(has_address(cur, address_of(prev[j])));
            } else if !has_address(cur, address_of(d)) {
                let k = cur.len() as int;
                assert(address_of(r[k]) == address_of(d));
            }
        }
    }
}

/// Importing keeps the saved addresses unique.
pub proof fn law_import_keeps_addresses_unique(ds: Seq<DeviceView>, imp: Seq<DeviceView>)
    requires
        addresses_unique(ds),
    ensures
        addresses_unique(imported_into(ds, imp)),
    decreases imp.len(),
{
    if imp.len() > 0 {
        law_import_keeps_addresses_unique(ds, imp.drop_last());
        let cur = imported_into(ds, imp.drop_last());
        let d = imp.last();
        if !has_address(cur, address_of(d)) {
            let nd = with_status(d, disconnected());
            assert(address_of(nd) == address_of(d));
            law_add_keeps_addresses_unique(cur, nd);
        }
    }
}

/// Importing devices whose addresses are all saved already changes nothing.
proof fn lemma_import_known(ds: Seq<DeviceView>, imp: Seq<DeviceView>)
    requires
        forall|j: int| 0 <= j < imp.len() ==> has_address(ds, address_of(#[trigger] imp[j])),
    ensures
        imported_into(ds, imp) == ds,
    decreases imp.len(),
{
    if imp.len() > 0 {
        let prev = imp.drop_last();
        assert forall|j: int| 0 <= j < prev.len() implies has_address(
            ds,
            address_of(#[trigger] prev[j]),
        ) by {
            assert(prev[j] == imp[j]);
        }
        lemma_import_known(ds, prev);
        assert(has_address(ds, address_of(imp[imp.len() - 1])));
    }
}

/// Importing the same devices a second time adds nothing.
pub proof fn law_import_twice_adds_nothing(ds: Seq<DeviceView>, imp: Seq<DeviceView>)
    ensures
        imported_into(imported_into(ds, imp), imp) == imported_into(ds, imp),
{
    law_import_covers_addresses(ds, imp);
    lemma_import_known(imported_into(ds, imp), imp);
}

/// Removing the id of a device just added, when no other device had that id,
/// gives back the devices as they were before.
pub proof fn law_remove_undoes_add(ds: Seq<DeviceView>, d: DeviceView)
    requires
        forall|i: int| 0 <= i < ds.len() ==> ds[i].id != d.id,
    ensures
        without_id(ds.push(d), d.id) == ds,
{
    assert(ds.push(d).drop_last() =~= ds);
    lemma_without_absent_id(ds, d.id);
}

/// After a removal no device has the removed id, and the others keep their order.
pub proof fn law_remove_leaves_no_such_id(ds: Seq<DeviceView>, id: Seq<char>)
    ensures
        forall|i: int| 0 <= i < without_id(ds, id).len() ==> (#[trigger] without_id(ds, id)[i]).id
            != id,
    decreases ds.len(),
{
    if ds.len() > 0 {
        law_remove_leaves_no_such_id(ds.drop_last(), id);
        let r = without_id(ds.drop_last(), id);
        assert forall|i: int| 0 <= i < without_id(ds, id).len() implies (#[trigger] without_id(
            ds,
            id,
        )[i]).id != id by {
            if i < r.len() {
                assert(without_id(ds, id)[i] == r[i]);
            }
        }
    }
}

/// Applying adb's report changes only statuses: every device keeps its id,
/// name, address and pin, and the list keeps its order.
pub proof fn law_statuses_change_only_status(ds: Seq<DeviceView>, statuses: Seq<maps::Entry>)
    ensures
        statuses_applied(ds, statuses).len() == ds.len(),
        forall|i: int|
            0 <= i < ds.len() ==> with_status(
                #[trigger] statuses_applied(ds, statuses)[i],
                ds[i].status,
            ) == ds[i],
{
    assert forall|i: int| 0 <= i < ds.len() implies with_status(
        #[trigger] statuses_applied(ds, statuses)[i],
        ds[i].status,
    ) == ds[i] by {
        assert(with_status(statuses_applied(ds, statuses)[i], ds[i].status) =~= ds[i]);
    }
}

/// An export read back into an empty list gives the exported devices, all
/// disconnected, when their addresses were distinct (as `add` keeps them).
pub proof fn law_import_of_export(ds: Seq<DeviceView>)
    requires
        addresses_unique(ds),
    ensures
        imported_into(Seq::empty(), all_disconnected(ds)) == all_disconnected(ds),
    decreases ds.len(),
{
    if ds.len() > 0 {
        let t = ds.drop_last();
        let x = ds.last();
        assert(addresses_unique(t)) by {
            assert forall|i: int, j: int| 0 <= i < j < t.len() implies address_of(
                #[trigger] t[i],
            ) != address_of(#[trigger] t[j]) by {
                assert(t[i] == ds[i] && t[j] == ds[j]);
            }
        }
        law_import_of_export(t);
        let e = all_disconnected(ds);
        assert(e.drop_last() =~= all_disconnected(t));
        assert(e.last() == with_status(x, disconnected()));
        let cur = all_disconnected(t);
        assert(!has_address(cur, address_of(e.last()))) by {
            if has_address(cur, address_of(e.last())) {
                let k = choose|k: int| 0 <= k < cur.len() && address_of(#[trigger] cur[k]) == address_of(
                    e.last(),
                );
                assert(address_of(cur[k]) == address_of(ds[k]));
                assert(address_of(ds[k]) != address_of(ds[ds.len() - 1]));
            }
        }
        assert(with_status(e.last(), disconnected()) == e.last());
        assert(cur.push(e.last()) =~= e);
    } else {
        assert(all_disconnected(ds) =~= Seq::<DeviceView>::empty());
    }
}

/// After adb's report, a device takes the status of the (first) entry the
/// report has for its address `ip:port`, whatever that status is; a device
/// the report does not list becomes "disconnected". Nothing else changes.
pub proof fn law_statuses_follow_report(ds: Seq<DeviceView>, statuses: Seq<maps::Entry>)
    ensures
        statuses_applied(ds, statuses).len() == ds.len(),
        forall|i: int, j: int|
            0 <= i < ds.len() && 0 <= j < statuses.len() && statuses[j].0 == ds[i].ip_address
                + seq![':'] + text::dec(ds[i].port as nat) && (forall|k: int|
                0 <= k < j ==> statuses[k].0 != statuses[j].0) ==> (#[trigger] statuses_applied(
                ds,
                statuses,
            )[i]).status == (#[trigger] statuses[j]).1,
        forall|i: int|
            0 <= i < ds.len() && (forall|k: int|
                0 <= k < statuses.len() ==> statuses[k].0 != ds[i].ip_address + seq![':']
                    + text::dec(ds[i].port as nat)) ==> (#[trigger] statuses_applied(
                ds,
                statuses,
            )[i]).status == "disconnected"@,
        forall|i: int|
            0 <= i < ds.len() ==> {
                let r = #[trigger] statuses_applied(ds, statuses)[i];
                &&& r.id == ds[i].id
                &&& r.name == ds[i].name
                &&& r.ip_address == ds[i].ip_address
                &&& r.port == ds[i].port
                &&& r.pinned == ds[i].pinned
            },
{
    assert forall|i: int, j: int|
        0 <= i < ds.len() && 0 <= j < statuses.len() && statuses[j].0 == ds[i].ip_address + seq![
            ':',
        ] + text::dec(ds[i].port as nat) && (forall|k: int|
            0 <= k < j ==> statuses[k].0 != statuses[j].0) implies (#[trigger] statuses_applied(
        ds,
        statuses,
    )[i]).status == (#[trigger] statuses[j]).1 by {
        maps::lemma_index_of_key_is(statuses, statuses[j].0, j);
    }
    assert forall|i: int|
        0 <= i < ds.len() && (forall|k: int|
            0 <= k < statuses.len() ==> statuses[k].0 != ds[i].ip_address + seq![':'] + text::dec(
                ds[i].port as nat,
            )) implies (#[trigger] statuses_applied(ds, statuses)[i]).status == "disconnected"@ by {
        maps::lemma_index_of_key_none(statuses, address_of(ds[i]));
    }
}

/// Removing an id keeps exactly the devices whose id differs, in their order.
pub proof fn law_remove_keeps_the_others(ds: Seq<DeviceView>, id: Seq<char>)
    ensures
        without_id(ds, id) == ds.filter(|d: DeviceView| d.id != id),
    decreases ds.len(),
{
    reveal(Seq::filter);
    if ds.len() > 0 {
        law_remove_keeps_the_others(ds.drop_last(), id);
    }
}

} // verus!
