//! Devices by id, with their status, and what talking to one yields.

use crate::ordered_map::StringMap;
use crate::text::{join3, join4};
use vstd::prelude::*;

verus! {

/// Whether a device can be talked to, and if not, why.
#[derive(Debug, PartialEq, Eq)]
pub enum DeviceStatus {
    Online,
    Offline,
    Error(String),
}

/// What a status is, mathematically.
pub ghost enum DeviceStatusView {
    Online,
    Offline,
    Error(Seq<char>),
}

impl View for DeviceStatus {
    type V = DeviceStatusView;

    open spec fn view(&self) -> DeviceStatusView {
        match self {
            DeviceStatus::Online => DeviceStatusView::Online,
            DeviceStatus::Offline => DeviceStatusView::Offline,
            DeviceStatus::Error(reason) => DeviceStatusView::Error(reason@),
        }
    }
}

/// A registered device.
#[derive(Debug)]
pub struct Device {
    pub id: String,
    pub name: String,
    pub status: DeviceStatus,
}

/// What a device is, mathematically.
pub ghost struct DeviceView {
    pub id: Seq<char>,
    pub name: Seq<char>,
    pub status: DeviceStatusView,
}

impl View for Device {
    type V = DeviceView;

    open spec fn view(&self) -> DeviceView {
        DeviceView { id: self.id@, name: self.name@, status: self.status@ }
    }
}

/// What a device answers to a message: an acknowledgement if it is online,
/// an explanation if it is not.
pub open spec fn reply_of(device: DeviceView, message: Seq<char>) -> Result<Seq<char>, Seq<char>> {
    match device.status {
        DeviceStatusView::Online => Ok("Message sent to "@ + device.name + ": "@ + message),
        DeviceStatusView::Offline => Err("Device "@ + device.name + " is offline."@),
        DeviceStatusView::Error(reason) => Err(
            "Device "@ + device.name + " encountered an error: "@ + reason,
        ),
    }
}

/// What a `Result` of strings says, mathematically.
pub open spec fn reply_view(r: Result<String, String>) -> Result<Seq<char>, Seq<char>> {
    match r {
        Ok(s) => Ok(s@),
        Err(e) => Err(e@),
    }
}

fn copy_of_status(status: &DeviceStatus) -> (c: DeviceStatus)
    ensures
        c@ == status@,
{
    match status {
        DeviceStatus::Online => DeviceStatus::Online,
        DeviceStatus::Offline => DeviceStatus::Offline,
        DeviceStatus::Error(reason) => DeviceStatus::Error(reason.clone()),
    }
}

fn copy_of(device: &Device) -> (c: Device)
    ensures
        c@ == device@,
{
    Device {
        id: device.id.clone(),
        name: device.name.clone(),
        status: copy_of_status(&device.status),
    }
}

/// The registry of devices.
pub struct DeviceManager {
    devices: StringMap<Device>,
}

impl DeviceManager {
    /// The devices by their ids.
    pub closed spec fn devices(&self) -> Map<Seq<char>, DeviceView> {
        Map::new(
            |id: Seq<char>| self.devices@.contains_key(id),
            |id: Seq<char>| self.devices@[id]@,
        )
    }

    /// The ids of the devices, in the order in which they were first added.
    pub closed spec fn device_ids(&self) -> Seq<Seq<char>> {
        self.devices.keys()
    }

    /// The invariant: each id is listed once.
    pub closed spec fn wf(&self) -> bool {
        self.devices.wf()
    }

    /// The listed ids are exactly the ids of the devices, each once.
    pub proof fn lemma_device_ids(&self)
        requires
            self.wf(),
        ensures
            self.device_ids().no_duplicates(),
            forall|id: Seq<char>| self.devices().contains_key(id) <==> self.device_ids().contains(id),
    {
    }

    /// A registry with no devices.
    pub fn new() -> (m: Self)
        ensures
            m.wf(),
            m.devices() == Map::<Seq<char>, DeviceView>::empty(),
            m.device_ids() == Seq::<Seq<char>>::empty(),
    {
        let m = DeviceManager { devices: StringMap::new() };
        assert(m.devices() =~= Map::<Seq<char>, DeviceView>::empty());
        m
    }

    /// Registers a device, offline, under `id`: in place of the device that
    /// had the id before, if there was one, and last in the list otherwise.
    pub fn add_device(&mut self, id: String, name: String)
        requires
            old(self).wf(),
        ensures
            final(self).wf(),
            final(self).devices() == old(self).devices().insert(
                id@,
                DeviceView { id: id@, name: name@, status: DeviceStatusView::Offline },
            ),
            old(self).devices().contains_key(id@) ==> final(self).device_ids() == old(
                self,
            ).device_ids(),
            !old(self).devices().contains_key(id@) ==> final(self).device_ids() == old(
                self,
            ).device_ids().push(id@),
    {
        let device = Device { id: id.clone(), name, status: DeviceStatus::Offline };
        self.devices.insert(id, device);
        proof {
            assert(self.devices() =~= old(self).devices().insert(
                id@,
                DeviceView { id: id@, name: name@, status: DeviceStatusView::Offline },
            ));
        }
    }

    /// Takes the device with this id off the registry, if there is one.
    pub fn remove_device(&mut self, id: &str)
        requires
            old(self).wf(),
        ensures
            final(self).wf(),
            final(self).devices() == old(self).devices().remove(id@),
            old(self).devices().contains_key(id@) ==> final(self).device_ids() == old(
                self,
            ).device_ids().remove(old(self).device_ids().index_of(id@)),
            !old(self).devices().contains_key(id@) ==> final(self).device_ids() == old(
                self,
            ).device_ids(),
    {
        let key = id.to_string();
        self.devices.remove(&key);
        proof {
            assert(self.devices() =~= old(self).devices().remove(id@));
        }
    }

    /// Sets the status of the device with this id, if there is one.
    pub fn update_device_status(&mut self, id: &str, status: DeviceStatus)
        requires
            old(self).wf(),
        ensures
            final(self).wf(),
            final(self).device_ids() == old(self).device_ids(),
            !old(self).devices().contains_key(id@) ==> final(self).devices() == old(
                self,
            ).devices(),
            old(self).devices().contains_key(id@) ==> final(self).devices() == old(
                self,
            ).devices().insert(
                id@,
                DeviceView { status: status@, ..old(self).devices()[id@] },
            ),
    {
        let key = id.to_string();
        match self.devices.position(&key) {
            Some(i) => {
                proof {
                    self.devices.lemma_view_at(i as int);
                }
                let device = self.devices.value_at_mut(i);
                device.status = status;
                proof {
                    assert(self.devices() =~= old(self).devices().insert(
                        id@,
                        DeviceView { status: status@, ..old(self).devices()[id@] },
                    ));
                }
            },
            None => {},
        }
    }

    /// A copy of the device with this id, if there is one.
    pub fn get_device(&self, id: &str) -> (r: Option<Device>)
        requires
            self.wf(),
        ensures
            match r {
                Some(d) => self.devices().contains_key(id@) && d@ == self.devices()[id@],
                None => !self.devices().contains_key(id@),
            },
    {
        let key = id.to_string();
        match self.devices.get(&key) {
            Some(d) => Some(copy_of(d)),
            None => None,
        }
    }

    /// Copies of all devices, in the order in which they were first added.
    pub fn list_devices(&self) -> (list: Vec<Device>)
        requires
            self.wf(),
        ensures
            list@.len() == self.device_ids().len(),
            forall|i: int|
                0 <= i < list@.len() ==> self.devices().contains_key(self.device_ids()[i]) && (
                #[trigger] list@[i])@ == self.devices()[self.device_ids()[i]],
    {
        let n = self.devices.len();
        let mut list: Vec<Device> = Vec::new();
        let mut i: usize = 0;
        while i < n
            invariant
                self.devices.wf(),
                n == self.devices.keys().len(),
                i <= n,
                list@.len() == i,
                forall|k: int|
                    0 <= k < i ==> self.devices@.contains_key(self.devices.keys()[k]) && (
                    #[trigger] list@[k])@ == self.devices@[self.devices.keys()[k]]@,
            decreases n - i,
        {
            proof {
                self.devices.lemma_view_at(i as int);
            }
            list.push(copy_of(self.devices.value_at(i)));
            i += 1;
        }
        list
    }

    /// Sends `message` to the device with this id and returns its answer:
    /// an acknowledgement from a device that is online, an error from one
    /// that is offline or faulty, and from one that is not registered.
    pub fn communicate_with_device(&self, id: &str, message: &str) -> (r: Result<String, String>)
        requires
            self.wf(),
        ensures
            !self.devices().contains_key(id@) ==> reply_view(r) == Err::<Seq<char>, Seq<char>>(
                "Device not found."@,
            ),
            self.devices().contains_key(id@) ==> reply_view(r) == reply_of(
                self.devices()[id@],
                message@,
            ),
    {
        let key = id.to_string();
        match self.devices.get(&key) {
            Some(device) => {
                match &device.status {
                    DeviceStatus::Online => Ok(
                        join4("Message sent to ", device.name.as_str(), ": ", message),
                    ),
                    DeviceStatus::Offline => Err(
                        join3("Device ", device.name.as_str(), " is offline."),
                    ),
                    DeviceStatus::Error(reason) => Err(
                        join4(
                            "Device ",
                            device.name.as_str(),
                            " encountered an error: ",
                            reason.as_str(),
                        ),
                    ),
                }
            },
            None => Err("Device not found.".to_string()),
        }
    }
}

} // verus!
