//! Audio devices as the platform enumerates them, and the choice among them.

use vstd::prelude::*;

verus! {

/// Handle for the platform's audio device layer.
#[derive(Debug, PartialEq, Eq)]
pub struct DeviceManager {}

impl DeviceManager {
    pub fn new() -> (manager: DeviceManager)
        ensures
            manager == (DeviceManager {}),
    {
        DeviceManager {}
    }
}

/// Why a device cannot be captured from.
#[derive(Clone, Copy, Debug, PartialEq, Eq, Structural)]
pub enum DeviceError {
    /// No enumerated device carries the requested id.
    NotFound,
    /// The device offers neither an input nor an output configuration.
    Unsupported,
    /// The device delivers samples in a format the pipeline cannot take.
    UnsupportedSampleFormat,
}

/// An audio device: its platform-scoped id and its name.
#[derive(Debug, PartialEq, Eq)]
pub struct AudioDevice {
    pub name: String,
    pub id: String,
}

impl Clone for AudioDevice {
    fn clone(&self) -> (copy: Self)
        ensures
            copy == *self,
    {
        AudioDevice { name: self.name.clone(), id: self.id.clone() }
    }
}

impl Default for AudioDevice {
    fn default() -> (device: Self)
        ensures
            device.name@ == "default"@,
            device.id@ == Seq::<char>::empty(),
    {
        AudioDevice { name: "default".to_owned(), id: String::new() }
    }
}

/// An audio format descriptor.
#[derive(Debug, PartialEq, Eq)]
pub struct AudioFormat {
    pub name: String,
    pub id: String,
}

impl Clone for AudioFormat {
    fn clone(&self) -> (copy: Self)
        ensures
            copy == *self,
    {
        AudioFormat { name: self.name.clone(), id: self.id.clone() }
    }
}

impl Default for AudioFormat {
    fn default() -> (format: Self)
        ensures
            format.name@ == Seq::<char>::empty(),
            format.id@ == Seq::<char>::empty(),
    {
        AudioFormat { name: String::new(), id: String::new() }
    }
}

/// What the platform told about one device while enumerating: its id and its
/// name, each `None` where the platform failed to tell.
#[derive(Debug, PartialEq, Eq)]
pub struct DeviceEntry {
    pub id: Option<String>,
    pub name: Option<String>,
}

/// The device an entry stands for, if the platform told both id and name.
pub open spec fn device_of(entry: DeviceEntry) -> Option<AudioDevice> {
    match (entry.id, entry.name) {
        (Some(id), Some(name)) => Some(AudioDevice { name, id }),
        _ => None,
    }
}

/// The devices of an enumeration, in its order: every entry of which the
/// platform told both id and name.
pub open spec fn listed(entries: Seq<DeviceEntry>) -> Seq<AudioDevice>
    decreases entries.len(),
{
    if entries.len() == 0 {
        Seq::empty()
    } else {
        match device_of(entries.last()) {
            Some(device) => listed(entries.drop_last()).push(device),
            None => listed(entries.drop_last()),
        }
    }
}

/// The entry carries the id `id`.
pub open spec fn has_id(entry: DeviceEntry, id: Seq<char>) -> bool {
    entry.id matches Some(own) && own@ == id
}

/// The devices of an enumeration.  Entries without an id or without a name
/// are left out.
pub fn get_devices_with_host(entries: &Vec<DeviceEntry>) -> (devices: Vec<AudioDevice>)
    ensures
        devices@ == listed(entries@),
{
    let mut devices: Vec<AudioDevice> = Vec::new();
    let mut i: usize = 0;
    assert(entries@.subrange(0, 0) =~= Seq::empty());
    while i < entries.len()
        invariant
            i <= entries.len(),
            devices@ == listed(entries@.subrange(0, i as int)),
        decreases entries.len() - i,
    {
        let entry = &entries[i];
        assert(entries@.subrange(0, i + 1).drop_last() =~= entries@.subrange(0, i as int));
        assert(entries@.subrange(0, i + 1).last() == entries@[i as int]);
        match (&entry.id, &entry.name) {
            (Some(id), Some(name)) => {
                devices.push(AudioDevice { name: name.clone(), id: id.clone() });
            },
            _ => {},
        }
        i += 1;
    }
    assert(entries@.subrange(0, entries.len() as int) =~= entries@);
    devices
}

/// The position of the first entry that carries the id `id`, or
/// [`DeviceError::NotFound`] if none does.
pub fn get_raw_device_with_host(id: &String, entries: &Vec<DeviceEntry>) -> (found: Result<
    usize,
    DeviceError,
>)
    ensures
        match found {
            Ok(at) => {
                &&& at < entries.len()
                &&& has_id(entries[at as int], id@)
                &&& forall|j: int| 0 <= j < at ==> !has_id(#[trigger] entries[j], id@)
            },
            Err(error) => {
                &&& error == DeviceError::NotFound
                &&& forall|j: int| 0 <= j < entries.len() ==> !has_id(#[trigger] entries[j], id@)
            },
        },
{
    let mut i: usize = 0;
    while i < entries.len()
        invariant
            i <= entries.len(),
            forall|j: int| 0 <= j < i ==> !has_id(#[trigger] entries[j], id@),
        decreases entries.len() - i,
    {
        match &entries[i].id {
            Some(own) => {
                if *own == *id {
                    return Ok(i);
                }
            },
            None => {},
        }
        i += 1;
    }
    Err(DeviceError::NotFound)
}

/// Where capture takes its audio from.
#[derive(Clone, Copy, Debug, PartialEq, Eq, Structural)]
pub enum CaptureSource {
    /// The enumerated device at this position.
    Selected(usize),
    /// The platform's default input device.
    DefaultInput,
    /// The platform's default output device, taken as a capture source.
    DefaultOutput,
}

/// `at` is the position of the first entry that carries the id `id`.
pub open spec fn first_with_id(entries: Seq<DeviceEntry>, id: Seq<char>, at: int) -> bool {
    &&& 0 <= at < entries.len()
    &&& has_id(entries[at], id)
    &&& forall|j: int| 0 <= j < at ==> !has_id(#[trigger] entries[j], id)
}

/// No entry carries the id `id`.
pub open spec fn none_with_id(entries: Seq<DeviceEntry>, id: Seq<char>) -> bool {
    forall|j: int| 0 <= j < entries.len() ==> !has_id(#[trigger] entries[j], id)
}

/// The id that a configured device asks for: its id, or `None` if the id is
/// empty, which stands for no device in particular.
pub fn requested_device(device: &AudioDevice) -> (id: Option<&String>)
    ensures
        device.id@.len() == 0 ==> id is None,
        device.id@.len() != 0 ==> id == Some(&device.id),
{
    if device.id == String::new() {
        None
    } else {
        assert(device.id@.len() != 0) by {
            if device.id@.len() == 0 {
                assert(device.id@ =~= Seq::<char>::empty());
            }
        }
        Some(&device.id)
    }
}

/// Chooses where capture takes its audio from.  A selected device is looked
/// up among the enumerated ones by its id, and it is an error if none carries
/// it.  With no device selected the platform's default input is taken, and
/// where the platform has none, its default output.
pub fn capture_source(
    selected: Option<&String>,
    entries: &Vec<DeviceEntry>,
    has_default_input: bool,
) -> (source: Result<CaptureSource, DeviceError>)
    ensures
        match selected {
            Some(id) => match source {
                Ok(chosen) => chosen matches CaptureSource::Selected(at) && first_with_id(
                    entries@,
                    id@,
                    at as int,
                ),
                Err(error) => error == DeviceError::NotFound && none_with_id(entries@, id@),
            },
            None => source == Ok::<CaptureSource, DeviceError>(
                if has_default_input {
                    CaptureSource::DefaultInput
                } else {
                    CaptureSource::DefaultOutput
                },
            ),
        },
{
    match selected {
        Some(id) => match get_raw_device_with_host(id, entries) {
            Ok(at) => Ok(CaptureSource::Selected(at)),
            Err(error) => Err(error),
        },
        None => if has_default_input {
            Ok(CaptureSource::DefaultInput)
        } else {
            Ok(CaptureSource::DefaultOutput)
        },
    }
}

} // verus!
