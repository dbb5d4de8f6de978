//! What input and output devices have in common: how one is chosen, and what can go wrong.

use vstd::prelude::*;
use vstd::string::StringExecFns;

verus! {

/// Why an audio device cannot be used, or can be used no longer.
#[derive(Debug, Clone)]
pub enum AudioError {
    /// No device has this name.
    DeviceNotFound(String),
    /// The device has stopped to deliver samples.
    InputDropped,
    /// The device has stopped to take samples.
    OutputDropped,
    /// The device has samples of a format that is not supported.
    UnsupportedFormat,
}

/// The formats in which a device has its samples.
#[derive(Debug, Clone, Copy, PartialEq, Eq, Structural)]
pub enum SampleFormat {
    /// 32-bit floating-point numbers.
    F32,
    /// 16-bit integers.
    I16,
    /// Any other format.
    Other,
}

impl AudioError {
    /// The error in words.
    pub open spec fn words(self) -> Seq<char> {
        match self {
            AudioError::DeviceNotFound(device) => "Device "@ + device@ + " not found"@,
            AudioError::InputDropped => "Input ring buffer producer dropped."@,
            AudioError::OutputDropped => "Output ring buffer producer dropped."@,
            AudioError::UnsupportedFormat => "Unsupported sample format"@,
        }
    }

    /// The error in words.
    pub fn message(&self) -> (message: String)
        ensures
            message@ == self.words(),
            match self {
                AudioError::DeviceNotFound(device) => message@ == "Device "@ + device@
                    + " not found"@,
                AudioError::InputDropped => message@ == "Input ring buffer producer dropped."@,
                AudioError::OutputDropped => message@ == "Output ring buffer producer dropped."@,
                AudioError::UnsupportedFormat => message@ == "Unsupported sample format"@,
            },
    {
        match self {
            AudioError::DeviceNotFound(device) => {
                let mut message = "Device ".to_owned();
                message.append(device.as_str());
                message.append(" not found");
                message
            },
            AudioError::InputDropped => "Input ring buffer producer dropped.".to_owned(),
            AudioError::OutputDropped => "Output ring buffer producer dropped.".to_owned(),
            AudioError::UnsupportedFormat => "Unsupported sample format".to_owned(),
        }
    }
}

/// The name that a device goes by: one that has none goes by the empty name.
pub open spec fn device_name(name: Option<String>) -> Seq<char> {
    match name {
        Some(name) => name@,
        None => Seq::empty(),
    }
}

/// Whether the device at an index is the first that goes by a name.
pub open spec fn is_first_named(names: Seq<Option<String>>, wanted: Seq<char>, index: int) -> bool {
    &&& 0 <= index < names.len()
    &&& device_name(names[index]) == wanted
    &&& forall|i: int| 0 <= i < index ==> device_name(#[trigger] names[i]) != wanted
}

/// Whether a device goes by a name.
pub open spec fn has_named(names: Seq<Option<String>>, wanted: Seq<char>) -> bool {
    exists|i: int| 0 <= i < names.len() && device_name(#[trigger] names[i]) == wanted
}

/// The first device that goes by a name.
pub fn find_device(names: &Vec<Option<String>>, wanted: &String) -> (index: Result<
    usize,
    AudioError,
>)
    ensures
        has_named(names@, wanted@) ==> index is Ok && is_first_named(
            names@,
            wanted@,
            index->Ok_0 as int,
        ),
        !has_named(names@, wanted@) ==> index == Err::<usize, AudioError>(
            AudioError::DeviceNotFound(*wanted),
        ),
{
    let nameless = String::new();
    let mut i: usize = 0;
    while i < names.len()
        invariant
            i <= names@.len(),
            nameless@ == Seq::<char>::empty(),
            forall|j: int| 0 <= j < i ==> device_name(#[trigger] names@[j]) != wanted@,
        decreases names@.len() - i,
    {
        let named: bool = match &names[i] {
            Some(name) => *name == *wanted,
            None => nameless == *wanted,
        };
        if named {
            assert(device_name(names@[i as int]) == wanted@);
            return Ok(i);
        }
        i += 1;
    }
    Err(AudioError::DeviceNotFound(wanted.clone()))
}

/// A device is chosen by its whole name, one without a name by the empty one, and the first of those
/// of one name is: none before it has that name. Where no device has the name none is chosen.
pub proof fn law_first_of_the_name(names: Seq<Option<String>>, wanted: Seq<char>, index: int)
    ensures
        is_first_named(names, wanted, index) <==> {
            &&& 0 <= index < names.len()
            &&& match names[index] {
                Some(name) => name@ == wanted,
                None => wanted.len() == 0,
            }
            &&& forall|i: int|
                0 <= i < index ==> match #[trigger] names[i] {
                    Some(name) => name@ != wanted,
                    None => wanted.len() > 0,
                }
        },
        !has_named(names, wanted) <==> forall|i: int|
            0 <= i < names.len() ==> match #[trigger] names[i] {
                Some(name) => name@ != wanted,
                None => wanted.len() > 0,
            },
{
    assert forall|name: Option<String>| #[trigger] device_name(name) == wanted <==> match name {
        Some(name) => name@ == wanted,
        None => wanted.len() == 0,
    } by {
        if wanted.len() == 0 {
            assert(wanted =~= Seq::<char>::empty());
        }
    }
}

} // verus!
