//! An audio input the host machine exposes.

use crate::util::text::{chars_of, string_from_chars};
use vstd::prelude::*;

verus! {

/// The audio host identifies devices by name only, and that name is the only handle that survives a
/// process restart on all three platforms, so it doubles as the persisted id.
#[derive(Debug, Clone)]
pub struct InputDevice {
    pub id: String,
    pub name: String,
    pub is_default: bool,
    /// False when the device is remembered in settings but is not plugged in right now.
    pub available: bool,
    pub channels: u16,
    pub sample_rate: u32,
}

/// A device as values.
pub struct DeviceView {
    pub id: Seq<char>,
    pub name: Seq<char>,
    pub is_default: bool,
    pub available: bool,
    pub channels: u16,
    pub sample_rate: u32,
}

impl View for InputDevice {
    type V = DeviceView;

    open spec fn view(&self) -> DeviceView {
        DeviceView {
            id: self.id@,
            name: self.name@,
            is_default: self.is_default,
            available: self.available,
            channels: self.channels,
            sample_rate: self.sample_rate,
        }
    }
}

/// The entry for a configured device that is not plugged in: named by its id, offering nothing.
pub open spec fn unavailable_device(id: Seq<char>) -> DeviceView {
    DeviceView { id, name: id, is_default: false, available: false, channels: 0, sample_rate: 0 }
}

impl InputDevice {
    /// Placeholder entry for a configured device that is currently missing, so the UI can explain why
    /// capture will not start instead of silently selecting something else.
    pub fn unavailable(device_id: &str) -> (device: Self)
        ensures
            device@ == unavailable_device(device_id@),
    {
        let chars = chars_of(device_id);
        let id = string_from_chars(chars.as_slice());
        let name = string_from_chars(chars.as_slice());
        InputDevice { id, name, is_default: false, available: false, channels: 0, sample_rate: 0 }
    }

    /// The device capture actually opened, as the host names it: its name doubles as its id, it counts
    /// as the default when no particular device was asked for, and it offers the channel count and rate
    /// of its default input configuration.
    pub fn resolved(name: &str, preferred_given: bool, channels: u16, sample_rate: u32) -> (device: Self)
        ensures
            device@ == (DeviceView {
                id: name@,
                name: name@,
                is_default: !preferred_given,
                available: true,
                channels,
                sample_rate,
            }),
    {
        let chars = chars_of(name);
        let id = string_from_chars(chars.as_slice());
        let name = string_from_chars(chars.as_slice());
        InputDevice { id, name, is_default: !preferred_given, available: true, channels, sample_rate }
    }
}

} // verus!
