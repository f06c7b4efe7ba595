//! Input device payloads.

use crate::models::device::InputDevice;
use crate::util::text::str_equal;
use vstd::prelude::*;

verus! {

#[derive(Debug)]
pub struct DeviceDto {
    pub id: String,
    pub name: String,
    pub is_default: bool,
    pub is_selected: bool,
    pub available: bool,
    pub channels: u16,
    pub sample_rate: u32,
}

impl DeviceDto {
    /// A device as the page lists it, marked selected when its id is the one chosen.
    pub fn from_model(device: InputDevice, selected_id: Option<&str>) -> (dto: Self)
        ensures
            dto.is_selected == (selected_id matches Some(chosen) && chosen@ == device.id@),
            dto.id == device.id,
            dto.name == device.name,
            dto.is_default == device.is_default,
            dto.available == device.available,
            dto.channels == device.channels,
            dto.sample_rate == device.sample_rate,
    {
        let is_selected = match selected_id {
            Some(chosen) => str_equal(chosen, device.id.as_str()),
            None => false,
        };
        DeviceDto {
            is_selected,
            id: device.id,
            name: device.name,
            is_default: device.is_default,
            available: device.available,
            channels: device.channels,
            sample_rate: device.sample_rate,
        }
    }
}

#[derive(Debug)]
pub struct DeviceListResponse {
    pub devices: Vec<DeviceDto>,
}

#[derive(Debug)]
pub struct SelectDeviceRequest {
    /// `None` returns to the system default input.
    pub device_id: Option<String>,
}

} // verus!
