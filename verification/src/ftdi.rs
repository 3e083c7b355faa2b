//! The adapter surface: plain descriptions of which USB adapter to open
//! and how to configure it.  The transport layer resolves a `Device`
//! description to a live handle and performs all I/O; this module only
//! carries the values the transport needs, so the workflow can be
//! verified without touching the adapter library.

use vstd::prelude::*;

verus! {

/// The adapter channel to claim.
#[derive(Clone, Copy, PartialEq, Eq, Structural, Debug)]
pub enum Interface {
    Any,
    A,
    B,
    C,
    D,
}

/// The adapter's hardware flow-control setting; informational for
/// bit-bang mode.
#[derive(Clone, Copy, PartialEq, Eq, Structural, Debug)]
pub enum FlowControl {
    Disabled,
    RtsCts,
    DtrDsr,
}

/// The adapter's pin mode.  Bit-banging uses `Bitbang`, where a direction
/// byte selects which pins are driven and which are read.
#[derive(Clone, Copy, PartialEq, Eq, Structural, Debug)]
pub enum BitMode {
    Reset,
    Bitbang,
    Mpsse,
    SyncBB,
    Mcu,
    Opto,
    Cbus,
    SyncFF,
    FT1284,
}

/// Identifies the adapter to open: the transport layer opens the
/// `index`-th device that matches the vendor and product id and, where
/// given, the description and serial strings.
pub struct Device {
    pub interface: Interface,
    pub vendor_id: u16,
    pub product_id: u16,
    pub description: Option<String>,
    pub serial: Option<String>,
    pub index: u32,
}

impl Device {
    /// Describes the first device with the given vendor and product ids.
    pub fn from_vid_pid(interface: Interface, vid: u16, pid: u16) -> (d: Device)
        ensures
            d.interface == interface,
            d.vendor_id == vid,
            d.product_id == pid,
            d.description is None,
            d.serial is None,
            d.index == 0,
    {
        Device::from_description_serial(interface, vid, pid, None, None)
    }

    /// Describes the first device with the given vendor id, product id,
    /// description and serial.
    pub fn from_description_serial(
        interface: Interface,
        vid: u16,
        pid: u16,
        description: Option<String>,
        serial: Option<String>,
    ) -> (d: Device)
        ensures
            d.interface == interface,
            d.vendor_id == vid,
            d.product_id == pid,
            d.description == description,
            d.serial == serial,
            d.index == 0,
    {
        Device { interface, vendor_id: vid, product_id: pid, description, serial, index: 0 }
    }
}

/// The identification strings a connected adapter reports.
#[derive(Debug, Clone)]
pub struct DeviceInfo {
    pub manufacturer: String,
    pub description: String,
    pub serial: String,
}

} // verus!
