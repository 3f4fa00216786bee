//! GATT characteristics as the session layer records them.

use vstd::prelude::*;

verus! {

/// Property bit: the characteristic's value can be read.
pub const PROP_READ: u8 = 0x02;

/// Property bit: the value can be written without a response.
pub const PROP_WRITE_WITHOUT_RESPONSE: u8 = 0x04;

/// Property bit: the value can be written with a response.
pub const PROP_WRITE: u8 = 0x08;

/// Property bit: the characteristic can notify.
pub const PROP_NOTIFY: u8 = 0x10;

/// Property bit: the characteristic can indicate.
pub const PROP_INDICATE: u8 = 0x20;

/// What a characteristic supports.
#[derive(Clone, Copy, Debug, PartialEq, Eq, Structural)]
pub struct CharacteristicProperties {
    pub read: bool,
    pub write: bool,
    pub write_without_response: bool,
    pub notify: bool,
    pub indicate: bool,
}

/// Whether every bit of `flag` is set in `bits`.
pub open spec fn has_flag(bits: u8, flag: u8) -> bool {
    bits & flag == flag
}

impl CharacteristicProperties {
    /// The properties that a GATT property byte stands for.
    pub open spec fn of_bits(bits: u8) -> CharacteristicProperties {
        CharacteristicProperties {
            read: has_flag(bits, PROP_READ),
            write: has_flag(bits, PROP_WRITE),
            write_without_response: has_flag(bits, PROP_WRITE_WITHOUT_RESPONSE),
            notify: has_flag(bits, PROP_NOTIFY),
            indicate: has_flag(bits, PROP_INDICATE),
        }
    }

    /// Reads the five supported properties out of a GATT property byte.
    pub fn from_bits(bits: u8) -> (r: CharacteristicProperties)
        ensures
            r == Self::of_bits(bits),
    {
        CharacteristicProperties {
            read: bits & PROP_READ == PROP_READ,
            write: bits & PROP_WRITE == PROP_WRITE,
            write_without_response: bits & PROP_WRITE_WITHOUT_RESPONSE
                == PROP_WRITE_WITHOUT_RESPONSE,
            notify: bits & PROP_NOTIFY == PROP_NOTIFY,
            indicate: bits & PROP_INDICATE == PROP_INDICATE,
        }
    }
}

/// One characteristic of a service: its uuid and what it supports.
#[derive(Debug, PartialEq, Eq)]
pub struct BleCharacteristicInfo {
    pub uuid: String,
    pub properties: CharacteristicProperties,
}

/// A characteristic as plain values.
pub struct CharacteristicView {
    pub uuid: Seq<char>,
    pub properties: CharacteristicProperties,
}

impl View for BleCharacteristicInfo {
    type V = CharacteristicView;

    open spec fn view(&self) -> CharacteristicView {
        CharacteristicView { uuid: self.uuid@, properties: self.properties }
    }
}

impl Clone for BleCharacteristicInfo {
    fn clone(&self) -> (r: Self)
        ensures
            r == *self,
    {
        BleCharacteristicInfo { uuid: self.uuid.clone(), properties: self.properties }
    }
}

impl BleCharacteristicInfo {
    /// A characteristic with the given uuid and properties.
    pub fn new(uuid: String, properties: CharacteristicProperties) -> (r: Self)
        ensures
            r.uuid == uuid,
            r.properties == properties,
    {
        Self { uuid, properties }
    }
}

/// The characteristics of a list as plain values, in order.
pub open spec fn characteristics_view(items: Seq<BleCharacteristicInfo>) -> Seq<
    CharacteristicView,
> {
    Seq::new(items.len(), |i: int| items[i]@)
}

} // verus!
