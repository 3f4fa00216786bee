//! GATT services as the session layer records them.

use crate::ble_characteristic::{characteristics_view, BleCharacteristicInfo, CharacteristicView};
use vstd::prelude::*;

verus! {

/// One service of a device: its uuid and its characteristics, in the order
/// in which the stack reported them.
#[derive(Debug, PartialEq, Eq)]
pub struct BleServiceInfo {
    pub uuid: String,
    pub characteristics: Vec<BleCharacteristicInfo>,
}

/// A service as plain values.
pub struct ServiceView {
    pub uuid: Seq<char>,
    pub characteristics: Seq<CharacteristicView>,
}

impl View for BleServiceInfo {
    type V = ServiceView;

    open spec fn view(&self) -> ServiceView {
        ServiceView {
            uuid: self.uuid@,
            characteristics: characteristics_view(self.characteristics@),
        }
    }
}

/// The services of a list as plain values, in order.
pub open spec fn services_view(items: Seq<BleServiceInfo>) -> Seq<ServiceView> {
    Seq::new(items.len(), |i: int| items[i]@)
}

impl Clone for BleServiceInfo {
    fn clone(&self) -> (r: Self)
        ensures
            r@ == self@,
    {
        let mut characteristics: Vec<BleCharacteristicInfo> = Vec::new();
        let mut i: usize = 0;
        while i < self.characteristics.len()
            invariant
                i <= self.characteristics.len(),
                characteristics@ == self.characteristics@.subrange(0, i as int),
            decreases self.characteristics.len() - i,
        {
            characteristics.push(self.characteristics[i].clone());
            assert(characteristics@ =~= self.characteristics@.subrange(0, i + 1));
            i += 1;
        }
        assert(characteristics@ =~= self.characteristics@);
        BleServiceInfo { uuid: self.uuid.clone(), characteristics }
    }
}

impl BleServiceInfo {
    /// A service with the given uuid and characteristics.
    pub fn new(uuid: String, characteristics: Vec<BleCharacteristicInfo>) -> (r: Self)
        ensures
            r.uuid == uuid,
            r.characteristics == characteristics,
    {
        Self { uuid, characteristics }
    }
}

/// A copy of a list of services, equal to it as plain values.
pub fn clone_services(items: &Vec<BleServiceInfo>) -> (r: Vec<BleServiceInfo>)
    ensures
        services_view(r@) == services_view(items@),
{
    let mut out: Vec<BleServiceInfo> = Vec::new();
    let mut i: usize = 0;
    while i < items.len()
        invariant
            i <= items.len(),
            out.len() == i,
            forall|j: int| 0 <= j < i ==> out@[j]@ == items@[j]@,
        decreases items.len() - i,
    {
        out.push(items[i].clone());
        i += 1;
    }
    assert(services_view(out@) =~= services_view(items@));
    out
}

} // verus!
