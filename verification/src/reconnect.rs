//! Finding a device again after it was unplugged or switched off.

use vstd::prelude::*;

use crate::device::{describes, extract_metadata, InputDevice};
use crate::path::{path_parts, same_path};
use crate::protocol::{DeviceMetadata, MetadataView};
use crate::text::same;

verus! {

/// What tells one model of a device from another.
#[derive(Debug, PartialEq, Eq)]
pub struct DeviceIdentity {
    pub name: String,
    pub bustype: u16,
    pub vendor: u16,
    pub product: u16,
    pub version: u16,
}

/// What a [`DeviceIdentity`] holds.
pub struct IdentityView {
    pub name: Seq<char>,
    pub bustype: u16,
    pub vendor: u16,
    pub product: u16,
    pub version: u16,
}

impl View for DeviceIdentity {
    type V = IdentityView;

    open spec fn view(&self) -> IdentityView {
        IdentityView {
            name: self.name@,
            bustype: self.bustype,
            vendor: self.vendor,
            product: self.product,
            version: self.version,
        }
    }
}

/// The identity of the device that `meta` describes.
pub open spec fn identity_of(meta: MetadataView) -> IdentityView {
    IdentityView {
        name: meta.name,
        bustype: meta.bustype,
        vendor: meta.vendor,
        product: meta.product,
        version: meta.version,
    }
}

/// The identity of a device.
pub open spec fn device_identity(device: InputDevice) -> IdentityView {
    IdentityView {
        name: device.name_or("Joycast Virtual Device"@),
        bustype: device.bustype,
        vendor: device.vendor,
        product: device.product,
        version: device.version,
    }
}

impl DeviceIdentity {
    /// The identity of the device that `metadata` describes.
    pub fn from_metadata(metadata: &DeviceMetadata) -> (r: Self)
        ensures
            r@ == identity_of(metadata@),
    {
        DeviceIdentity {
            name: metadata.name.clone(),
            bustype: metadata.bustype,
            vendor: metadata.vendor,
            product: metadata.product,
            version: metadata.version,
        }
    }

    /// Whether `metadata` describes a device with this identity.
    pub fn matches(&self, metadata: &DeviceMetadata) -> (r: bool)
        ensures
            r == (self@ == identity_of(metadata@)),
    {
        same(&self.name, &metadata.name) && self.bustype == metadata.bustype && self.vendor
            == metadata.vendor && self.product == metadata.product && self.version
            == metadata.version
    }
}

/// A device that is looked for after it was lost: where it was last, and its identity.
#[derive(Debug)]
pub struct ReconnectingDevice {
    pub preferred_path: String,
    pub identity: DeviceIdentity,
}

/// What a [`ReconnectingDevice`] holds.
pub struct LostView {
    pub path: Seq<char>,
    pub identity: IdentityView,
}

impl View for ReconnectingDevice {
    type V = LostView;

    open spec fn view(&self) -> LostView {
        LostView { path: self.preferred_path@, identity: self.identity@ }
    }
}

/// The device is of the model that is looked for.
pub open spec fn is_model(lost: LostView, device: InputDevice) -> bool {
    device_identity(device) == lost.identity
}

/// The device is of the model that is looked for, and where it was last.
pub open spec fn is_in_place(lost: LostView, device: InputDevice) -> bool {
    is_model(lost, device) && path_parts(device.path@) == path_parts(lost.path)
}

/// The device at `i` is the one to go on with: the first in place, or, where none is in place,
/// the first of the model.
pub open spec fn is_found_at(lost: LostView, found: Seq<InputDevice>, i: int) -> bool {
    &&& 0 <= i < found.len()
    &&& is_model(lost, found[i])
    &&& if is_in_place(lost, found[i]) {
        forall|j: int| 0 <= j < i ==> !is_in_place(lost, #[trigger] found[j])
    } else {
        &&& forall|j: int| 0 <= j < i ==> !is_model(lost, #[trigger] found[j])
        &&& forall|j: int| 0 <= j < found.len() ==> !is_in_place(lost, #[trigger] found[j])
    }
}

/// No device is of the model that is looked for.
pub open spec fn is_missing(lost: LostView, found: Seq<InputDevice>) -> bool {
    forall|j: int| 0 <= j < found.len() ==> !is_model(lost, #[trigger] found[j])
}

/// `r` and `after` are what looking for `before` among the devices `found` gives.
pub open spec fn reopens(
    before: LostView,
    found: Seq<InputDevice>,
    r: Option<usize>,
    after: LostView,
) -> bool {
    match r {
        Some(i) => is_found_at(before, found, i as int) && after == if is_in_place(
            before,
            found[i as int],
        ) {
            before
        } else {
            LostView { path: found[i as int].path@, identity: before.identity }
        },
        None => is_missing(before, found) && after == before,
    }
}

impl ReconnectingDevice {
    /// Remembers a device by its path and its metadata.
    pub fn new(preferred_path: String, metadata: &DeviceMetadata) -> (r: Self)
        ensures
            r@ == (LostView { path: preferred_path@, identity: identity_of(metadata@) }),
    {
        ReconnectingDevice { preferred_path, identity: DeviceIdentity::from_metadata(metadata) }
    }

    /// Try the previous event node first, then locate the same physical device if udev
    /// assigned it a different `/dev/input/eventN` path after reconnection. Returns the position
    /// of the device among those that were found.
    pub fn try_reopen(&mut self, found: &Vec<InputDevice>) -> (r: Option<usize>)
        ensures
            reopens(old(self)@, found@, r, final(self)@),
    {
        let ghost lost = self@;
        let mut fallback: Option<usize> = None;
        let n: usize = found.len();
        for i in 0..n
            invariant
                n == found@.len(),
                self@ == lost,
                *self == *old(self),
                forall|j: int| 0 <= j < i ==> !is_in_place(lost, #[trigger] found@[j]),
                match fallback {
                    Some(k) => k < i && is_model(lost, found@[k as int]) && forall|j: int|
                        0 <= j < k ==> !is_model(lost, #[trigger] found@[j]),
                    None => forall|j: int| 0 <= j < i ==> !is_model(lost, #[trigger] found@[j]),
                },
        {
            let metadata = extract_metadata(&found[i]);
            assert(describes(metadata@, found@[i as int]));
            if self.identity.matches(&metadata) {
                if same_path(&found[i].path, &self.preferred_path) {
                    return Some(i);
                }
                if fallback.is_none() {
                    fallback = Some(i);
                }
            }
        }
        if let Some(i) = fallback {
            self.preferred_path = found[i].path.clone();
        }
        fallback
    }
}

/// What a device can do has no part in its identity.
pub proof fn law_identity_ignores_capabilities(a: MetadataView, b: MetadataView)
    requires
        a.name == b.name,
        a.bustype == b.bustype,
        a.vendor == b.vendor,
        a.product == b.product,
        a.version == b.version,
    ensures
        identity_of(a) == identity_of(b),
{
}

/// A device is found again wherever it appears, and what is found is always the same model.
pub proof fn law_lost_device_is_found(
    device: InputDevice,
    meta: MetadataView,
    before: LostView,
    found: Seq<InputDevice>,
    again: int,
    r: Option<usize>,
    after: LostView,
)
    requires
        describes(meta, device),
        before.identity == identity_of(meta),
        0 <= again < found.len(),
        device_identity(found[again]) == device_identity(device),
        reopens(before, found, r, after),
    ensures
        r is Some,
        device_identity(found[r->0 as int]) == device_identity(device),
        path_parts(after.path) == path_parts(found[r->0 as int].path@),
        after.identity == before.identity,
{
    assert(is_model(before, found[again]));
}

/// A device that is back in its place is preferred to another of its model.
pub proof fn law_place_is_preferred(
    before: LostView,
    found: Seq<InputDevice>,
    again: int,
    r: Option<usize>,
    after: LostView,
)
    requires
        0 <= again < found.len(),
        is_in_place(before, found[again]),
        reopens(before, found, r, after),
    ensures
        r is Some,
        path_parts(found[r->0 as int].path@) == path_parts(before.path),
        after == before,
{
    assert(is_model(before, found[again]));
}

/// Two devices have one identity exactly where name, bus, vendor, product and version agree.
pub proof fn law_identity_is_five_things(a: MetadataView, b: MetadataView)
    ensures
        identity_of(a) == identity_of(b) <==> a.name == b.name && a.bustype == b.bustype && a.vendor
            == b.vendor && a.product == b.product && a.version == b.version,
{
}

/// The identity of a device is that of its metadata.
pub proof fn law_identity_of_device(device: InputDevice, meta: MetadataView)
    requires
        describes(meta, device),
    ensures
        device_identity(device) == identity_of(meta),
        device_identity(device).name == meta.name,
        device_identity(device).bustype == device.bustype,
        device_identity(device).vendor == device.vendor,
        device_identity(device).product == device.product,
        device_identity(device).version == device.version,
{
}

/// Looking for a lost device gives one exactly where one with its identity is found. It is in the
/// old place where there is such a one there, and is then the first there; else it is the first of
/// all, and its place is remembered.
pub proof fn law_which_device_is_reopened(
    before: LostView,
    found: Seq<InputDevice>,
    r: Option<usize>,
    after: LostView,
)
    requires
        reopens(before, found, r, after),
    ensures
        r is None <==> forall|i: int|
            0 <= i < found.len() ==> device_identity(#[trigger] found[i]) != before.identity,
        r is None ==> after == before,
        r matches Some(i) ==> {
            let d = found[i as int];
            &&& i < found.len()
            &&& device_identity(d) == before.identity
            &&& after.identity == before.identity
            &&& path_parts(after.path) == path_parts(d.path@)
            &&& forall|j: int|
                0 <= j < i && device_identity(#[trigger] found[j]) == before.identity ==> path_parts(
                    d.path@,
                ) == path_parts(before.path) && path_parts(found[j].path@) != path_parts(
                    before.path,
                )
            &&& forall|j: int|
                0 <= j < found.len() && device_identity(#[trigger] found[j]) == before.identity
                    && path_parts(found[j].path@) == path_parts(before.path) ==> path_parts(d.path@)
                    == path_parts(before.path)
        },
{
    assert forall|i: int| 0 <= i < found.len() implies is_model(before, #[trigger] found[i]) == (
    device_identity(found[i]) == before.identity) by {}
    if let Some(i) = r {
        let d = found[i as int];
        assert forall|j: int|
            0 <= j < found.len() && device_identity(#[trigger] found[j]) == before.identity
                && path_parts(found[j].path@) == path_parts(before.path) implies path_parts(d.path@)
            == path_parts(before.path) by {
            assert(is_in_place(before, found[j]));
        }
        assert forall|j: int|
            0 <= j < i && device_identity(#[trigger] found[j]) == before.identity implies path_parts(
            d.path@,
        ) == path_parts(before.path) && path_parts(found[j].path@) != path_parts(before.path) by {
            assert(is_model(before, found[j]));
        }
    }
}

} // verus!
