//! The sets of codes that a device supports, as `evdev` keeps them.

use vstd::prelude::*;

verus! {

/// The number of codes of keys and buttons.
pub const KEY_CODES: u16 = 0x300;

/// The number of codes of relative axes.
pub const RELATIVE_CODES: u16 = 0x10;

/// `list` holds the codes of `codes`, each once, from the lowest up.
pub open spec fn lists_codes(list: Seq<u16>, codes: Set<u16>) -> bool {
    &&& forall|c: u16| #[trigger] list.contains(c) <==> codes.contains(c)
    &&& forall|i: int, j: int| 0 <= i < j < list.len() ==> #[trigger] list[i] < #[trigger] list[j]
}

/// Keys and buttons, in an `evdev::AttributeSet`.
#[verifier::external_body]
pub struct KeySet {
    pub set: evdev::AttributeSet<evdev::KeyCode>,
}

/// Relative axes, in an `evdev::AttributeSet`.
#[verifier::external_body]
pub struct RelativeSet {
    pub set: evdev::AttributeSet<evdev::RelativeAxisCode>,
}

/// Absolute axes, in an `evdev::AttributeSet`.
#[verifier::external_body]
pub struct AbsoluteSet {
    pub set: evdev::AttributeSet<evdev::AbsoluteAxisCode>,
}

/// The codes of the keys and buttons in a set.
pub uninterp spec fn key_codes(set: KeySet) -> Set<u16>;

/// The codes of the relative axes in a set.
pub uninterp spec fn relative_codes(set: RelativeSet) -> Set<u16>;

/// The codes of the absolute axes in a set.
pub uninterp spec fn absolute_codes(set: AbsoluteSet) -> Set<u16>;

impl KeySet {
    /// `evdev::AttributeSet::new`: the set holds nothing.
    #[verifier::external_body]
    pub(crate) fn new() -> (r: Self)
        ensures
            key_codes(r) == Set::<u16>::empty(),
    {
        KeySet { set: evdev::AttributeSet::new() }
    }

    /// `evdev::AttributeSetRef::insert`: the set holds the code as well. The set has one bit for
    /// each known code, so a code beyond them panics.
    #[verifier::external_body]
    pub(crate) fn insert(&mut self, code: u16)
        requires
            code < KEY_CODES,
        ensures
            key_codes(*final(self)) == key_codes(*old(self)).insert(code),
    {
        self.set.insert(evdev::KeyCode(code));
    }

    /// `evdev::AttributeSetRef::contains`: whether the set holds the code.
    #[verifier::external_body]
    pub(crate) fn contains(&self, code: u16) -> (r: bool)
        ensures
            r == key_codes(*self).contains(code),
    {
        self.set.contains(evdev::KeyCode(code))
    }

    /// `evdev::AttributeSetRef::iter`: the codes of the set from the lowest up. The set has one
    /// bit for each known code, so there are none beyond them.
    #[verifier::external_body]
    pub(crate) fn codes(&self) -> (r: Vec<u16>)
        ensures
            lists_codes(r@, key_codes(*self)),
            forall|i: int| 0 <= i < r@.len() ==> #[trigger] r@[i] < KEY_CODES,
    {
        self.set.iter().map(|k| k.0).collect()
    }
}

impl RelativeSet {
    /// `evdev::AttributeSet::new`: the set holds nothing.
    #[verifier::external_body]
    pub(crate) fn new() -> (r: Self)
        ensures
            relative_codes(r) == Set::<u16>::empty(),
    {
        RelativeSet { set: evdev::AttributeSet::new() }
    }

    /// `evdev::AttributeSetRef::insert`: the set holds the code as well. The set has one bit for
    /// each known code, so a code beyond them panics.
    #[verifier::external_body]
    pub(crate) fn insert(&mut self, code: u16)
        requires
            code < RELATIVE_CODES,
        ensures
            relative_codes(*final(self)) == relative_codes(*old(self)).insert(code),
    {
        self.set.insert(evdev::RelativeAxisCode(code));
    }

    /// `evdev::AttributeSetRef::iter`: the codes of the set from the lowest up. The set has one
    /// bit for each known code, so there are none beyond them.
    #[verifier::external_body]
    pub(crate) fn codes(&self) -> (r: Vec<u16>)
        ensures
            lists_codes(r@, relative_codes(*self)),
            forall|i: int| 0 <= i < r@.len() ==> #[trigger] r@[i] < RELATIVE_CODES,
    {
        self.set.iter().map(|k| k.0).collect()
    }
}

impl AbsoluteSet {
    /// `evdev::AttributeSetRef::contains`: whether the set holds the code.
    #[verifier::external_body]
    pub(crate) fn contains(&self, code: u16) -> (r: bool)
        ensures
            r == absolute_codes(*self).contains(code),
    {
        self.set.contains(evdev::AbsoluteAxisCode(code))
    }
}

} // verus!
