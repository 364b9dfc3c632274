//! The values that a message is made of, written and read with `postcard`.
//!
//! `postcard` writes a struct or a tuple as its fields one after the other, and an enum as the
//! index of the variant followed by the variant's fields. The functions here hand it the plain
//! parts; `protocol` puts the parts of a message in their order.

use vstd::prelude::*;

verus! {

/// An absolute axis as it is handed to `postcard`: code, value, minimum, maximum, fuzz, flat and
/// resolution.
pub type AxisFields = (u16, i32, i32, i32, i32, i32, i32);

/// An input event as it is handed to `postcard`: type, code and value.
pub type EventFields = (u16, u16, i32);

/// The parts of a device description: name, bus type, vendor, product, version, key codes,
/// absolute axes and relative axes.
pub type DeviceParts = (
    Seq<char>,
    u16,
    u16,
    u16,
    u16,
    Seq<u16>,
    Seq<AxisFields>,
    Seq<u16>,
);

#[verifier::external_type_specification]
#[verifier::external_body]
pub struct ExPostcardError(postcard::Error);

/// `to_string` on a `postcard::Error`: its text for the user, of which nothing is claimed.
#[verifier::external_body]
pub(crate) fn error_text(e: &postcard::Error) -> (r: String) {
    e.to_string()
}

/// A number in groups of seven bits, the lowest first: each byte holds one group, and all but
/// the last have their highest bit set.
pub open spec fn varint(n: nat) -> Seq<u8>
    decreases n,
{
    if n < 128 {
        seq![n as u8]
    } else {
        seq![(n % 128 + 128) as u8] + varint(n / 128)
    }
}

/// The number at the front of `bytes` in at most `most` groups, and the bytes behind it.
pub open spec fn varint_in(bytes: Seq<u8>, most: nat) -> Option<(nat, Seq<u8>)>
    decreases most,
{
    if most == 0 || bytes.len() == 0 {
        None
    } else if bytes[0] < 128 {
        Some((bytes[0] as nat, bytes.drop_first()))
    } else {
        match varint_in(bytes.drop_first(), (most - 1) as nat) {
            Some((n, rest)) => Some(((bytes[0] - 128 + 128 * n) as nat, rest)),
            None => None,
        }
    }
}

/// The bytes in which `postcard` writes a `u32`, as it also writes the index of a variant.
pub open spec fn index_bytes(index: u32) -> Seq<u8> {
    varint(index as nat)
}

/// The `u32` that `postcard` reads at the front of `bytes`, and the bytes behind it: at most five
/// groups, of a number that fits.
pub open spec fn index_of(bytes: Seq<u8>) -> Option<(u32, Seq<u8>)> {
    match varint_in(bytes, 5) {
        Some((n, rest)) => if n <= u32::MAX {
            Some((n as u32, rest))
        } else {
            None
        },
        None => None,
    }
}

/// The number of values that fit in so many groups.
spec fn group_limit(groups: nat) -> nat
    decreases groups,
{
    if groups == 0 {
        1
    } else {
        128 * group_limit((groups - 1) as nat)
    }
}

proof fn lemma_varint_is_read(n: nat, most: nat, rest: Seq<u8>)
    requires
        most > 0,
        n < group_limit(most),
    ensures
        varint_in(varint(n) + rest, most) == Some((n, rest)),
    decreases n,
{
    let bytes = varint(n) + rest;
    if n < 128 {
        assert(bytes.drop_first() =~= rest);
    } else {
        if most == 1 {
            assert(group_limit(0) == 1);
        }
        lemma_varint_is_read(n / 128, (most - 1) as nat, rest);
        assert(bytes.drop_first() =~= varint(n / 128) + rest);
    }
}

proof fn lemma_part_of_varint(n: nat, most: nat, k: int)
    requires
        0 <= k < varint(n).len(),
    ensures
        varint_in(varint(n).take(k), most) is None,
    decreases n,
{
    let part = varint(n).take(k);
    if k > 0 && most > 0 {
        assert(n >= 128);
        lemma_part_of_varint(n / 128, (most - 1) as nat, k - 1);
        assert(part.drop_first() =~= varint(n / 128).take(k - 1));
    }
}

/// A number is read as it was written, whatever follows it, and a proper part of its bytes is
/// refused.
pub proof fn law_index_round_trip(index: u32)
    ensures
        forall|rest: Seq<u8>| #[trigger] index_of(index_bytes(index) + rest) == Some((index, rest)),
        forall|k: int|
            0 <= k < index_bytes(index).len() ==> #[trigger] index_of(index_bytes(index).take(k)) is None,
{
    reveal_with_fuel(group_limit, 6);
    assert forall|rest: Seq<u8>| #[trigger] index_of(index_bytes(index) + rest) == Some(
        (index, rest),
    ) by {
        lemma_varint_is_read(index as nat, 5, rest);
    }
    assert forall|k: int| 0 <= k < index_bytes(index).len() implies #[trigger] index_of(
        index_bytes(index).take(k),
    ) is None by {
        lemma_part_of_varint(index as nat, 5, k);
    }
}

/// The bytes in which `postcard` writes two texts.
pub uninterp spec fn texts_bytes(first: Seq<char>, second: Seq<char>) -> Seq<u8>;

/// The two texts that `postcard` reads at the front of `bytes`, and the bytes behind them.
pub uninterp spec fn texts_of(bytes: Seq<u8>) -> Option<((Seq<char>, Seq<char>), Seq<u8>)>;

/// The bytes in which `postcard` writes the parts of a device description.
pub uninterp spec fn device_bytes(parts: DeviceParts) -> Seq<u8>;

/// The device description that `postcard` reads at the front of `bytes`, and the bytes behind it.
pub uninterp spec fn device_of(bytes: Seq<u8>) -> Option<(DeviceParts, Seq<u8>)>;

/// The number under which a number with a sign is written: even where it is not negative, odd
/// where it is.
pub open spec fn zigzag(n: i32) -> nat {
    if n >= 0 {
        (2 * n) as nat
    } else {
        (-2 * n - 1) as nat
    }
}

/// The bytes of an input event: its type, its code and its value.
pub open spec fn event_bytes(e: EventFields) -> Seq<u8> {
    varint(e.0 as nat) + varint(e.1 as nat) + varint(zigzag(e.2))
}

/// The bytes of input events, one after the other.
pub open spec fn each_event(events: Seq<EventFields>) -> Seq<u8>
    decreases events.len(),
{
    if events.len() == 0 {
        Seq::empty()
    } else {
        each_event(events.drop_last()) + event_bytes(events.last())
    }
}

/// The bytes in which `postcard` writes a list of input events: their number, then the events.
pub open spec fn events_bytes(events: Seq<EventFields>) -> Seq<u8> {
    varint(events.len()) + each_event(events)
}

proof fn lemma_varint_len(n: nat, groups: nat)
    requires
        groups > 0,
        n < group_limit(groups),
    ensures
        1 <= varint(n).len() <= groups,
    decreases n,
{
    if n >= 128 {
        if groups == 1 {
            assert(group_limit(0) == 1);
        }
        lemma_varint_len(n / 128, (groups - 1) as nat);
    }
}

/// A list of input events takes at most eleven bytes for each event, and ten for their number.
pub proof fn law_events_are_short(events: Seq<EventFields>)
    requires
        events.len() <= u64::MAX,
    ensures
        events_bytes(events).len() <= 10 + 11 * events.len(),
{
    reveal_with_fuel(group_limit, 11);
    lemma_varint_len(events.len(), 10);
    lemma_each_event_len(events);
}

proof fn lemma_each_event_len(events: Seq<EventFields>)
    ensures
        each_event(events).len() <= 11 * events.len(),
    decreases events.len(),
{
    if events.len() > 0 {
        let e = events.last();
        reveal_with_fuel(group_limit, 6);
        lemma_varint_len(e.0 as nat, 3);
        lemma_varint_len(e.1 as nat, 3);
        lemma_varint_len(zigzag(e.2), 5);
        lemma_each_event_len(events.drop_last());
    }
}

/// The list of input events that `postcard` reads at the front of `bytes`, and the bytes behind it.
pub uninterp spec fn events_of(bytes: Seq<u8>) -> Option<(Seq<EventFields>, Seq<u8>)>;

/// `postcard::to_allocvec` on a `u32`. It writes to a growing vector and never fails.
#[verifier::external_body]
pub(crate) fn write_index(index: u32) -> (r: Result<Vec<u8>, postcard::Error>)
    ensures
        r is Ok,
        r->Ok_0@ == index_bytes(index),
{
    postcard::to_allocvec(&index)
}

/// `postcard::take_from_bytes` for a `u32`: at most five bytes, the last of which must not make
/// the number too large; a number may be written in more bytes than it needs.
#[verifier::external_body]
pub(crate) fn read_index(bytes: &[u8]) -> (r: Result<(u32, &[u8]), postcard::Error>)
    ensures
        match r {
            Ok((index, rest)) => index_of(bytes@) == Some((index, rest@)),
            Err(_) => index_of(bytes@) is None,
        },
{
    postcard::take_from_bytes::<u32>(bytes)
}

/// `postcard::to_allocvec` on a pair of texts. It writes to a growing vector and never fails;
/// reading the bytes back gives the texts, whatever follows them, and fails where bytes are
/// missing at the end.
#[verifier::external_body]
pub(crate) fn write_texts(first: &String, second: &String) -> (r: Result<
    Vec<u8>,
    postcard::Error,
>)
    ensures
        r is Ok,
        r->Ok_0@ == texts_bytes(first@, second@),
        forall|rest: Seq<u8>| #[trigger]
            texts_of(r->Ok_0@ + rest) == Some(((first@, second@), rest)),
        forall|k: int|
            0 <= k < r->Ok_0@.len() ==> #[trigger] texts_of(r->Ok_0@.take(k)) is None,
{
    postcard::to_allocvec(&(first, second))
}

/// `postcard::take_from_bytes` for a pair of texts.
#[verifier::external_body]
pub(crate) fn read_texts(bytes: &[u8]) -> (r: Result<((String, String), &[u8]), postcard::Error>)
    ensures
        match r {
            Ok((texts, rest)) => texts_of(bytes@) == Some(((texts.0@, texts.1@), rest@)),
            Err(_) => texts_of(bytes@) is None,
        },
{
    postcard::take_from_bytes::<(String, String)>(bytes)
}

/// `postcard::to_allocvec` on the parts of a device description. It writes to a growing vector
/// and never fails; reading the bytes back gives the parts, whatever follows them, and fails where
/// bytes are missing at the end.
#[verifier::external_body]
pub(crate) fn write_device(
    name: &String,
    id: (u16, u16, u16, u16),
    keys: &Vec<u16>,
    abs_axes: &Vec<AxisFields>,
    rel_axes: &Vec<u16>,
) -> (r: Result<Vec<u8>, postcard::Error>)
    ensures
        r is Ok,
        r->Ok_0@ == device_bytes(
            (name@, id.0, id.1, id.2, id.3, keys@, abs_axes@, rel_axes@),
        ),
        forall|rest: Seq<u8>| #[trigger]
            device_of(r->Ok_0@ + rest) == Some(
                ((name@, id.0, id.1, id.2, id.3, keys@, abs_axes@, rel_axes@), rest),
            ),
        forall|k: int|
            0 <= k < r->Ok_0@.len() ==> #[trigger] device_of(r->Ok_0@.take(k)) is None,
{
    postcard::to_allocvec(&(name, id.0, id.1, id.2, id.3, keys, abs_axes, rel_axes))
}

/// `postcard::take_from_bytes` for the parts of a device description.
#[verifier::external_body]
pub(crate) fn read_device(bytes: &[u8]) -> (r: Result<
    ((String, u16, u16, u16, u16, Vec<u16>, Vec<AxisFields>, Vec<u16>), &[u8]),
    postcard::Error,
>)
    ensures
        match r {
            Ok((d, rest)) => device_of(bytes@) == Some(
                ((d.0@, d.1, d.2, d.3, d.4, d.5@, d.6@, d.7@), rest@),
            ),
            Err(_) => device_of(bytes@) is None,
        },
{
    postcard::take_from_bytes(bytes)
}

/// `postcard::to_allocvec` on a list of input events. It writes to a growing vector and never
/// fails; reading the bytes back gives the list, whatever follows it, and fails where bytes are
/// missing at the end.
#[verifier::external_body]
pub(crate) fn write_events(events: &Vec<EventFields>) -> (r: Result<Vec<u8>, postcard::Error>)
    ensures
        r is Ok,
        r->Ok_0@ == events_bytes(events@),
        forall|rest: Seq<u8>| #[trigger] events_of(r->Ok_0@ + rest) == Some((events@, rest)),
        forall|k: int|
            0 <= k < r->Ok_0@.len() ==> #[trigger] events_of(r->Ok_0@.take(k)) is None,
{
    postcard::to_allocvec(events)
}

/// `postcard::take_from_bytes` for a list of input events.
#[verifier::external_body]
pub(crate) fn read_events(bytes: &[u8]) -> (r: Result<
    (Vec<EventFields>, &[u8]),
    postcard::Error,
>)
    ensures
        match r {
            Ok((events, rest)) => events_of(bytes@) == Some((events@, rest@)),
            Err(_) => events_of(bytes@) is None,
        },
{
    postcard::take_from_bytes::<Vec<EventFields>>(bytes)
}

} // verus!
