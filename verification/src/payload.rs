//! Decoding of the DMX data that Aurora core sends on its `dmx_packet` event into
//! the channels handed to the sender.

use vstd::prelude::*;
use crate::packet::{dmx_levels, parse_array};

verus! {

#[verifier::external_type_specification]
#[verifier::external_body]
pub struct ExJsonError(serde_json::Error);

/// What serde_json's `from_str::<Vec<i64>>` yields for a text: the array of 64-bit
/// integers it denotes, or `None` when it denotes none.
pub uninterp spec fn json_i64_array(text: Seq<char>) -> Option<Seq<i64>>;

/// Calls `serde_json::from_str::<Vec<i64>>`. The contract names its outcome:
/// `Ok` exactly when `json_i64_array` of the text is `Some`, with that array.
#[verifier::external_body]
fn decode_i64_array(text: &str) -> (r: Result<Vec<i64>, serde_json::Error>)
    ensures
        match r {
            Ok(v) => json_i64_array(text@) == Some(v@),
            Err(_) => json_i64_array(text@) is None,
        },
{
    serde_json::from_str::<Vec<i64>>(text)
}

/// One `dmx_packet` event's data, with JSON values reduced to what is read of them.
pub enum DmxPayload {
    /// Raw channel bytes.
    Binary(Vec<u8>),
    /// JSON values: for each, its elements read as integers (`None` for an element that
    /// is no integer in `i64`), or `None` when the value is not an array.
    Text(Vec<Option<Vec<Option<i64>>>>),
    /// A string that should hold a JSON array of integers.
    Str(String),
}

/// What an event does to the sender's buffer.
pub enum DmxUpdate {
    /// Set the buffer to these channels.
    Levels(Vec<u8>),
    /// A text payload without an array: nothing to set.
    NoArray,
    /// A string payload that is no array of 64-bit integers: nothing to set.
    Undecodable(serde_json::Error),
}

/// The level a JSON element stands for: its integer value saturated into 0..=255,
/// 0 when it is no integer.
pub open spec fn wire_level(v: Option<i64>) -> i32 {
    match v {
        Some(x) => if x < 0 {
            0
        } else if x > 255 {
            255
        } else {
            x as i32
        },
        None => 0,
    }
}

/// The levels of a JSON array's elements.
pub open spec fn wire_levels(arr: Seq<Option<i64>>) -> Seq<i32> {
    Seq::new(arr.len(), |i: int| wire_level(arr[i]))
}

/// A JSON element's level is its value when that lies in 0..=255, 0 below, 255 above,
/// and 0 for an element that is no integer.
pub proof fn lemma_wire_level(v: Option<i64>)
    ensures
        v is Some && 0 <= v->0 <= 255 ==> wire_level(v) as int == v->0 as int,
        v is Some && v->0 < 0 ==> wire_level(v) == 0,
        v is Some && v->0 > 255 ==> wire_level(v) == 255,
        v is None ==> wire_level(v) == 0,
{
}

/// The levels of a JSON array and of a decoded integer array keep the element count,
/// each element saturated into 0..=255 (elements that are no integer give 0).
pub proof fn lemma_levels_of_arrays(arr: Seq<Option<i64>>, ints: Seq<i64>)
    ensures
        wire_levels(arr).len() == arr.len(),
        clamped_levels(ints).len() == ints.len(),
        forall|i: int|
            0 <= i < arr.len() ==> {
                let l = #[trigger] wire_levels(arr)[i];
                &&& arr[i] is Some && 0 <= arr[i]->0 <= 255 ==> l as int == arr[i]->0 as int
                &&& arr[i] is Some && arr[i]->0 < 0 ==> l == 0
                &&& arr[i] is Some && arr[i]->0 > 255 ==> l == 255
                &&& arr[i] is None ==> l == 0
            },
        forall|i: int|
            0 <= i < ints.len() ==> {
                let l = #[trigger] clamped_levels(ints)[i];
                &&& 0 <= ints[i] <= 255 ==> l as int == ints[i] as int
                &&& ints[i] < 0 ==> l == 0
                &&& ints[i] > 255 ==> l == 255
            },
{
}

/// The levels of a decoded array of integers.
pub open spec fn clamped_levels(arr: Seq<i64>) -> Seq<i32> {
    Seq::new(arr.len(), |i: int| wire_level(Some(arr[i])))
}

/// The first of the JSON values that is an array.
pub open spec fn first_array(values: Seq<Option<Seq<Option<i64>>>>) -> Option<Seq<Option<i64>>>
    decreases values.len(),
{
    if values.len() == 0 {
        None
    } else {
        match values[0] {
            Some(a) => Some(a),
            None => first_array(values.drop_first()),
        }
    }
}

/// The array chosen from a text payload is the first value that is an array: every
/// value before it is no array; when none is chosen, no value is an array.
pub proof fn lemma_first_array(values: Seq<Option<Seq<Option<i64>>>>)
    ensures
        first_array(values) matches Some(a) ==> exists|i: int|
            0 <= i < values.len() && values[i] == Some(a) && forall|j: int|
                0 <= j < i ==> (#[trigger] values[j]) is None,
        first_array(values) is None ==> forall|i: int|
            0 <= i < values.len() ==> (#[trigger] values[i]) is None,
    decreases values.len(),
{
    if values.len() > 0 {
        let rest = values.drop_first();
        lemma_first_array(rest);
        if values[0] is None {
            if first_array(rest) is Some {
                let a = first_array(rest)->0;
                let k = choose|k: int|
                    0 <= k < rest.len() && rest[k] == Some(a) && forall|j: int|
                        0 <= j < k ==> (#[trigger] rest[j]) is None;
                assert(values[k + 1] == Some(a));
                assert forall|j: int| 0 <= j < k + 1 implies (#[trigger] values[j]) is None by {
                    if j > 0 {
                        assert(values[j] == rest[j - 1]);
                    }
                }
            } else {
                assert forall|i: int| 0 <= i < values.len() implies (#[trigger] values[i]) is None by {
                    if i > 0 {
                        assert(values[i] == rest[i - 1]);
                    }
                }
            }
        } else {
            assert(values[0] == first_array(values));
        }
    }
}

/// The channels for a text payload: the first array's levels fitted to
/// `packet_size`, or `NoArray`.
pub fn levels_from_text(values: &Vec<Option<Vec<Option<i64>>>>, packet_size: usize) -> (r: DmxUpdate)
    ensures
        match first_array(values.deep_view()) {
            Some(arr) => r matches DmxUpdate::Levels(v) && v@ == dmx_levels(
                wire_levels(arr),
                packet_size as nat,
            ),
            None => r is NoArray,
        },
{
    let ghost all = values.deep_view();
    let mut i: usize = 0;
    assert(all.skip(0) =~= all);
    while i < values.len()
        invariant
            i <= values.len(),
            all == values.deep_view(),
            first_array(all) == first_array(all.skip(i as int)),
        decreases values.len() - i,
    {
        assert(all.skip(i as int)[0] == all[i as int]);
        match &values[i] {
            Some(arr) => {
                let mut ints: Vec<i32> = Vec::with_capacity(arr.len());
                let mut j: usize = 0;
                assert(first_array(all.skip(i as int)) == Some(arr.deep_view()));
                while j < arr.len()
                    invariant
                        j <= arr.len(),
                        ints@ == wire_levels(arr.deep_view()).take(j as int),
                    decreases arr.len() - j,
                {
                    let level: i32 = match arr[j] {
                        Some(x) => if x < 0 {
                            0
                        } else if x > 255 {
                            255
                        } else {
                            x as i32
                        },
                        None => 0,
                    };
                    ints.push(level);
                    j = j + 1;
                    assert(ints@ =~= wire_levels(arr.deep_view()).take(j as int));
                }
                assert(ints@ =~= wire_levels(arr.deep_view()));
                return DmxUpdate::Levels(parse_array(ints.as_slice(), packet_size));
            },
            None => {
                assert(all.skip(i as int).drop_first() =~= all.skip(i + 1));
            },
        }
        i = i + 1;
    }
    DmxUpdate::NoArray
}

/// The channels for a decoded string payload: the array's values saturated into
/// 0..=255 and fitted to `packet_size`, or the decoding error.
pub fn levels_from_decoded(decoded: Result<Vec<i64>, serde_json::Error>, packet_size: usize) -> (r:
    DmxUpdate)
    ensures
        match decoded {
            Ok(a) => r matches DmxUpdate::Levels(v) && v@ == dmx_levels(
                clamped_levels(a@),
                packet_size as nat,
            ),
            Err(_) => r is Undecodable,
        },
{
    match decoded {
        Ok(a) => {
            let mut ints: Vec<i32> = Vec::with_capacity(a.len());
            let mut j: usize = 0;
            while j < a.len()
                invariant
                    j <= a.len(),
                    ints@ == clamped_levels(a@).take(j as int),
                decreases a.len() - j,
            {
                let x: i64 = a[j];
                let level: i32 = if x < 0 {
                    0
                } else if x > 255 {
                    255
                } else {
                    x as i32
                };
                ints.push(level);
                j = j + 1;
                assert(ints@ =~= clamped_levels(a@).take(j as int));
            }
            assert(ints@ =~= clamped_levels(a@));
            DmxUpdate::Levels(parse_array(ints.as_slice(), packet_size))
        },
        Err(e) => DmxUpdate::Undecodable(e),
    }
}

/// What one `dmx_packet` event does to a buffer of `packet_size` channels: binary data
/// is cut to `packet_size` bytes; the first JSON array of a text payload and the
/// integer array a string payload holds are saturated into 0..=255 and fitted to
/// `packet_size` channels.
pub fn dmx_update(payload: &DmxPayload, packet_size: usize) -> (r: DmxUpdate)
    ensures
        match payload {
            DmxPayload::Binary(bytes) => r matches DmxUpdate::Levels(v) && v@ == bytes@.take(
                if bytes@.len() < packet_size {
                    bytes@.len() as int
                } else {
                    packet_size as int
                },
            ),
            DmxPayload::Text(values) => match first_array(values.deep_view()) {
                Some(arr) => r matches DmxUpdate::Levels(v) && v@ == dmx_levels(
                    wire_levels(arr),
                    packet_size as nat,
                ),
                None => r is NoArray,
            },
            DmxPayload::Str(text) => match json_i64_array(text@) {
                Some(a) => r matches DmxUpdate::Levels(v) && v@ == dmx_levels(
                    clamped_levels(a),
                    packet_size as nat,
                ),
                None => r is Undecodable,
            },
        },
{
    match payload {
        DmxPayload::Binary(bytes) => {
            let take: usize = if bytes.len() < packet_size {
                bytes.len()
            } else {
                packet_size
            };
            let mut out: Vec<u8> = Vec::with_capacity(take);
            let mut i: usize = 0;
            while i < take
                invariant
                    i <= take,
                    take <= bytes@.len(),
                    out@ == bytes@.take(i as int),
                decreases take - i,
            {
                out.push(bytes[i]);
                i = i + 1;
                assert(out@ =~= bytes@.take(i as int));
            }
            DmxUpdate::Levels(out)
        },
        DmxPayload::Text(values) => levels_from_text(values, packet_size),
        DmxPayload::Str(text) => levels_from_decoded(decode_i64_array(text.as_str()), packet_size),
    }
}

} // verus!
