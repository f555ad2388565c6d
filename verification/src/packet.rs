//! DMX level clamping and Art-Net `OpDmx` frame encoding.

use vstd::prelude::*;

verus! {

/// Number of bytes in front of the DMX data of an `OpDmx` frame.
pub const ARTNET_HEADER_LEN: usize = 18;

/// The eight identification bytes every Art-Net frame starts with: `"Art-Net\0"`.
pub const ARTNET_ID: [u8; 8] = [0x41, 0x72, 0x74, 0x2d, 0x4e, 0x65, 0x74, 0x00];

/// Opcode of a DMX data frame.
pub const OP_DMX: u16 = 0x5000;

/// Art-Net protocol revision written into every frame.
pub const PROTOCOL_VERSION: u16 = 14;

/// UDP port Art-Net controllers listen on.
pub const ARTNET_PORT: u16 = 6454;

/// Art-Net DMX frames carry at most one universe (512 channels) of data.
pub const MAX_DMX_PAYLOAD: usize = 512;

/// A wire value saturated into a DMX level.
pub open spec fn clamp_level(x: i32) -> u8 {
    if x < 0 {
        0
    } else if x > 255 {
        255
    } else {
        x as u8
    }
}

/// `input` clamped channel by channel, then zero-padded or truncated to `n` channels.
pub open spec fn dmx_levels(input: Seq<i32>, n: nat) -> Seq<u8> {
    Seq::new(n, |i: int| if i < input.len() { clamp_level(input[i]) } else { 0u8 })
}

/// The identification bytes as a sequence.
pub open spec fn artnet_id() -> Seq<u8> {
    seq![0x41u8, 0x72u8, 0x74u8, 0x2du8, 0x4eu8, 0x65u8, 0x74u8, 0x00u8]
}

/// Little-endian bytes of a 16-bit value.
pub open spec fn u16_le(x: int) -> Seq<u8> {
    seq![(x % 256) as u8, ((x / 256) % 256) as u8]
}

/// Big-endian bytes of a 16-bit value.
pub open spec fn u16_be(x: int) -> Seq<u8> {
    seq![((x / 256) % 256) as u8, (x % 256) as u8]
}

/// SubUni byte of the port address: the low eight bits of the universe.
pub open spec fn sub_uni(universe: u16) -> u8 {
    (universe % 256) as u8
}

/// Net byte of the port address: bits 8 to 14 of the universe (bit 15 dropped).
pub open spec fn net(universe: u16) -> u8 {
    ((universe / 256) % 128) as u8
}

/// How many data bytes a frame carries for `data_len` bytes of input.
pub open spec fn payload_len(data_len: nat) -> nat {
    if data_len < MAX_DMX_PAYLOAD {
        data_len
    } else {
        MAX_DMX_PAYLOAD as nat
    }
}

/// The frame's length field: the payload length rounded up to an even number.
pub open spec fn length_field(data_len: nat) -> nat {
    let p = payload_len(data_len);
    if p % 2 == 0 {
        p
    } else {
        p + 1
    }
}

/// The 18-byte `OpDmx` header.
pub open spec fn artnet_header(universe: u16, sequence: u8, length: nat) -> Seq<u8> {
    artnet_id() + u16_le(OP_DMX as int) + u16_be(PROTOCOL_VERSION as int) + seq![
        sequence,
        0u8,
        sub_uni(universe),
        net(universe),
    ] + u16_be(length as int)
}

/// The complete frame: header, the first `payload_len` data bytes, and a zero byte
/// when that count is odd.
pub open spec fn artnet_frame(universe: u16, sequence: u8, data: Seq<u8>) -> Seq<u8> {
    let payload = data.take(payload_len(data.len()) as int);
    let padding = if payload.len() % 2 == 1 {
        seq![0u8]
    } else {
        Seq::<u8>::empty()
    };
    artnet_header(universe, sequence, length_field(data.len())) + payload + padding
}

/// Every frame is its 18-byte header followed by `length_field` bytes; the length field
/// is even, never above `MAX_DMX_PAYLOAD`, and its big-endian bytes give exactly the
/// number of bytes that follow the header.
pub proof fn lemma_frame_length(universe: u16, sequence: u8, data: Seq<u8>)
    ensures
        ({
            let f = artnet_frame(universe, sequence, data);
            let n = length_field(data.len());
            &&& f.len() == ARTNET_HEADER_LEN + n
            &&& n % 2 == 0
            &&& n <= MAX_DMX_PAYLOAD
            &&& n >= payload_len(data.len())
            &&& (f[16] as int) * 256 + (f[17] as int) == f.len() - ARTNET_HEADER_LEN
        }),
{
    let f = artnet_frame(universe, sequence, data);
    let n = length_field(data.len());
    let h = artnet_header(universe, sequence, n);
    assert(h.len() == 18);
    assert(f[16] == h[16]);
    assert(f[17] == h[17]);
}

/// The header is `"Art-Net\0"`, the `OpDmx` opcode 0x5000 little-endian, protocol
/// revision 14 big-endian, the given sequence number and physical port 0; the Net and
/// SubUni bytes give back the universe's low 15 bits, so exactly the universe when it
/// fits in 15 bits.
pub proof fn lemma_frame_header(universe: u16, sequence: u8, data: Seq<u8>)
    ensures
        ({
            let f = artnet_frame(universe, sequence, data);
            &&& f[0] == 0x41 && f[1] == 0x72 && f[2] == 0x74 && f[3] == 0x2d
            &&& f[4] == 0x4e && f[5] == 0x65 && f[6] == 0x74 && f[7] == 0x00
            &&& (f[15] as int) * 256 + (f[14] as int) == (universe as int) % 32768
            &&& f[14] < 256 && f[15] < 128
            &&& f.take(8) == artnet_id()
            &&& f[8] == 0x00 && f[9] == 0x50
            &&& f[10] == 0x00 && f[11] == 14
            &&& f[12] == sequence
            &&& f[13] == 0
            &&& universe <= 32767 ==> (f[15] as int) * 256 + (f[14] as int) == universe as int
        }),
{
    let f = artnet_frame(universe, sequence, data);
    let h = artnet_header(universe, sequence, length_field(data.len()));
    assert(h.len() == 18);
    assert forall|i: int| 0 <= i < 18 implies f[i] == h[i] by {}
    assert(f.take(8) =~= artnet_id());
}

/// A frame carries the first `payload_len` data bytes in order right after the header,
/// then a single zero byte when their count is odd.
pub proof fn lemma_frame_payload(universe: u16, sequence: u8, data: Seq<u8>)
    ensures
        ({
            let f = artnet_frame(universe, sequence, data);
            let p = payload_len(data.len());
            &&& forall|i: int|
                0 <= i < p ==> #[trigger] f[ARTNET_HEADER_LEN + i] == data[i]
            &&& p % 2 == 1 ==> f[ARTNET_HEADER_LEN + p] == 0
        }),
{
    let f = artnet_frame(universe, sequence, data);
    let h = artnet_header(universe, sequence, length_field(data.len()));
    assert(h.len() == 18);
}

/// Every data byte up to the 512th goes into the frame, in order, right after the 18
/// header bytes; an odd count gets one zero byte after it; the big-endian length field
/// counts the bytes that follow the header. Nothing else is in the frame.
pub proof fn lemma_frame_carries_data(universe: u16, sequence: u8, data: Seq<u8>)
    ensures
        ({
            let f = artnet_frame(universe, sequence, data);
            let m: int = if data.len() <= 512 {
                data.len() as int
            } else {
                512int
            };
            &&& f.len() == 18 + m + m % 2
            &&& forall|i: int| 0 <= i < m ==> #[trigger] f[18 + i] == data[i]
            &&& m % 2 == 1 ==> f[18 + m] == 0
            &&& (f[16] as int) * 256 + (f[17] as int) == m + m % 2
        }),
{
    lemma_frame_length(universe, sequence, data);
    lemma_frame_payload(universe, sequence, data);
}

/// Data of an even number of bytes within `MAX_DMX_PAYLOAD` goes into the frame whole,
/// neither cut nor padded.
pub proof fn lemma_even_payload_whole(universe: u16, sequence: u8, data: Seq<u8>)
    requires
        data.len() % 2 == 0,
        data.len() <= MAX_DMX_PAYLOAD,
    ensures
        artnet_frame(universe, sequence, data) == artnet_header(universe, sequence, data.len())
            + data,
{
    assert(data.take(data.len() as int) =~= data);
    assert(artnet_frame(universe, sequence, data) =~= artnet_header(universe, sequence, data.len())
        + data);
}

/// Clamping is idempotent: levels fed back through `dmx_levels` at the same length come
/// out unchanged.
pub proof fn lemma_levels_idempotent(input: Seq<i32>, n: nat)
    ensures
        ({
            let levels = dmx_levels(input, n);
            dmx_levels(Seq::new(n, |i: int| levels[i] as i32), n) == levels
        }),
{
    let levels = dmx_levels(input, n);
    assert(dmx_levels(Seq::new(n, |i: int| levels[i] as i32), n) =~= levels);
}

/// Each of the `n` levels is its input value when that lies in 0..=255, 0 for a negative
/// value, 255 for a value above 255, and 0 past the end of the input.
pub proof fn lemma_levels_clamp(input: Seq<i32>, n: nat)
    ensures
        dmx_levels(input, n).len() == n,
        forall|i: int|
            0 <= i < n ==> {
                let l = #[trigger] dmx_levels(input, n)[i];
                &&& i < input.len() && 0 <= input[i] <= 255 ==> l as int == input[i] as int
                &&& i < input.len() && input[i] < 0 ==> l == 0
                &&& i < input.len() && input[i] > 255 ==> l == 255
                &&& i >= input.len() ==> l == 0
            },
{
}

/// Clamp every input value into 0..=255 and pad or truncate to `desired_length`.
///
/// Values below zero become 0, values above 255 are saturated, and the result is
/// padded with zeros when the source is shorter than the universe.
pub fn parse_array(input: &[i32], desired_length: usize) -> (out: Vec<u8>)
    ensures
        out@ == dmx_levels(input@, desired_length as nat),
        out@.len() == desired_length,
        forall|i: int|
            0 <= i < desired_length ==> {
                let l = #[trigger] out@[i];
                &&& i < input@.len() && 0 <= input@[i] <= 255 ==> l as int == input@[i] as int
                &&& i < input@.len() && input@[i] < 0 ==> l == 0
                &&& i < input@.len() && input@[i] > 255 ==> l == 255
                &&& i >= input@.len() ==> l == 0
            },
{
    proof {
        lemma_levels_clamp(input@, desired_length as nat);
    }
    let mut out: Vec<u8> = Vec::with_capacity(desired_length);
    let mut i: usize = 0;
    while i < desired_length
        invariant
            i <= desired_length,
            out@ == dmx_levels(input@, desired_length as nat).take(i as int),
        decreases desired_length - i,
    {
        let level: u8 = if i < input.len() {
            let x: i32 = input[i];
            if x < 0 {
                0
            } else if x > 255 {
                255
            } else {
                x as u8
            }
        } else {
            0
        };
        out.push(level);
        i = i + 1;
        assert(out@ =~= dmx_levels(input@, desired_length as nat).take(i as int));
    }
    assert(out@ =~= dmx_levels(input@, desired_length as nat));
    out
}

/// Build an Art-Net `OpDmx` frame for the given universe and DMX payload.
///
/// `sequence` of 0 disables sequence tracking on the receiver. The frame holds the
/// 18-byte header followed by the data, whose length is rounded up to an even number
/// with a zero byte. Data beyond `MAX_DMX_PAYLOAD` bytes is left out, so the length
/// field always fits its 16 bits.
pub fn build_artnet_frame(universe: u16, sequence: u8, data: &[u8]) -> (frame: Vec<u8>)
    ensures
        frame@ == artnet_frame(universe, sequence, data@),
        ({
            let m: int = if data@.len() <= 512 {
                data@.len() as int
            } else {
                512int
            };
            &&& frame@.len() == 18 + m + m % 2
            &&& forall|i: int| 0 <= i < m ==> #[trigger] frame@[18 + i] == data@[i]
            &&& m % 2 == 1 ==> frame@[18 + m] == 0
            &&& (frame@[16] as int) * 256 + (frame@[17] as int) == m + m % 2
            &&& frame@[0] == 0x41 && frame@[1] == 0x72 && frame@[2] == 0x74 && frame@[3] == 0x2d
            &&& frame@[4] == 0x4e && frame@[5] == 0x65 && frame@[6] == 0x74 && frame@[7] == 0x00
            &&& frame@[8] == 0x00 && frame@[9] == 0x50 && frame@[10] == 0x00 && frame@[11] == 14
            &&& frame@[12] == sequence && frame@[13] == 0
            &&& (frame@[15] as int) * 256 + (frame@[14] as int) == (universe as int) % 32768
        }),
{
    proof {
        lemma_frame_carries_data(universe, sequence, data@);
        lemma_frame_header(universe, sequence, data@);
    }
    let n: usize = if data.len() < MAX_DMX_PAYLOAD {
        data.len()
    } else {
        MAX_DMX_PAYLOAD
    };
    let mut length: usize = n;
    if !length.is_multiple_of(2) {
        length = length + 1;
    }
    let mut frame: Vec<u8> = Vec::with_capacity(ARTNET_HEADER_LEN + length);
    let mut k: usize = 0;
    while k < 8
        invariant
            k <= 8,
            frame@ == artnet_id().take(k as int),
        decreases 8 - k,
    {
        frame.push(ARTNET_ID[k]);
        k = k + 1;
        assert(frame@ =~= artnet_id().take(k as int));
    }
    assert(frame@ =~= artnet_id());
    frame.push((OP_DMX % 256) as u8);
    frame.push((OP_DMX / 256) as u8);
    frame.push((PROTOCOL_VERSION / 256) as u8);
    frame.push((PROTOCOL_VERSION % 256) as u8);
    frame.push(sequence);
    frame.push(0);
    let subuni: u8 = (universe & 0xff) as u8;
    let net_byte: u8 = ((universe >> 8) & 0x7f) as u8;
    assert(subuni == sub_uni(universe) && net_byte == net(universe)) by (bit_vector)
        requires
            subuni == (universe & 0xff) as u8,
            net_byte == ((universe >> 8) & 0x7f) as u8,
    ;
    frame.push(subuni);
    frame.push(net_byte);
    frame.push((length / 256) as u8);
    frame.push((length % 256) as u8);
    let ghost header = frame@;
    assert(header =~= artnet_header(universe, sequence, length_field(data@.len())));
    let mut i: usize = 0;
    while i < n
        invariant
            i <= n,
            n == payload_len(data@.len()),
            frame@ == header + data@.take(i as int),
        decreases n - i,
    {
        frame.push(data[i]);
        i = i + 1;
        assert(frame@ =~= header + data@.take(i as int));
    }
    if n != length {
        frame.push(0);
    }
    assert(frame@ =~= artnet_frame(universe, sequence, data@));
    frame
}

} // verus!
