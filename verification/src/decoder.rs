//! Manufacturer-data decoder.
//!
//! A vendor payload carries a one-byte start code, a 32-bit big-endian
//! device identifier, and a one-byte heart-rate reading. The decoder scans
//! an arbitrary byte buffer for the first occurrence of the start code,
//! takes the suffix from there as the frame (falling back to the whole
//! buffer when the code never occurs), and succeeds exactly when that frame
//! begins with the start code and is at least six bytes long.

use vstd::prelude::*;

verus! {

/// Index of the first occurrence of `code` in `b`, or `b.len()` when `code`
/// does not occur.
pub open spec fn first_code_index(b: Seq<u8>, code: u8) -> int
    decreases b.len(),
{
    if b.len() == 0 {
        0
    } else if b[0] == code {
        0
    } else {
        1 + first_code_index(b.drop_first(), code)
    }
}

/// Whether `code` occurs anywhere in `b`.
pub open spec fn contains_code(b: Seq<u8>, code: u8) -> bool {
    first_code_index(b, code) < b.len()
}

/// The frame that decoding examines: the suffix of `b` starting at the
/// first occurrence of `code`, or `b` itself when `code` does not occur.
pub open spec fn spec_frame(b: Seq<u8>, code: u8) -> Seq<u8> {
    if contains_code(b, code) {
        b.subrange(first_code_index(b, code), b.len() as int)
    } else {
        b
    }
}

/// A frame is well formed when it starts with the start code and holds at
/// least the six bytes of the fixed header: code, four identifier bytes,
/// one heart-rate byte.
pub open spec fn frame_ok(f: Seq<u8>, code: u8) -> bool {
    f.len() >= 6 && f[0] == code
}

/// Big-endian interpretation of a four-byte sequence.
pub open spec fn be_u32(b: Seq<u8>) -> int
    recommends
        b.len() == 4,
{
    b[0] * 0x100_0000 + b[1] * 0x1_0000 + b[2] * 0x100 + b[3]
}

/// The decoded reading for buffer `b` and start code `code`: the device
/// identifier from frame bytes 1..5 (big endian) and the heart rate from
/// frame byte 5, or nothing when the frame is not well formed.
pub open spec fn spec_decode(b: Seq<u8>, code: u8) -> Option<(u32, u32)> {
    let f = spec_frame(b, code);
    if frame_ok(f, code) {
        Some(((be_u32(f.subrange(1, 5)) as u32), (f[5] as u32)))
    } else {
        None
    }
}

/// `first_code_index` really is the first occurrence: nothing before it
/// matches, and it points at a match whenever one exists.
pub proof fn lemma_first_code_index(b: Seq<u8>, code: u8)
    ensures
        0 <= first_code_index(b, code) <= b.len(),
        forall|k: int| 0 <= k < first_code_index(b, code) ==> b[k] != code,
        first_code_index(b, code) < b.len() ==> b[first_code_index(b, code)] == code,
    decreases b.len(),
{
    if b.len() == 0 {
    } else if b[0] == code {
    } else {
        lemma_first_code_index(b.drop_first(), code);
        assert forall|k: int| 0 <= k < first_code_index(b, code) implies b[k] != code by {
            if k > 0 {
                assert(b.drop_first()[k - 1] == b[k]);
            }
        }
    }
}

/// A position with no match before it and a match at it (or the length,
/// when there is no match at all) is exactly `first_code_index`.
pub proof fn lemma_first_code_index_unique(b: Seq<u8>, code: u8, p: int)
    requires
        0 <= p <= b.len(),
        forall|k: int| 0 <= k < p ==> b[k] != code,
        p < b.len() ==> b[p] == code,
    ensures
        p == first_code_index(b, code),
{
    lemma_first_code_index(b, code);
    let i = first_code_index(b, code);
    if p < i {
        assert(b[p] != code);
    } else if i < p {
        assert(b[i] != code);
    }
}

/// Framing law: decoding succeeds exactly when the frame — the suffix of
/// `b` at the first occurrence of `code`, or `b` itself when `code` never
/// occurs — is at least six bytes long and starts with `code`.
pub proof fn lemma_framing(b: Seq<u8>, code: u8)
    ensures
        spec_decode(b, code) is Some <==> frame_ok(spec_frame(b, code), code),
        contains_code(b, code) ==> {
            let p = first_code_index(b, code);
            &&& 0 <= p < b.len()
            &&& b[p] == code
            &&& (forall|k: int| 0 <= k < p ==> b[k] != code)
            &&& spec_frame(b, code) == b.subrange(p, b.len() as int)
        },
        !contains_code(b, code) ==> {
            &&& (forall|k: int| 0 <= k < b.len() ==> b[k] != code)
            &&& spec_frame(b, code) == b
        },
{
    lemma_first_code_index(b, code);
}

/// The big-endian value of a four-byte sequence fits in 32 bits.
pub proof fn lemma_be_u32_bounds(x: Seq<u8>)
    requires
        x.len() == 4,
    ensures
        0 <= be_u32(x) <= u32::MAX,
{
}

/// Byte-order law, first half: the device identifier is the big-endian
/// interpretation of frame bytes 1 through 4.
pub proof fn lemma_device_id_big_endian(b: Seq<u8>, code: u8)
    requires
        spec_decode(b, code) is Some,
    ensures
        ({
            let f = spec_frame(b, code);
            spec_decode(b, code)->Some_0.0 == f[1] * 0x100_0000 + f[2] * 0x1_0000 + f[3] * 0x100
                + f[4]
        }),
{
    let f = spec_frame(b, code);
    let id = f.subrange(1, 5);
    assert(id[0] == f[1] && id[1] == f[2] && id[2] == f[3] && id[3] == f[4]);
    lemma_be_u32_bounds(id);
}

/// Byte-order law, second half: the big-endian interpretation is injective,
/// so changing any of the four identifier bytes changes the device
/// identifier.
pub proof fn lemma_be_u32_injective(x: Seq<u8>, y: Seq<u8>)
    requires
        x.len() == 4,
        y.len() == 4,
        be_u32(x) == be_u32(y),
    ensures
        x =~= y,
{
    assert(x[0] == y[0] && x[1] == y[1] && x[2] == y[2] && x[3] == y[3]);
}

/// Byte-order law, third half: the device identifier is independent of the
/// heart-rate byte — any two decodes whose frames agree on bytes 1 through
/// 4 yield the same identifier, whatever stands at byte 5.
pub proof fn lemma_device_id_ignores_heart_rate(b1: Seq<u8>, b2: Seq<u8>, code: u8)
    requires
        spec_decode(b1, code) is Some,
        spec_decode(b2, code) is Some,
        spec_frame(b1, code).subrange(1, 5) == spec_frame(b2, code).subrange(1, 5),
    ensures
        spec_decode(b1, code)->Some_0.0 == spec_decode(b2, code)->Some_0.0,
{
}

/// Heart-rate law: the reading is exactly frame byte 5, and so lies in the
/// range 0 to 255.
pub proof fn lemma_heart_rate_byte(b: Seq<u8>, code: u8)
    requires
        spec_decode(b, code) is Some,
    ensures
        spec_decode(b, code)->Some_0.1 == spec_frame(b, code)[5],
        spec_decode(b, code)->Some_0.1 <= 255,
{
}

/// Purity law: the decoded result is a function of the buffer and the start
/// code alone, so two decodes of the same inputs agree.
pub proof fn lemma_decode_deterministic(b1: Seq<u8>, c1: u8, b2: Seq<u8>, c2: u8)
    requires
        b1 == b2,
        c1 == c2,
    ensures
        spec_decode(b1, c1) == spec_decode(b2, c2),
{
}

/// Decode one manufacturer-data buffer.
///
/// Scans `buff` for the first occurrence of `start_code`, takes the suffix
/// from there (or the whole buffer when the code never occurs), and returns
/// the `(device_id, heart_rate)` pair exactly when that frame starts with
/// `start_code` and holds at least six bytes; otherwise returns nothing.
pub fn process_manufacturer_data(buff: &[u8], start_code: u8) -> (r: Option<(u32, u32)>)
    ensures
        r == spec_decode(buff@, start_code),
{
    let n = buff.len();
    if n == 0 {
        return None;
    }

    let mut pos: usize = 0;
    while pos < n && buff[pos] != start_code
        invariant
            0 <= pos <= n,
            n == buff@.len(),
            forall|k: int| 0 <= k < pos ==> buff@[k] != start_code,
        decreases n - pos,
    {
        pos = pos + 1;
    }
    proof {
        lemma_first_code_index_unique(buff@, start_code, pos as int);
    }

    // Frame start: the first occurrence, or the buffer itself as fallback.
    let fs: usize = if pos < n {
        pos
    } else {
        0
    };
    let ghost f = spec_frame(buff@, start_code);
    proof {
        if pos < n {
            assert(f =~= buff@.subrange(fs as int, n as int));
        }
        assert(f.len() == n - fs);
        assert(forall|k: int| 0 <= k < f.len() ==> f[k] == buff@[fs + k]);
    }

    if n - fs >= 6 && buff[fs] == start_code {
        let b1 = buff[fs + 1];
        let b2 = buff[fs + 2];
        let b3 = buff[fs + 3];
        let b4 = buff[fs + 4];
        let device_id: u32 = (b1 as u32) * 0x100_0000 + (b2 as u32) * 0x1_0000 + (b3 as u32)
            * 0x100 + (b4 as u32);
        let heart_rate: u32 = buff[fs + 5] as u32;
        proof {
            let id = f.subrange(1, 5);
            assert(id[0] == b1 && id[1] == b2 && id[2] == b3 && id[3] == b4);
        }
        Some((device_id, heart_rate))
    } else {
        assert(!frame_ok(f, start_code));
        None
    }
}

} // verus!
