//! MQTT remaining-length codec: the variable-length integer that follows
//! the first byte of every packet.  Each byte carries seven data bits,
//! low-order group first, and a continuation bit on all but the last byte.

use vstd::prelude::*;

verus! {

/// Largest value the four-byte encoding can carry.
pub const REMAINING_LENGTH_MAX: usize = 268435455;

/// The minimal encoding of `n`, low-order seven-bit group first.
pub open spec fn spec_remaining_length_bytes(n: nat) -> Seq<u8>
    decreases n,
{
    if n < 128 {
        seq![n as u8]
    } else {
        seq![(128 + n % 128) as u8] + spec_remaining_length_bytes(n / 128)
    }
}

/// Decode of at most `max_bytes` leading bytes of `data`: the value and the
/// number of bytes consumed, or `None` when the continuation bit never
/// clears within the window or the data runs out first.
pub open spec fn spec_decode_remaining_length(data: Seq<u8>, max_bytes: nat) -> Option<(nat, nat)>
    decreases max_bytes,
{
    if max_bytes == 0 || data.len() == 0 {
        None
    } else if data[0] < 128 {
        Some((data[0] as nat, 1))
    } else {
        match spec_decode_remaining_length(data.skip(1), (max_bytes - 1) as nat) {
            None => None,
            Some((v, m)) => Some((((data[0] - 128) + 128 * v) as nat, (m + 1) as nat)),
        }
    }
}

/// `128^e`, for the bounds below.
pub open spec fn pow128(e: nat) -> nat
    decreases e,
{
    if e == 0 {
        1
    } else {
        128 * pow128((e - 1) as nat)
    }
}

proof fn lemma_pow128_positive(e: nat)
    ensures
        pow128(e) >= 1,
    decreases e,
{
    if e > 0 {
        lemma_pow128_positive((e - 1) as nat);
    }
}

proof fn lemma_pow128_increases(e1: nat, e2: nat)
    requires
        e1 <= e2,
    ensures
        pow128(e1) <= pow128(e2),
    decreases e2,
{
    if e1 < e2 {
        lemma_pow128_increases(e1, (e2 - 1) as nat);
        lemma_pow128_positive((e2 - 1) as nat);
    }
}

/// An encoding is never longer than needed: `n < 128^k` takes at most `k` bytes.
proof fn lemma_encode_length_bound(n: nat, k: nat)
    requires
        1 <= k,
        n < pow128(k),
    ensures
        1 <= spec_remaining_length_bytes(n).len() <= k,
    decreases n,
{
    if n < 128 {
    } else {
        assert(pow128(k) == 128 * pow128((k - 1) as nat));
        assert(n / 128 < pow128((k - 1) as nat)) by (nonlinear_arith)
            requires
                n < 128 * pow128((k - 1) as nat),
                n >= 128,
        ;
        if k == 1 {
            assert(false);
        }
        lemma_encode_length_bound(n / 128, (k - 1) as nat);
    }
}

/// The first four powers of 128, spelled out for the bounds below.
proof fn lemma_pow128_values()
    ensures
        pow128(1) == 128,
        pow128(2) == 16384,
        pow128(3) == 2097152,
        pow128(4) == 268435456,
{
    assert(pow128(1) == 128 * pow128(0));
    assert(pow128(2) == 128 * pow128(1));
    assert(pow128(3) == 128 * pow128(2));
    assert(pow128(4) == 128 * pow128(3));
}

/// The four-byte ceiling, stated over the named constant.
pub proof fn lemma_encode_length(n: nat)
    requires
        n <= REMAINING_LENGTH_MAX,
    ensures
        1 <= spec_remaining_length_bytes(n).len() <= 4,
{
    lemma_pow128_values();
    lemma_encode_length_bound(n, 4);
}

/// A decoded value fits in `128^max_bytes`, and the consumed count is
/// bounded by the window and by the data.
pub proof fn lemma_decode_bounds(data: Seq<u8>, max_bytes: nat)
    requires
        spec_decode_remaining_length(data, max_bytes) is Some,
    ensures
        ({
            let (v, m) = spec_decode_remaining_length(data, max_bytes)->Some_0;
            v < pow128(max_bytes) && 1 <= m <= max_bytes && m
                <= data.len()
        }),
    decreases max_bytes,
{
    if data[0] < 128 {
        assert(pow128(max_bytes) == 128 * pow128((max_bytes - 1) as nat));
        lemma_pow128_positive((max_bytes - 1) as nat);
        assert(data[0] < pow128(max_bytes)) by (nonlinear_arith)
            requires
                data[0] < 128,
                pow128(max_bytes) == 128
                    * pow128((max_bytes - 1) as nat),
                pow128((max_bytes - 1) as nat) >= 1,
        ;
    } else {
        lemma_decode_bounds(data.skip(1), (max_bytes - 1) as nat);
        let (v, m) = spec_decode_remaining_length(data.skip(1), (max_bytes - 1) as nat)->Some_0;
        assert((data[0] - 128) + 128 * v < pow128(max_bytes))
            by (nonlinear_arith)
            requires
                data[0] < 256,
                v < pow128((max_bytes - 1) as nat),
                pow128(max_bytes) == 128
                    * pow128((max_bytes - 1) as nat),
        ;
    }
}

/// Round trip: the decoder applied to an encoding, whatever follows it,
/// returns the encoded value and the encoding's own length.
pub proof fn lemma_decode_of_encode(n: nat, rest: Seq<u8>, max_bytes: nat)
    requires
        spec_remaining_length_bytes(n).len() <= max_bytes,
    ensures
        spec_decode_remaining_length(spec_remaining_length_bytes(n) + rest, max_bytes) == Some(
            (n, spec_remaining_length_bytes(n).len()),
        ),
    decreases n,
{
    let enc = spec_remaining_length_bytes(n);
    let data = enc + rest;
    if n < 128 {
        assert(data[0] == n as u8);
    } else {
        let tail = spec_remaining_length_bytes(n / 128);
        assert(data[0] == (128 + n % 128) as u8);
        assert(data.skip(1) =~= tail + rest);
        lemma_decode_of_encode(n / 128, rest, (max_bytes - 1) as nat);
        assert((data[0] - 128) + 128 * (n / 128) == n % 128 + 128 * (n / 128));
        vstd::arithmetic::div_mod::lemma_fundamental_div_mod(n as int, 128);
    }
}

/// Round trip over the exact encoding alone.
pub proof fn lemma_remaining_length_round_trip(n: nat)
    requires
        n <= REMAINING_LENGTH_MAX,
    ensures
        spec_decode_remaining_length(spec_remaining_length_bytes(n), 4) == Some(
            (n, spec_remaining_length_bytes(n).len()),
        ),
{
    lemma_encode_length(n);
    assert(spec_remaining_length_bytes(n) + Seq::<u8>::empty() =~= spec_remaining_length_bytes(n));
    lemma_decode_of_encode(n, Seq::<u8>::empty(), 4);
}

/// The decoder reads only the bytes it consumes: any data agreeing on that
/// prefix decodes the same way.
pub proof fn lemma_decode_depends_on_prefix(data: Seq<u8>, other: Seq<u8>, max_bytes: nat)
    requires
        spec_decode_remaining_length(data, max_bytes) is Some,
        other.len() >= spec_decode_remaining_length(data, max_bytes)->Some_0.1,
        other.take(spec_decode_remaining_length(data, max_bytes)->Some_0.1 as int) == data.take(
            spec_decode_remaining_length(data, max_bytes)->Some_0.1 as int,
        ),
    ensures
        spec_decode_remaining_length(other, max_bytes) == spec_decode_remaining_length(
            data,
            max_bytes,
        ),
    decreases max_bytes,
{
    let (v, m) = spec_decode_remaining_length(data, max_bytes)->Some_0;
    lemma_decode_bounds(data, max_bytes);
    assert(other.take(m as int)[0] == data.take(m as int)[0]);
    if data[0] < 128 {
    } else {
        let (v1, m1) = spec_decode_remaining_length(data.skip(1), (max_bytes - 1) as nat)->Some_0;
        lemma_decode_bounds(data.skip(1), (max_bytes - 1) as nat);
        assert(other.skip(1).take(m1 as int) =~= data.skip(1).take(m1 as int)) by {
            assert forall|i: int| 0 <= i < m1 implies other.skip(1)[i] == data.skip(1)[i] by {
                assert(other.take(m as int)[i + 1] == data.take(m as int)[i + 1]);
            }
        }
        lemma_decode_depends_on_prefix(data.skip(1), other.skip(1), (max_bytes - 1) as nat);
    }
}

/// A strict prefix of what the decoder consumes does not decode.
pub proof fn lemma_decode_of_truncation(data: Seq<u8>, j: int, max_bytes: nat)
    requires
        spec_decode_remaining_length(data, max_bytes) is Some,
        0 <= j < spec_decode_remaining_length(data, max_bytes)->Some_0.1,
    ensures
        spec_decode_remaining_length(data.take(j), max_bytes) is None,
    decreases max_bytes,
{
    lemma_decode_bounds(data, max_bytes);
    if j == 0 {
    } else {
        assert(data.take(j)[0] == data[0]);
        if data[0] < 128 {
        } else {
            lemma_decode_bounds(data.skip(1), (max_bytes - 1) as nat);
            assert(data.take(j).skip(1) =~= data.skip(1).take(j - 1));
            lemma_decode_of_truncation(data.skip(1), j - 1, (max_bytes - 1) as nat);
        }
    }
}

/// Append the minimal encoding of `len` to `packet`.
pub fn encode_remaining_length(packet: &mut Vec<u8>, len: usize)
    requires
        len <= REMAINING_LENGTH_MAX,
    ensures
        final(packet)@ == old(packet)@ + spec_remaining_length_bytes(len as nat),
    decreases len,
{
    if len < 128 {
        packet.push(len as u8);
        assert(packet@ =~= old(packet)@ + spec_remaining_length_bytes(len as nat));
    } else {
        packet.push((128 + len % 128) as u8);
        encode_remaining_length(packet, len / 128);
        assert(packet@ =~= old(packet)@ + spec_remaining_length_bytes(len as nat));
    }
}

/// Decode a remaining length from the front of `data`, reading at most
/// four bytes: the value and the bytes consumed.
pub fn decode_remaining_length(data: &[u8]) -> (r: Option<(usize, usize)>)
    ensures
        r matches Some((v, m)) ==> spec_decode_remaining_length(data@, 4) == Some(
            (v as nat, m as nat),
        ),
        r is None ==> spec_decode_remaining_length(data@, 4) is None,
{
    decode_remaining_length_window(data, 4)
}

fn decode_remaining_length_window(data: &[u8], max_bytes: u8) -> (r: Option<(usize, usize)>)
    requires
        max_bytes <= 4,
    ensures
        r matches Some((v, m)) ==> spec_decode_remaining_length(data@, max_bytes as nat) == Some(
            (v as nat, m as nat),
        ),
        r is None ==> spec_decode_remaining_length(data@, max_bytes as nat) is None,
    decreases max_bytes,
{
    if max_bytes == 0 || data.len() == 0 {
        None
    } else {
        let b = data[0];
        if b < 128 {
            Some((b as usize, 1))
        } else {
            let tail = &data[1..data.len()];
            assert(tail@ =~= data@.skip(1));
            match decode_remaining_length_window(tail, max_bytes - 1) {
                None => None,
                Some((v, m)) => {
                    proof {
                        lemma_decode_bounds(data@.skip(1), (max_bytes - 1) as nat);
                        lemma_pow128_values();
                        lemma_pow128_increases((max_bytes - 1) as nat, 3);
                    }
                    Some(((b - 128) as usize + 128 * v, m + 1))
                },
            }
        }
    }
}

} // verus!
