//! Little-endian base-128 varints and the zig-zag mapping for signed
//! integers: the integer primitives of the job-description wire format.
//!
//! A varint stores seven value bits per byte, least significant chunk
//! first; the high bit of a byte is set exactly when another byte follows.
//! A decoder for an `n`-bit integer accepts at most `ceil(n / 7)` bytes and
//! caps the final permitted byte so that the decoded value fits in `n` bits.

use vstd::prelude::*;

verus! {

// ---------------------------------------------------------------------------
// Specification
// ---------------------------------------------------------------------------

/// Canonical (shortest) varint encoding of `v`.
pub open spec fn varint_encoding(v: nat) -> Seq<u8>
    decreases v,
{
    if v < 128 {
        seq![v as u8]
    } else {
        seq![(v % 128 + 128) as u8] + varint_encoding(v / 128)
    }
}

/// Result of reading a varint from `s` starting at index `i`: the decoded
/// value and the index of the first byte after it, or `None` when the bytes
/// do not form a varint acceptable for the target width.  At most `budget`
/// bytes may be consumed, and a varint that uses all of them may not carry
/// more than `last_cap` in its final byte, so that the value fits the
/// target width.  Non-canonical (overlong) encodings within the budget are
/// accepted, as they are on the wire format this mirrors.
pub open spec fn varint_value(s: Seq<u8>, i: int, budget: nat, last_cap: u8) -> Option<(nat, int)>
    decreases budget,
{
    if budget == 0 || i < 0 || i >= s.len() {
        None
    } else {
        let b = s[i];
        if b < 128 {
            if budget == 1 && b > last_cap {
                None
            } else {
                Some(((b as nat), i + 1))
            }
        } else {
            match varint_value(s, i + 1, (budget - 1) as nat, last_cap) {
                None => None,
                Some((rest, j)) => Some((((b - 128) as nat + 128 * rest), j)),
            }
        }
    }
}

/// Largest value a varint of at most `budget` bytes with final-byte cap
/// `last_cap` can decode to.
pub open spec fn varint_cap(budget: nat, last_cap: u8) -> nat
    decreases budget,
{
    if budget <= 1 {
        last_cap as nat
    } else {
        127 + 128 * varint_cap((budget - 1) as nat, last_cap)
    }
}

/// A ten-byte varint capped at one in its last byte decodes to at most
/// `u64::MAX`; a five-byte varint capped at fifteen to at most `u32::MAX`.
pub proof fn lemma_varint_cap_values()
    ensures
        varint_cap(10, 1) == u64::MAX,
        varint_cap(5, 15) == u32::MAX,
{
    reveal_with_fuel(varint_cap, 11);
}

/// Every decoded varint value stays within the cap for its budget, and the
/// reported continuation index moves forward and stays inside the buffer.
pub proof fn lemma_varint_value_bounded(s: Seq<u8>, i: int, budget: nat, last_cap: u8)
    requires
        varint_value(s, i, budget, last_cap) is Some,
    ensures
        varint_value(s, i, budget, last_cap)->Some_0.0 <= varint_cap(budget, last_cap),
        i < varint_value(s, i, budget, last_cap)->Some_0.1 <= s.len(),
    decreases budget,
{
    let b = s[i];
    if b >= 128 {
        lemma_varint_value_bounded(s, i + 1, (budget - 1) as nat, last_cap);
    }
}

/// In a decoded varint every byte but the last carries the continuation
/// bit, and the last does not.
pub proof fn lemma_varint_value_continuations(s: Seq<u8>, i: int, budget: nat, last_cap: u8)
    requires
        varint_value(s, i, budget, last_cap) is Some,
    ensures
        forall|k: int|
            i <= k < varint_value(s, i, budget, last_cap)->Some_0.1 - 1 ==> s[k] >= 128,
        s[varint_value(s, i, budget, last_cap)->Some_0.1 - 1] < 128,
    decreases budget,
{
    let b = s[i];
    if b >= 128 {
        lemma_varint_value_continuations(s, i + 1, (budget - 1) as nat, last_cap);
    }
}

/// A buffer whose every byte from `i` on carries the continuation bit
/// holds no varint at `i`: the read runs off the end or out of budget.
pub proof fn lemma_varint_incomplete(s: Seq<u8>, i: int, budget: nat, last_cap: u8)
    requires
        forall|k: int| i <= k < s.len() ==> s[k] >= 128,
    ensures
        varint_value(s, i, budget, last_cap) is None,
    decreases budget,
{
    if budget > 0 && 0 <= i < s.len() {
        lemma_varint_incomplete(s, i + 1, (budget - 1) as nat, last_cap);
    }
}

/// Shortening a buffer behind a varint's last byte does not change how the
/// varint reads.
pub proof fn lemma_varint_prefix(s: Seq<u8>, t: Seq<u8>, i: int, budget: nat, last_cap: u8)
    requires
        t.len() <= s.len(),
        t == s.subrange(0, t.len() as int),
        varint_value(s, i, budget, last_cap) is Some,
        varint_value(s, i, budget, last_cap)->Some_0.1 <= t.len(),
    ensures
        varint_value(t, i, budget, last_cap) == varint_value(s, i, budget, last_cap),
    decreases budget,
{
    lemma_varint_value_bounded(s, i, budget, last_cap);
    assert(t[i] == s[i]);
    if s[i] >= 128 {
        lemma_varint_value_bounded(s, i + 1, (budget - 1) as nat, last_cap);
        lemma_varint_prefix(s, t, i + 1, (budget - 1) as nat, last_cap);
    }
}

/// A value within the cap of a budget has a canonical encoding that fits in
/// that budget.
pub proof fn lemma_varint_encoding_len(v: nat, budget: nat, last_cap: u8)
    requires
        1 <= budget,
        last_cap < 128,
        v <= varint_cap(budget, last_cap),
    ensures
        varint_encoding(v).len() <= budget,
        varint_encoding(v).len() >= 1,
    decreases budget,
{
    if v >= 128 {
        assert(budget >= 2);
        assert(v / 128 <= varint_cap((budget - 1) as nat, last_cap)) by {
            assert(v <= 127 + 128 * varint_cap((budget - 1) as nat, last_cap));
            vstd::arithmetic::div_mod::lemma_div_is_ordered(
                v as int,
                127 + 128 * varint_cap((budget - 1) as nat, last_cap) as int,
                128,
            );
            vstd::arithmetic::div_mod::lemma_div_multiples_vanish_fancy(
                varint_cap((budget - 1) as nat, last_cap) as int,
                127,
                128,
            );
        }
        lemma_varint_encoding_len(v / 128, (budget - 1) as nat, last_cap);
    }
}

/// Reading a canonical encoding back, wherever it sits inside a larger
/// buffer, yields the encoded value and stops exactly after its last byte.
pub proof fn lemma_varint_roundtrip(s: Seq<u8>, i: int, v: nat, budget: nat, last_cap: u8)
    requires
        1 <= budget,
        last_cap < 128,
        v <= varint_cap(budget, last_cap),
        0 <= i,
        i + varint_encoding(v).len() <= s.len(),
        s.subrange(i, i + varint_encoding(v).len()) == varint_encoding(v),
    ensures
        varint_value(s, i, budget, last_cap) == Some((v, i + varint_encoding(v).len())),
    decreases budget,
{
    let enc = varint_encoding(v);
    assert(s[i] == enc[0]);
    if v < 128 {
        assert(enc =~= seq![v as u8]);
        if budget == 1 {
            assert(v <= last_cap as nat);
        }
    } else {
        lemma_varint_encoding_len(v, budget, last_cap);
        assert(budget >= 2);
        assert(v / 128 <= varint_cap((budget - 1) as nat, last_cap)) by {
            assert(v <= 127 + 128 * varint_cap((budget - 1) as nat, last_cap));
            vstd::arithmetic::div_mod::lemma_div_is_ordered(
                v as int,
                127 + 128 * varint_cap((budget - 1) as nat, last_cap) as int,
                128,
            );
            vstd::arithmetic::div_mod::lemma_div_multiples_vanish_fancy(
                varint_cap((budget - 1) as nat, last_cap) as int,
                127,
                128,
            );
        }
        let tail = varint_encoding(v / 128);
        assert(enc == seq![(v % 128 + 128) as u8] + tail);
        assert(s.subrange(i + 1, i + 1 + tail.len()) =~= tail) by {
            assert forall|k: int| 0 <= k < tail.len() implies s.subrange(
                i + 1,
                i + 1 + tail.len(),
            )[k] == tail[k] by {
                assert(s.subrange(i, i + enc.len())[k + 1] == enc[k + 1]);
            }
        }
        lemma_varint_roundtrip(s, i + 1, v / 128, (budget - 1) as nat, last_cap);
        assert(s[i] >= 128);
        assert((s[i] - 128) as nat + 128 * (v / 128) == v) by {
            assert(s[i] == (v % 128 + 128) as u8);
            assert(v % 128 + 128 * (v / 128) == v) by {
                vstd::arithmetic::div_mod::lemma_fundamental_div_mod(v as int, 128);
            }
        }
    }
}

// ---------------------------------------------------------------------------
// Executable encoder and decoder
// ---------------------------------------------------------------------------

/// Appends the canonical varint encoding of `v` to `out`.
pub fn encode_varint_u64(v: u64, out: &mut Vec<u8>)
    ensures
        final(out)@ == old(out)@ + varint_encoding(v as nat),
    decreases v,
{
    if v < 128 {
        out.push(v as u8);
        assert(final(out)@ =~= old(out)@ + varint_encoding(v as nat));
    } else {
        out.push((v % 128 + 128) as u8);
        encode_varint_u64(v / 128, out);
        assert(final(out)@ =~= old(out)@ + varint_encoding(v as nat));
    }
}

/// Reads one varint from `s` starting at `pos`, spending at most `budget`
/// bytes with final-byte cap `last_cap`.
fn decode_varint_rec(s: &[u8], pos: usize, budget: usize, last_cap: u8) -> (r: Option<(u64, usize)>)
    requires
        1 <= budget,
        varint_cap(budget as nat, last_cap) <= u64::MAX,
    ensures
        r is None <==> varint_value(s@, pos as int, budget as nat, last_cap) is None,
        r matches Some((v, j)) ==> varint_value(s@, pos as int, budget as nat, last_cap)
            == Some((v as nat, j as int)),
    decreases budget,
{
    if pos >= s.len() {
        return None;
    }
    let b = s[pos];
    if b < 128 {
        if budget == 1 && b > last_cap {
            None
        } else {
            Some((b as u64, pos + 1))
        }
    } else {
        if budget == 1 {
            return None;
        }
        assert(varint_cap((budget - 1) as nat, last_cap) <= varint_cap(budget as nat, last_cap));
        match decode_varint_rec(s, pos + 1, budget - 1, last_cap) {
            None => None,
            Some((rest, j)) => {
                proof {
                    lemma_varint_value_bounded(s@, pos as int + 1, (budget - 1) as nat, last_cap);
                }
                Some(((b - 128) as u64 + 128 * rest, j))
            },
        }
    }
}

/// Reads one varint sized for a 64-bit value.
pub fn decode_varint_u64(s: &[u8], pos: usize) -> (r: Option<(u64, usize)>)
    ensures
        r is None <==> varint_value(s@, pos as int, 10, 1) is None,
        r matches Some((v, j)) ==> varint_value(s@, pos as int, 10, 1) == Some((
            v as nat,
            j as int,
        )),
{
    proof {
        lemma_varint_cap_values();
    }
    decode_varint_rec(s, pos, 10, 1)
}

/// Reads one varint sized for a 32-bit value.
pub fn decode_varint_u32(s: &[u8], pos: usize) -> (r: Option<(u32, usize)>)
    ensures
        r is None <==> varint_value(s@, pos as int, 5, 15) is None,
        r matches Some((v, j)) ==> varint_value(s@, pos as int, 5, 15) == Some((
            v as nat,
            j as int,
        )),
{
    proof {
        lemma_varint_cap_values();
    }
    match decode_varint_rec(s, pos, 5, 15) {
        None => None,
        Some((v, j)) => {
            proof {
                lemma_varint_value_bounded(s@, pos as int, 5, 15);
            }
            Some((v as u32, j))
        },
    }
}

// ---------------------------------------------------------------------------
// Zig-zag mapping between signed and unsigned 32-bit integers
// ---------------------------------------------------------------------------

/// Zig-zag image of a signed 32-bit integer: non-negative values map to the
/// even numbers, negative ones to the odd numbers.
pub open spec fn zigzag(x: i32) -> u32 {
    if x >= 0 {
        (2 * x) as u32
    } else {
        (-2 * x - 1) as u32
    }
}

/// Inverse of the zig-zag mapping.
pub open spec fn unzigzag(v: u32) -> i32 {
    if v % 2 == 0 {
        (v / 2) as i32
    } else {
        (-((v + 1) / 2)) as i32
    }
}

/// The zig-zag mapping round-trips on every signed 32-bit integer.
pub proof fn lemma_zigzag_roundtrip(x: i32)
    ensures
        unzigzag(zigzag(x)) == x,
{
}

pub fn zigzag_encode(x: i32) -> (r: u32)
    ensures
        r == zigzag(x),
{
    if x >= 0 {
        (x as u32) * 2
    } else {
        ((-(x + 1)) as u32) * 2 + 1
    }
}

pub fn zigzag_decode(v: u32) -> (r: i32)
    ensures
        r == unzigzag(v),
{
    if v % 2 == 0 {
        (v / 2) as i32
    } else {
        -(((v - 1) / 2) as i32) - 1
    }
}

} // verus!
