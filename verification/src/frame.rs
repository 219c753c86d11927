//! Framing of the binary protocol: every word is prefixed by its byte
//! length, written in a variable-width form whose leading bits say how many
//! bytes the length itself takes.

use vstd::prelude::*;

verus! {

/// How many bytes the minimal encoding of `n` takes.
pub open spec fn len_width(n: u32) -> nat {
    if n < 0x80 {
        1
    } else if n < 0x4000 {
        2
    } else if n < 0x20_0000 {
        3
    } else if n < 0x1000_0000 {
        4
    } else {
        5
    }
}

/// The minimal encoding of `n`: the value big-endian, under a leading-bit
/// pattern (`0`, `10`, `110`, `1110`, `11110`) that gives the width.
pub open spec fn spec_encode_len(n: u32) -> Seq<u8> {
    if n < 0x80 {
        seq![n as u8]
    } else if n < 0x4000 {
        seq![(0x80 | (n >> 8)) as u8, (n & 0xFF) as u8]
    } else if n < 0x20_0000 {
        seq![(0xC0 | (n >> 16)) as u8, ((n >> 8) & 0xFF) as u8, (n & 0xFF) as u8]
    } else if n < 0x1000_0000 {
        seq![
            (0xE0 | (n >> 24)) as u8,
            ((n >> 16) & 0xFF) as u8,
            ((n >> 8) & 0xFF) as u8,
            (n & 0xFF) as u8,
        ]
    } else {
        seq![
            0xF0u8,
            ((n >> 24) & 0xFF) as u8,
            ((n >> 16) & 0xFF) as u8,
            ((n >> 8) & 0xFF) as u8,
            (n & 0xFF) as u8,
        ]
    }
}

/// How many bytes follow the first byte of a length, or `None` for a first
/// byte that is no valid length prefix.
pub open spec fn spec_len_extra(c: u8) -> Option<nat> {
    if c & 0x80 == 0 {
        Some(0)
    } else if c & 0xC0 == 0x80 {
        Some(1)
    } else if c & 0xE0 == 0xC0 {
        Some(2)
    } else if c & 0xF0 == 0xE0 {
        Some(3)
    } else if c & 0xF8 == 0xF0 {
        Some(4)
    } else {
        None
    }
}

/// Reads a length at the front of `bytes`: the value and how many bytes it
/// took.  `None` for an unsupported prefix pattern, a truncated buffer, or a
/// five-byte form whose value would not fit 32 bits.
pub open spec fn spec_decode_len(bytes: Seq<u8>) -> Option<(u32, int)> {
    if bytes.len() == 0 {
        None
    } else {
        let c = bytes[0];
        if c & 0x80 == 0 {
            Some((c as u32, 1))
        } else if c & 0xC0 == 0x80 {
            if bytes.len() >= 2 {
                Some(((((c & 0x3F) as u32) << 8) | bytes[1] as u32, 2))
            } else {
                None
            }
        } else if c & 0xE0 == 0xC0 {
            if bytes.len() >= 3 {
                Some(
                    (
                        (((c & 0x1F) as u32) << 16) | ((bytes[1] as u32) << 8) | bytes[2] as u32,
                        3,
                    ),
                )
            } else {
                None
            }
        } else if c & 0xF0 == 0xE0 {
            if bytes.len() >= 4 {
                Some(
                    (
                        (((c & 0x0F) as u32) << 24) | ((bytes[1] as u32) << 16) | ((
                        bytes[2] as u32) << 8) | bytes[3] as u32,
                        4,
                    ),
                )
            } else {
                None
            }
        } else if c == 0xF0 {
            if bytes.len() >= 5 {
                Some(
                    (
                        ((bytes[1] as u32) << 24) | ((bytes[2] as u32) << 16) | ((
                        bytes[3] as u32) << 8) | bytes[4] as u32,
                        5,
                    ),
                )
            } else {
                None
            }
        } else {
            None
        }
    }
}

/// Writes the minimal length prefix for `n`.
pub fn encode_len(n: u32) -> (r: Vec<u8>)
    ensures
        r@ == spec_encode_len(n),
        r@.len() == len_width(n),
{
    let mut out: Vec<u8> = Vec::new();
    if n < 0x80 {
        out.push(n as u8);
    } else if n < 0x4000 {
        out.push((0x80 | (n >> 8)) as u8);
        out.push((n & 0xFF) as u8);
    } else if n < 0x20_0000 {
        out.push((0xC0 | (n >> 16)) as u8);
        out.push(((n >> 8) & 0xFF) as u8);
        out.push((n & 0xFF) as u8);
    } else if n < 0x1000_0000 {
        out.push((0xE0 | (n >> 24)) as u8);
        out.push(((n >> 16) & 0xFF) as u8);
        out.push(((n >> 8) & 0xFF) as u8);
        out.push((n & 0xFF) as u8);
    } else {
        out.push(0xF0);
        out.push(((n >> 24) & 0xFF) as u8);
        out.push(((n >> 16) & 0xFF) as u8);
        out.push(((n >> 8) & 0xFF) as u8);
        out.push((n & 0xFF) as u8);
    }
    proof {
        assert(out@ =~= spec_encode_len(n));
    }
    out
}

/// How many more bytes a length needs after its first byte; `None` says the
/// first byte is no valid length prefix.
pub fn len_extra_bytes(c: u8) -> (r: Option<u8>)
    ensures
        match r {
            Some(k) => spec_len_extra(c) == Some(k as nat),
            None => spec_len_extra(c) is None,
        },
{
    if c & 0x80 == 0 {
        Some(0)
    } else if c & 0xC0 == 0x80 {
        Some(1)
    } else if c & 0xE0 == 0xC0 {
        Some(2)
    } else if c & 0xF0 == 0xE0 {
        Some(3)
    } else if c & 0xF8 == 0xF0 {
        Some(4)
    } else {
        None
    }
}

/// Reads a length from the front of `bytes`, starting at `start`; gives the
/// value and the position after it.
pub fn decode_len(bytes: &Vec<u8>, start: usize) -> (r: Option<(u32, usize)>)
    requires
        start <= bytes@.len(),
    ensures
        match r {
            Some((n, end)) => start <= end <= bytes@.len() && spec_decode_len(
                bytes@.skip(start as int),
            ) == Some((n, end - start)),
            None => spec_decode_len(bytes@.skip(start as int)) is None,
        },
{
    let avail = bytes.len() - start;
    if avail == 0 {
        return None;
    }
    let c = bytes[start];
    proof {
        assert(bytes@.skip(start as int)[0] == c);
        assert(bytes@.skip(start as int).len() == avail);
    }
    if c & 0x80 == 0 {
        Some((c as u32, start + 1))
    } else if c & 0xC0 == 0x80 {
        if avail >= 2 {
            let b1 = bytes[start + 1];
            proof {
                assert(bytes@.skip(start as int)[1] == b1);
            }
            Some(((((c & 0x3F) as u32) << 8) | b1 as u32, start + 2))
        } else {
            None
        }
    } else if c & 0xE0 == 0xC0 {
        if avail >= 3 {
            let b1 = bytes[start + 1];
            let b2 = bytes[start + 2];
            proof {
                assert(bytes@.skip(start as int)[1] == b1);
                assert(bytes@.skip(start as int)[2] == b2);
            }
            Some(((((c & 0x1F) as u32) << 16) | ((b1 as u32) << 8) | b2 as u32, start + 3))
        } else {
            None
        }
    } else if c & 0xF0 == 0xE0 {
        if avail >= 4 {
            let b1 = bytes[start + 1];
            let b2 = bytes[start + 2];
            let b3 = bytes[start + 3];
            proof {
                assert(bytes@.skip(start as int)[1] == b1);
                assert(bytes@.skip(start as int)[2] == b2);
                assert(bytes@.skip(start as int)[3] == b3);
            }
            Some(
                (
                    (((c & 0x0F) as u32) << 24) | ((b1 as u32) << 16) | ((b2 as u32) << 8)
                        | b3 as u32,
                    start + 4,
                ),
            )
        } else {
            None
        }
    } else if c == 0xF0 {
        if avail >= 5 {
            let b1 = bytes[start + 1];
            let b2 = bytes[start + 2];
            let b3 = bytes[start + 3];
            let b4 = bytes[start + 4];
            proof {
                assert(bytes@.skip(start as int)[1] == b1);
                assert(bytes@.skip(start as int)[2] == b2);
                assert(bytes@.skip(start as int)[3] == b3);
                assert(bytes@.skip(start as int)[4] == b4);
            }
            Some(
                (
                    ((b1 as u32) << 24) | ((b2 as u32) << 16) | ((b3 as u32) << 8) | b4 as u32,
                    start + 5,
                ),
            )
        } else {
            None
        }
    } else {
        None
    }
}

/// Length round trip: decoding a freshly encoded length gives the value and
/// consumes exactly its width.
pub proof fn lemma_len_round_trip(n: u32)
    ensures
        spec_decode_len(spec_encode_len(n)) == Some((n, len_width(n) as int)),
{
    let e = spec_encode_len(n);
    if n < 0x80 {
        assert(e[0] == n as u8);
        assert((n as u8) & 0x80 == 0 && (n as u8) as u32 == n) by (bit_vector)
            requires
                n < 0x80,
        ;
    } else if n < 0x4000 {
        let b0 = (0x80 | (n >> 8)) as u8;
        let b1 = (n & 0xFF) as u8;
        assert(b0 & 0x80 != 0 && b0 & 0xC0 == 0x80 && ((((b0 & 0x3F) as u32) << 8) | b1 as u32)
            == n) by (bit_vector)
            requires
                b0 == (0x80 | (n >> 8)) as u8,
                b1 == (n & 0xFF) as u8,
                0x80 <= n < 0x4000,
        ;
    } else if n < 0x20_0000 {
        let b0 = (0xC0 | (n >> 16)) as u8;
        let b1 = ((n >> 8) & 0xFF) as u8;
        let b2 = (n & 0xFF) as u8;
        assert(b0 & 0x80 != 0 && b0 & 0xC0 != 0x80 && b0 & 0xE0 == 0xC0 && ((((b0
            & 0x1F) as u32) << 16) | ((b1 as u32) << 8) | b2 as u32) == n) by (bit_vector)
            requires
                b0 == (0xC0 | (n >> 16)) as u8,
                b1 == ((n >> 8) & 0xFF) as u8,
                b2 == (n & 0xFF) as u8,
                0x4000 <= n < 0x20_0000,
        ;
    } else if n < 0x1000_0000 {
        let b0 = (0xE0 | (n >> 24)) as u8;
        let b1 = ((n >> 16) & 0xFF) as u8;
        let b2 = ((n >> 8) & 0xFF) as u8;
        let b3 = (n & 0xFF) as u8;
        assert(b0 & 0x80 != 0 && b0 & 0xC0 != 0x80 && b0 & 0xE0 != 0xC0 && b0 & 0xF0 == 0xE0
            && ((((b0 & 0x0F) as u32) << 24) | ((b1 as u32) << 16) | ((b2 as u32) << 8)
            | b3 as u32) == n) by (bit_vector)
            requires
                b0 == (0xE0 | (n >> 24)) as u8,
                b1 == ((n >> 16) & 0xFF) as u8,
                b2 == ((n >> 8) & 0xFF) as u8,
                b3 == (n & 0xFF) as u8,
                0x20_0000 <= n < 0x1000_0000,
        ;
    } else {
        let b1 = ((n >> 24) & 0xFF) as u8;
        let b2 = ((n >> 16) & 0xFF) as u8;
        let b3 = ((n >> 8) & 0xFF) as u8;
        let b4 = (n & 0xFF) as u8;
        assert(0xF0u8 & 0x80 != 0 && 0xF0u8 & 0xC0 != 0x80 && 0xF0u8 & 0xE0 != 0xC0 && 0xF0u8
            & 0xF0 != 0xE0 && (((b1 as u32) << 24) | ((b2 as u32) << 16) | ((b3 as u32) << 8)
            | b4 as u32) == n) by (bit_vector)
            requires
                b1 == ((n >> 24) & 0xFF) as u8,
                b2 == ((n >> 16) & 0xFF) as u8,
                b3 == ((n >> 8) & 0xFF) as u8,
                b4 == (n & 0xFF) as u8,
                0x1000_0000 <= n,
        ;
    }
}

/// Minimality: any valid encoding of a value is at least as wide as the
/// minimal width, so the encoder's output is the shortest possible.
pub proof fn lemma_len_minimal(bytes: Seq<u8>, n: u32, k: int)
    ensures
        spec_decode_len(bytes) == Some((n, k)) ==> k >= len_width(n),
{
    if spec_decode_len(bytes) == Some((n, k)) {
        let c = bytes[0];
        if c & 0x80 == 0 {
            assert(c & 0x80 == 0 ==> (c as u32) < 0x80) by (bit_vector);
        } else if c & 0xC0 == 0x80 {
            let b1 = bytes[1];
            assert(((((c & 0x3F) as u32) << 8) | b1 as u32) < 0x4000) by (bit_vector);
        } else if c & 0xE0 == 0xC0 {
            let b1 = bytes[1];
            let b2 = bytes[2];
            assert(((((c & 0x1F) as u32) << 16) | ((b1 as u32) << 8) | b2 as u32) < 0x20_0000)
                by (bit_vector);
        } else if c & 0xF0 == 0xE0 {
            let b1 = bytes[1];
            let b2 = bytes[2];
            let b3 = bytes[3];
            assert(((((c & 0x0F) as u32) << 24) | ((b1 as u32) << 16) | ((b2 as u32) << 8)
                | b3 as u32) < 0x1000_0000) by (bit_vector);
        }
    }
}

} // verus!
