//! Little-endian bytes and the compact (variable-length) integer encoding
//! used throughout the bridge message wire format.
//!
//! A compact integer is written in one of four modes, chosen by the two low
//! bits of the first byte: a single byte for values below `2^6`, two bytes
//! below `2^14`, four bytes below `2^30`, and a length-prefixed little-endian
//! form above that. The decoder accepts only the canonical (shortest) form of
//! each value, so every value has exactly one encoding.

use vstd::prelude::*;

verus! {

use vstd::arithmetic::div_mod::{
    lemma_fundamental_div_mod,
    lemma_fundamental_div_mod_converse,
    lemma_mod_mod,
};

/// Why a blob was rejected by the decoder.
#[derive(Clone, Copy, Debug, PartialEq, Eq, Structural)]
pub enum DecodeError {
    /// The input ended before a complete value was read.
    Truncated,
    /// A version tag that this codec does not understand.
    UnknownVersion,
    /// An unknown enum index, a non-canonical integer, or another malformed payload.
    Malformed,
    /// Bytes remained after the outermost value was fully decoded.
    Trailing,
}

/// `256^n`.
pub open spec fn pow256(n: nat) -> nat
    decreases n,
{
    if n == 0 {
        1
    } else {
        256 * pow256((n - 1) as nat)
    }
}

pub proof fn lemma_pow256_values()
    ensures
        pow256(0) == 1,
        pow256(1) == 0x100,
        pow256(2) == 0x1_0000,
        pow256(3) == 0x100_0000,
        pow256(4) == 0x1_0000_0000,
        pow256(5) == 0x100_0000_0000,
        pow256(6) == 0x1_0000_0000_0000,
        pow256(7) == 0x100_0000_0000_0000,
        pow256(8) == 0x1_0000_0000_0000_0000,
{
    assert(pow256(1) == 256 * pow256(0));
    assert(pow256(2) == 256 * pow256(1));
    assert(pow256(3) == 256 * pow256(2));
    assert(pow256(4) == 256 * pow256(3));
    assert(pow256(5) == 256 * pow256(4));
    assert(pow256(6) == 256 * pow256(5));
    assert(pow256(7) == 256 * pow256(6));
    assert(pow256(8) == 256 * pow256(7));
}

/// The `n` little-endian bytes of `v`.
pub open spec fn spec_le_bytes(v: nat, n: nat) -> Seq<u8>
    decreases n,
{
    if n == 0 {
        Seq::empty()
    } else {
        seq![(v % 256) as u8] + spec_le_bytes(v / 256, (n - 1) as nat)
    }
}

/// The value of a little-endian byte string.
pub open spec fn spec_le_value(s: Seq<u8>) -> nat
    decreases s.len(),
{
    if s.len() == 0 {
        0
    } else {
        (s[0] + 256 * spec_le_value(s.subrange(1, s.len() as int))) as nat
    }
}

pub proof fn lemma_le_bytes_len(v: nat, n: nat)
    ensures
        spec_le_bytes(v, n).len() == n,
    decreases n,
{
    if n > 0 {
        lemma_le_bytes_len(v / 256, (n - 1) as nat);
    }
}

pub proof fn lemma_le_value_of_le_bytes(v: nat, n: nat)
    requires
        v < pow256(n),
    ensures
        spec_le_value(spec_le_bytes(v, n)) == v,
    decreases n,
{
    if n == 0 {
    } else {
        let s = spec_le_bytes(v, n);
        lemma_le_bytes_len(v / 256, (n - 1) as nat);
        assert(s.subrange(1, s.len() as int) =~= spec_le_bytes(v / 256, (n - 1) as nat));
        assert(v / 256 < pow256((n - 1) as nat)) by {
            assert(pow256(n) == 256 * pow256((n - 1) as nat));
            lemma_fundamental_div_mod(v as int, 256);
        }
        lemma_le_value_of_le_bytes(v / 256, (n - 1) as nat);
        lemma_fundamental_div_mod(v as int, 256);
    }
}

pub proof fn lemma_le_value_bound(s: Seq<u8>)
    ensures
        spec_le_value(s) < pow256(s.len()),
    decreases s.len(),
{
    if s.len() == 0 {
    } else {
        let rest = s.subrange(1, s.len() as int);
        lemma_le_value_bound(rest);
        assert(pow256(s.len()) == 256 * pow256((s.len() - 1) as nat));
        assert(s[0] + 256 * spec_le_value(rest) < 256 * pow256(rest.len())) by (nonlinear_arith)
            requires
                s[0] < 256,
                spec_le_value(rest) < pow256(rest.len()),
        ;
    }
}

/// How many little-endian bytes the big mode of the compact encoding uses.
pub open spec fn spec_compact_big_len(v: u64) -> nat {
    if v < 0x1_0000_0000 {
        4
    } else if v < 0x100_0000_0000 {
        5
    } else if v < 0x1_0000_0000_0000 {
        6
    } else if v < 0x100_0000_0000_0000 {
        7
    } else {
        8
    }
}

/// The canonical compact encoding of `v`.
pub open spec fn spec_compact(v: u64) -> Seq<u8> {
    if v < 64 {
        seq![(v * 4) as u8]
    } else if v < 16384 {
        spec_le_bytes((v * 4 + 1) as nat, 2)
    } else if v < 0x4000_0000 {
        spec_le_bytes((v * 4 + 2) as nat, 4)
    } else {
        let n = spec_compact_big_len(v);
        seq![(((n - 4) * 4 + 3) as u8)] + spec_le_bytes(v as nat, n)
    }
}

pub proof fn lemma_compact_len(v: u64)
    ensures
        spec_compact(v).len() == (if v < 64 {
            1int
        } else if v < 16384 {
            2
        } else if v < 0x4000_0000 {
            4
        } else {
            1 + spec_compact_big_len(v) as int
        }),
        1 <= spec_compact(v).len() <= 9,
{
    if v < 64 {
    } else if v < 16384 {
        lemma_le_bytes_len((v * 4 + 1) as nat, 2);
    } else if v < 0x4000_0000 {
        lemma_le_bytes_len((v * 4 + 2) as nat, 4);
    } else {
        lemma_le_bytes_len(v as nat, spec_compact_big_len(v));
    }
}

/// Decodes one compact integer at position `i`; on success returns the value
/// and the position just past it. Non-canonical forms are rejected.
pub open spec fn sdec_compact(s: Seq<u8>, i: int) -> Result<(u64, int), DecodeError> {
    if !(0 <= i < s.len()) {
        Err(DecodeError::Truncated)
    } else {
        let p = s[i] as int;
        let mode = p % 4;
        if mode == 0 {
            Ok(((p / 4) as u64, i + 1))
        } else if mode == 1 {
            if s.len() < i + 2 {
                Err(DecodeError::Truncated)
            } else {
                let x = (p + 256 * s[i + 1]) / 4;
                if 64 <= x <= 16383 {
                    Ok((x as u64, i + 2))
                } else {
                    Err(DecodeError::Malformed)
                }
            }
        } else if mode == 2 {
            if s.len() < i + 4 {
                Err(DecodeError::Truncated)
            } else {
                let x = spec_le_value(s.subrange(i, i + 4)) / 4;
                if 16384 <= x < 0x4000_0000 {
                    Ok((x as u64, i + 4))
                } else {
                    Err(DecodeError::Malformed)
                }
            }
        } else {
            let n = p / 4 + 4;
            if n > 8 {
                Err(DecodeError::Malformed)
            } else if s.len() < i + 1 + n {
                Err(DecodeError::Truncated)
            } else {
                let x = spec_le_value(s.subrange(i + 1, i + 1 + n));
                let min: nat = if n == 4 {
                    0x4000_0000
                } else {
                    pow256((n - 1) as nat)
                };
                if x >= min {
                    Ok((x as u64, i + 1 + n))
                } else {
                    Err(DecodeError::Malformed)
                }
            }
        }
    }
}

/// Decoding starts where the canonical encoding of `v` was laid down, so it
/// yields `v` back and stops exactly at the encoding's end.
pub proof fn lemma_compact_round_trip(v: u64, s: Seq<u8>, i: int)
    requires
        0 <= i,
        i + spec_compact(v).len() <= s.len(),
        s.subrange(i, i + spec_compact(v).len() as int) == spec_compact(v),
    ensures
        sdec_compact(s, i) == Ok::<(u64, int), DecodeError>((v, i + spec_compact(v).len())),
{
    lemma_compact_len(v);
    let enc = spec_compact(v);
    assert(forall|k: int| 0 <= k < enc.len() ==> s[i + k] == #[trigger] enc[k]) by {
        assert(forall|k: int|
            0 <= k < enc.len() ==> #[trigger] s.subrange(i, i + enc.len() as int)[k] == s[i + k]);
    }
    if v < 64 {
        assert(enc[0] == (v * 4) as u8);
        assert(s[i + 0] == enc[0]);
        lemma_fundamental_div_mod_converse(v * 4, 4, v as int, 0);
    } else if v < 16384 {
        let w = (v * 4 + 1) as nat;
        lemma_fundamental_div_mod(w as int, 256);
        assert(enc[0] == (w % 256) as u8);
        assert(enc[1] == ((w / 256) % 256) as u8) by {
            assert(enc.subrange(1, 2) =~= spec_le_bytes(w / 256, 1));
        }
        assert(w / 256 < 256);
        vstd::arithmetic::div_mod::lemma_small_mod(w / 256, 256);
        let p = s[i] as int;
        assert(p == w % 256);
        lemma_mod_mod(w as int, 64, 4);
        lemma_fundamental_div_mod_converse(w as int, 4, v as int, 1);
        assert(p % 4 == 1);
        assert(p + 256 * s[i + 1] == w);
        assert((p + 256 * s[i + 1]) / 4 == v as int);
    } else if v < 0x4000_0000 {
        let w = (v * 4 + 2) as nat;
        lemma_le_bytes_len(w, 4);
        assert(s.subrange(i, i + 4) =~= spec_le_bytes(w, 4));
        lemma_pow256_values();
        lemma_le_value_of_le_bytes(w, 4);
        assert(enc[0] == (w % 256) as u8);
        let p = s[i] as int;
        assert(p == w % 256);
        lemma_mod_mod(w as int, 64, 4);
        lemma_fundamental_div_mod_converse(w as int, 4, v as int, 2);
        assert(p % 4 == 2);
        assert(spec_le_value(s.subrange(i, i + 4)) / 4 == v as int);
    } else {
        let n = spec_compact_big_len(v);
        lemma_pow256_values();
        let prefix = ((n - 4) * 4 + 3) as int;
        assert(enc[0] == prefix as u8);
        let p = s[i] as int;
        assert(p == prefix);
        lemma_fundamental_div_mod_converse(prefix, 4, (n - 4) as int, 3);
        assert(p % 4 == 3);
        assert(p / 4 + 4 == n);
        lemma_le_bytes_len(v as nat, n);
        assert(s.subrange(i + 1, i + 1 + n as int) =~= spec_le_bytes(v as nat, n)) by {
            assert(forall|k: int|
                0 <= k < n ==> s[i + 1 + k] == enc[1 + k] && enc[1 + k] == spec_le_bytes(
                    v as nat,
                    n,
                )[k]);
        }
        assert(v < pow256(n));
        lemma_le_value_of_le_bytes(v as nat, n);
    }
}

/// Appends the `n` little-endian bytes of `v`.
pub fn push_le_bytes(v: u64, n: usize, out: &mut Vec<u8>)
    requires
        n <= 8,
    ensures
        final(out)@ == old(out)@ + spec_le_bytes(v as nat, n as nat),
{
    let mut cur = v;
    let mut k: usize = 0;
    while k < n
        invariant
            k <= n,
            n <= 8,
            old(out)@ + spec_le_bytes(v as nat, n as nat) == out@ + spec_le_bytes(
                cur as nat,
                (n - k) as nat,
            ),
        decreases n - k,
    {
        let ghost pre = out@;
        let ghost cur0 = cur as nat;
        let ghost rem = (n - k) as nat;
        out.push((cur % 256) as u8);
        cur = cur / 256;
        k += 1;
        proof {
            assert(spec_le_bytes(cur0, rem) == seq![(cur0 % 256) as u8] + spec_le_bytes(
                cur0 / 256,
                (rem - 1) as nat,
            ));
            assert(pre + spec_le_bytes(cur0, rem) =~= out@ + spec_le_bytes(
                cur as nat,
                (n - k) as nat,
            ));
        }
    }
    proof {
        assert(out@ + spec_le_bytes(cur as nat, 0) =~= out@);
    }
}

/// Reads `n` little-endian bytes starting at `pos`.
pub fn read_le_bytes(s: &Vec<u8>, pos: usize, n: usize) -> (v: u64)
    requires
        n <= 8,
        pos + n <= s@.len(),
    ensures
        v as nat == spec_le_value(s@.subrange(pos as int, pos + n)),
{
    let slen = s.len();
    let mut cur: u64 = 0;
    let mut k: usize = 0;
    proof {
        lemma_pow256_values();
    }
    while k < n
        invariant
            k <= n,
            n <= 8,
            pos + n <= s@.len(),
            s@.len() == slen,
            cur as nat == spec_le_value(s@.subrange(pos + n - k, pos + n as int)),
            cur < pow256(k as nat),
            pow256(8) == 0x1_0000_0000_0000_0000,
        decreases n - k,
    {
        proof {
            lemma_pow256_values();
            assert(pow256(k as nat) <= pow256(7)) by {
                assert(k <= 7);
                if k == 0 {
                } else if k == 1 {
                } else {
                }
                assert(pow256(0) < pow256(1) < pow256(2) < pow256(3) < pow256(4) < pow256(5)
                    < pow256(6) < pow256(7));
            }
        }
        let b = s[pos + (n - 1 - k)];
        let ghost prev = s@.subrange(pos + n - k, pos + n as int);
        cur = cur * 256 + (b as u64);
        k += 1;
        proof {
            let now = s@.subrange(pos + n - k, pos + n as int);
            assert(now[0] == b);
            assert(now.subrange(1, now.len() as int) =~= prev);
            assert(cur as nat == now[0] + 256 * spec_le_value(prev));
            assert(cur < pow256(k as nat)) by (nonlinear_arith)
                requires
                    cur as nat == b + 256 * spec_le_value(prev),
                    b < 256,
                    spec_le_value(prev) < pow256((k - 1) as nat),
                    pow256(k as nat) == 256 * pow256((k - 1) as nat),
            {
            }
        }
    }
    proof {
        assert(s@.subrange(pos + n - k, pos + n as int) =~= s@.subrange(pos as int, pos + n));
    }
    cur
}

/// Appends the canonical compact encoding of `v`.
pub fn encode_compact(v: u64, out: &mut Vec<u8>)
    ensures
        final(out)@ == old(out)@ + spec_compact(v),
{
    if v < 64 {
        out.push((v as u8) * 4);
        proof {
            assert(out@ =~= old(out)@ + spec_compact(v));
        }
    } else if v < 16384 {
        push_le_bytes(v * 4 + 1, 2, out);
    } else if v < 0x4000_0000 {
        push_le_bytes(v * 4 + 2, 4, out);
    } else {
        let n: usize = if v < 0x1_0000_0000 {
            4
        } else if v < 0x100_0000_0000 {
            5
        } else if v < 0x1_0000_0000_0000 {
            6
        } else if v < 0x100_0000_0000_0000 {
            7
        } else {
            8
        };
        let ghost pre = out@;
        out.push(((n as u8) - 4) * 4 + 3);
        push_le_bytes(v, n, out);
        proof {
            assert(out@ =~= pre + spec_compact(v));
        }
    }
}

/// Decodes one compact integer at `pos`, as [`sdec_compact`] describes.
pub fn decode_compact(s: &Vec<u8>, pos: usize) -> (r: Result<(u64, usize), DecodeError>)
    ensures
        (match sdec_compact(s@, pos as int) {
            Ok(pair) => r is Ok && r->Ok_0.0 == pair.0 && r->Ok_0.1 as int == pair.1,
            Err(e) => r is Err && r->Err_0 == e,
        }),
{
    if pos >= s.len() {
        return Err(DecodeError::Truncated);
    }
    let p = s[pos];
    let mode = p % 4;
    if mode == 0 {
        Ok(((p / 4) as u64, pos + 1))
    } else if mode == 1 {
        if s.len() - pos < 2 {
            return Err(DecodeError::Truncated);
        }
        let x = ((p as u32) + 256 * (s[pos + 1] as u32)) / 4;
        if 64 <= x && x <= 16383 {
            Ok((x as u64, pos + 2))
        } else {
            Err(DecodeError::Malformed)
        }
    } else if mode == 2 {
        if s.len() - pos < 4 {
            return Err(DecodeError::Truncated);
        }
        let w = read_le_bytes(s, pos, 4);
        let x = w / 4;
        proof {
            lemma_pow256_values();
            lemma_le_value_bound(s@.subrange(pos as int, pos + 4));
        }
        if 16384 <= x && x < 0x4000_0000 {
            Ok((x, pos + 4))
        } else {
            Err(DecodeError::Malformed)
        }
    } else {
        let n = (p / 4) as usize + 4;
        if n > 8 {
            return Err(DecodeError::Malformed);
        }
        if s.len() - (pos + 1) < n || s.len() == pos + 1 {
            return Err(DecodeError::Truncated);
        }
        let x = read_le_bytes(s, pos + 1, n);
        let min: u64 = if n == 4 {
            0x4000_0000
        } else if n == 5 {
            0x1_0000_0000
        } else if n == 6 {
            0x100_0000_0000
        } else if n == 7 {
            0x1_0000_0000_0000
        } else {
            0x100_0000_0000_0000
        };
        proof {
            lemma_pow256_values();
        }
        if x >= min {
            Ok((x, pos + 1 + n))
        } else {
            Err(DecodeError::Malformed)
        }
    }
}

} // verus!
