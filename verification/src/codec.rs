//! Bounded, deterministic binary codec for gossip records.
//!
//! The wire form of a record is, in fixed order with no padding: the
//! payload length as a 4-byte big-endian integer, the payload bytes, and
//! the endpoint (a 1-byte tag, then for an IP endpoint the address bytes
//! and a 2-byte big-endian port). Two structurally equal records always
//! produce byte-identical output.
//!
//! A hard limit [`SIZE_LIMIT`] bounds the serialized size of a single
//! record on both paths: encoding a record whose wire form would be larger
//! fails with [`EncodeError::TooLarge`], and decoding refuses an input
//! longer than the limit with [`DecodeError::LimitExceeded`] before looking
//! at it, so a malicious or corrupted input cannot force unbounded work.
//! Decoding is all-or-nothing: structurally invalid input fails with
//! [`DecodeError::Malformed`], and leftover bytes after a complete record
//! fail with [`DecodeError::TrailingBytes`].

use vstd::prelude::*;

use crate::addr::Address;
use crate::addr::IpSocket;
use crate::addr::Ipv4;
use crate::addr::Ipv6;
use crate::gossip::Gossip;
use crate::gossip::Profile;

verus! {

/// Upper bound, in bytes, on the serialized size of a single gossip
/// record. Callers may pre-size buffers with it or reject oversized inputs
/// before decoding.
pub const SIZE_LIMIT: usize = 512 * 1024;

/// Why encoding a record failed.
#[derive(Clone, Copy, Debug, PartialEq, Eq, Structural)]
pub enum EncodeError {
    /// The serialized size would exceed [`SIZE_LIMIT`].
    TooLarge,
}

/// Why decoding a record failed.
#[derive(Clone, Copy, Debug, PartialEq, Eq, Structural)]
pub enum DecodeError {
    /// The input would require consuming more than [`SIZE_LIMIT`] bytes.
    LimitExceeded,
    /// The input is structurally invalid: a truncated field or an unknown
    /// endpoint tag.
    Malformed,
    /// Bytes remain after a complete record.
    TrailingBytes,
}

/// The two big-endian bytes of a 16-bit value.
pub open spec fn spec_be16(n: int) -> Seq<u8> {
    seq![((n / 256) % 256) as u8, (n % 256) as u8]
}

/// The value read back from two big-endian bytes.
pub open spec fn spec_be16_val(s: Seq<u8>) -> int {
    s[0] * 256 + s[1]
}

/// The four big-endian bytes of a 32-bit value.
pub open spec fn spec_be32(n: int) -> Seq<u8> {
    seq![
        ((n / 0x1000000) % 256) as u8,
        ((n / 0x10000) % 256) as u8,
        ((n / 0x100) % 256) as u8,
        (n % 256) as u8,
    ]
}

/// The value read back from four big-endian bytes.
pub open spec fn spec_be32_val(s: Seq<u8>) -> int {
    s[0] * 0x1000000 + s[1] * 0x10000 + s[2] * 0x100 + s[3]
}

/// The wire form of an optional endpoint: a tag byte, then the address and
/// port bytes for an IP endpoint.
pub open spec fn spec_addr_enc(a: Option<Address>) -> Seq<u8> {
    match a {
        None => seq![0u8],
        Some(Address::Unresolved) => seq![1u8],
        Some(Address::Ip(IpSocket::V4(ip, port))) => seq![2u8, ip.o0, ip.o1, ip.o2, ip.o3]
            + spec_be16(port as int),
        Some(Address::Ip(IpSocket::V6(ip, port))) => seq![3u8] + spec_be16(ip.s0 as int)
            + spec_be16(ip.s1 as int) + spec_be16(ip.s2 as int) + spec_be16(ip.s3 as int)
            + spec_be16(ip.s4 as int) + spec_be16(ip.s5 as int) + spec_be16(ip.s6 as int)
            + spec_be16(ip.s7 as int) + spec_be16(port as int),
    }
}

/// The wire form of a whole record: big-endian payload length, payload,
/// endpoint.
pub open spec fn spec_encoding(payload: Seq<u8>, addr: Option<Address>) -> Seq<u8> {
    spec_be32(payload.len() as int) + payload + spec_addr_enc(addr)
}

/// Parse an endpoint from the bytes that follow the payload: the endpoint
/// value and how many bytes it took, or the decoding error.
pub open spec fn spec_addr_dec(rest: Seq<u8>) -> Result<(Option<Address>, int), DecodeError> {
    if rest.len() < 1 {
        Err(DecodeError::Malformed)
    } else if rest[0] == 0 {
        Ok((None, 1))
    } else if rest[0] == 1 {
        Ok((Some(Address::Unresolved), 1))
    } else if rest[0] == 2 {
        if rest.len() < 7 {
            Err(DecodeError::Malformed)
        } else {
            Ok(
                (
                    Some(
                        Address::Ip(
                            IpSocket::V4(
                                Ipv4 { o0: rest[1], o1: rest[2], o2: rest[3], o3: rest[4] },
                                spec_be16_val(rest.subrange(5, 7)) as u16,
                            ),
                        ),
                    ),
                    7,
                ),
            )
        }
    } else if rest[0] == 3 {
        if rest.len() < 19 {
            Err(DecodeError::Malformed)
        } else {
            Ok(
                (
                    Some(
                        Address::Ip(
                            IpSocket::V6(
                                Ipv6 {
                                    s0: spec_be16_val(rest.subrange(1, 3)) as u16,
                                    s1: spec_be16_val(rest.subrange(3, 5)) as u16,
                                    s2: spec_be16_val(rest.subrange(5, 7)) as u16,
                                    s3: spec_be16_val(rest.subrange(7, 9)) as u16,
                                    s4: spec_be16_val(rest.subrange(9, 11)) as u16,
                                    s5: spec_be16_val(rest.subrange(11, 13)) as u16,
                                    s6: spec_be16_val(rest.subrange(13, 15)) as u16,
                                    s7: spec_be16_val(rest.subrange(15, 17)) as u16,
                                },
                                spec_be16_val(rest.subrange(17, 19)) as u16,
                            ),
                        ),
                    ),
                    19,
                ),
            )
        }
    } else {
        Err(DecodeError::Malformed)
    }
}

/// What decoding a byte string yields: the payload and endpoint of the one
/// record it encodes, or the decoding error, in this order of checks: the
/// size limit on the whole input, then structure, then trailing bytes.
pub open spec fn spec_decode(b: Seq<u8>) -> Result<(Seq<u8>, Option<Address>), DecodeError> {
    if b.len() > SIZE_LIMIT {
        Err(DecodeError::LimitExceeded)
    } else if b.len() < 4 {
        Err(DecodeError::Malformed)
    } else {
        let n = spec_be32_val(b.subrange(0, 4));
        if b.len() - 4 < n {
            Err(DecodeError::Malformed)
        } else {
            let payload = b.subrange(4, 4 + n);
            let rest = b.subrange(4 + n, b.len() as int);
            match spec_addr_dec(rest) {
                Err(e) => Err(e),
                Ok((addr, k)) => if rest.len() > k {
                    Err(DecodeError::TrailingBytes)
                } else {
                    Ok((payload, addr))
                },
            }
        }
    }
}

/// How many bytes the wire form of an endpoint takes.
fn addr_enc_len(a: &Option<Address>) -> (r: usize)
    ensures
        r == spec_addr_enc(*a).len(),
        1 <= r <= 19,
{
    match a {
        None => 1,
        Some(Address::Unresolved) => 1,
        Some(Address::Ip(IpSocket::V4(_, _))) => {
            proof {
                assert(spec_addr_enc(*a).len() == 7);
            }
            7
        },
        Some(Address::Ip(IpSocket::V6(_, _))) => {
            proof {
                assert(spec_addr_enc(*a).len() == 19);
            }
            19
        },
    }
}

/// Append the wire form of an endpoint to `out`.
fn push_addr(out: &mut Vec<u8>, a: &Option<Address>)
    ensures
        final(out)@ == old(out)@ + spec_addr_enc(*a),
{
    match a {
        None => {
            out.push(0);
            proof {
                assert(out@ =~= old(out)@ + spec_addr_enc(*a));
            }
        },
        Some(Address::Unresolved) => {
            out.push(1);
            proof {
                assert(out@ =~= old(out)@ + spec_addr_enc(*a));
            }
        },
        Some(Address::Ip(IpSocket::V4(ip, port))) => {
            out.push(2);
            out.push(ip.o0);
            out.push(ip.o1);
            out.push(ip.o2);
            out.push(ip.o3);
            out.push((*port / 256) as u8);
            out.push((*port % 256) as u8);
            proof {
                assert(out@ =~= old(out)@ + spec_addr_enc(*a));
            }
        },
        Some(Address::Ip(IpSocket::V6(ip, port))) => {
            out.push(3);
            out.push((ip.s0 / 256) as u8);
            out.push((ip.s0 % 256) as u8);
            out.push((ip.s1 / 256) as u8);
            out.push((ip.s1 % 256) as u8);
            out.push((ip.s2 / 256) as u8);
            out.push((ip.s2 % 256) as u8);
            out.push((ip.s3 / 256) as u8);
            out.push((ip.s3 % 256) as u8);
            out.push((ip.s4 / 256) as u8);
            out.push((ip.s4 % 256) as u8);
            out.push((ip.s5 / 256) as u8);
            out.push((ip.s5 % 256) as u8);
            out.push((ip.s6 / 256) as u8);
            out.push((ip.s6 % 256) as u8);
            out.push((ip.s7 / 256) as u8);
            out.push((ip.s7 % 256) as u8);
            out.push((*port / 256) as u8);
            out.push((*port % 256) as u8);
            proof {
                assert(out@ =~= old(out)@ + spec_addr_enc(*a));
            }
        },
    }
}

/// Encode one record into its wire form. Succeeds exactly when the wire
/// form fits in [`SIZE_LIMIT`] bytes; nothing of an oversized record is
/// emitted.
pub fn encode(g: &Gossip) -> (r: Result<Vec<u8>, EncodeError>)
    ensures
        r is Ok <==> spec_encoding(g.profile.payload@, g.profile.addr).len() <= SIZE_LIMIT,
        r matches Ok(v) ==> v@ == spec_encoding(g.profile.payload@, g.profile.addr),
        r matches Err(e) ==> e == EncodeError::TooLarge,
{
    let payload = &g.profile.payload;
    let alen = addr_enc_len(&g.profile.addr);
    if payload.len() > SIZE_LIMIT - 4 - alen {
        return Err(EncodeError::TooLarge);
    }
    let n = payload.len();
    let mut out: Vec<u8> = Vec::new();
    out.push((n / 0x1000000 % 256) as u8);
    out.push((n / 0x10000 % 256) as u8);
    out.push((n / 0x100 % 256) as u8);
    out.push((n % 256) as u8);
    proof {
        assert(out@ =~= spec_be32(n as int));
    }
    let mut i: usize = 0;
    while i < n
        invariant
            i <= n,
            n == payload@.len(),
            out@ == spec_be32(n as int) + payload@.subrange(0, i as int),
        decreases n - i,
    {
        out.push(payload[i]);
        i = i + 1;
        proof {
            assert(out@ =~= spec_be32(n as int) + payload@.subrange(0, i as int));
        }
    }
    proof {
        assert(payload@.subrange(0, n as int) =~= payload@);
    }
    push_addr(&mut out, &g.profile.addr);
    Ok(out)
}

/// Read a 16-bit big-endian value at position `at`.
fn read_be16(bytes: &Vec<u8>, at: usize) -> (r: u16)
    requires
        at + 2 <= bytes@.len(),
    ensures
        r as int == spec_be16_val(bytes@.subrange(at as int, at as int + 2)),
{
    // Binding the length as a usize lets the index arithmetic below be
    // checked against the machine word size.
    let _len: usize = bytes.len();
    let hi = bytes[at];
    let lo = bytes[at + 1];
    proof {
        assert(bytes@.subrange(at as int, at as int + 2)[0] == bytes@[at as int]);
        assert(bytes@.subrange(at as int, at as int + 2)[1] == bytes@[at as int + 1]);
    }
    (hi as u16) * 256 + (lo as u16)
}

/// Decode one record from a byte string that is expected to hold exactly
/// one record. All-or-nothing: the result is the record, or the first
/// error in this order — an input longer than [`SIZE_LIMIT`] is refused
/// unread, structurally invalid input fails as malformed, and leftover
/// bytes after a complete record fail as trailing bytes.
pub fn decode(bytes: &Vec<u8>) -> (r: Result<Gossip, DecodeError>)
    ensures
        r matches Ok(g) ==> spec_decode(bytes@) == Ok::<(Seq<u8>, Option<Address>), DecodeError>(
            (g.profile.payload@, g.profile.addr),
        ),
        r matches Err(e) ==> spec_decode(bytes@) == Err::<(Seq<u8>, Option<Address>), DecodeError>(
            e,
        ),
{
    let len = bytes.len();
    if len > SIZE_LIMIT {
        return Err(DecodeError::LimitExceeded);
    }
    if len < 4 {
        return Err(DecodeError::Malformed);
    }
    proof {
        assert(bytes@.subrange(0, 4)[0] == bytes@[0]);
        assert(bytes@.subrange(0, 4)[1] == bytes@[1]);
        assert(bytes@.subrange(0, 4)[2] == bytes@[2]);
        assert(bytes@.subrange(0, 4)[3] == bytes@[3]);
    }
    let n: usize = (bytes[0] as usize) * 0x1000000 + (bytes[1] as usize) * 0x10000 + (bytes[2]
        as usize) * 0x100 + (bytes[3] as usize);
    if n > len - 4 {
        return Err(DecodeError::Malformed);
    }
    let mut payload: Vec<u8> = Vec::new();
    let mut i: usize = 0;
    while i < n
        invariant
            i <= n,
            n + 4 <= len,
            len == bytes@.len(),
            payload@ == bytes@.subrange(4, 4 + i as int),
        decreases n - i,
    {
        payload.push(bytes[4 + i]);
        i = i + 1;
        proof {
            assert(payload@ =~= bytes@.subrange(4, 4 + i as int));
        }
    }
    let rs = 4 + n;
    let rest_len = len - rs;
    let ghost rest = bytes@.subrange(rs as int, len as int);
    proof {
        assert(rest.len() == rest_len);
    }
    if rest_len < 1 {
        return Err(DecodeError::Malformed);
    }
    let tag = bytes[rs];
    proof {
        assert(rest[0] == bytes@[rs as int]);
    }
    if tag == 0 || tag == 1 {
        if rest_len > 1 {
            return Err(DecodeError::TrailingBytes);
        }
        let a: Option<Address> = if tag == 0 {
            None
        } else {
            Some(Address::Unresolved)
        };
        return Ok(Gossip { profile: Profile { payload, addr: a } });
    }
    if tag == 2 {
        if rest_len < 7 {
            return Err(DecodeError::Malformed);
        }
        if rest_len > 7 {
            return Err(DecodeError::TrailingBytes);
        }
        let ip = Ipv4 { o0: bytes[rs + 1], o1: bytes[rs + 2], o2: bytes[rs + 3], o3: bytes[rs + 4] };
        let port = read_be16(bytes, rs + 5);
        proof {
            assert(rest[1] == bytes@[rs + 1]);
            assert(rest[2] == bytes@[rs + 2]);
            assert(rest[3] == bytes@[rs + 3]);
            assert(rest[4] == bytes@[rs + 4]);
            assert(rest.subrange(5, 7) =~= bytes@.subrange(rs + 5, rs + 7));
        }
        let a = Some(Address::Ip(IpSocket::V4(ip, port)));
        return Ok(Gossip { profile: Profile { payload, addr: a } });
    }
    if tag == 3 {
        if rest_len < 19 {
            return Err(DecodeError::Malformed);
        }
        if rest_len > 19 {
            return Err(DecodeError::TrailingBytes);
        }
        let ip = Ipv6 {
            s0: read_be16(bytes, rs + 1),
            s1: read_be16(bytes, rs + 3),
            s2: read_be16(bytes, rs + 5),
            s3: read_be16(bytes, rs + 7),
            s4: read_be16(bytes, rs + 9),
            s5: read_be16(bytes, rs + 11),
            s6: read_be16(bytes, rs + 13),
            s7: read_be16(bytes, rs + 15),
        };
        let port = read_be16(bytes, rs + 17);
        proof {
            assert(rest.subrange(1, 3) =~= bytes@.subrange(rs + 1, rs + 3));
            assert(rest.subrange(3, 5) =~= bytes@.subrange(rs + 3, rs + 5));
            assert(rest.subrange(5, 7) =~= bytes@.subrange(rs + 5, rs + 7));
            assert(rest.subrange(7, 9) =~= bytes@.subrange(rs + 7, rs + 9));
            assert(rest.subrange(9, 11) =~= bytes@.subrange(rs + 9, rs + 11));
            assert(rest.subrange(11, 13) =~= bytes@.subrange(rs + 11, rs + 13));
            assert(rest.subrange(13, 15) =~= bytes@.subrange(rs + 13, rs + 15));
            assert(rest.subrange(15, 17) =~= bytes@.subrange(rs + 15, rs + 17));
            assert(rest.subrange(17, 19) =~= bytes@.subrange(rs + 17, rs + 19));
        }
        let a = Some(Address::Ip(IpSocket::V6(ip, port)));
        return Ok(Gossip { profile: Profile { payload, addr: a } });
    }
    Err(DecodeError::Malformed)
}

/// Writing a 16-bit value big-endian and reading it back gives the value.
proof fn lemma_be16_round_trip(n: int)
    requires
        0 <= n < 0x10000,
    ensures
        spec_be16(n).len() == 2,
        spec_be16_val(spec_be16(n)) == n,
{
    assert(spec_be16_val(spec_be16(n)) == n) by (nonlinear_arith)
        requires
            0 <= n < 0x10000,
    ;
}

/// Writing a 32-bit value big-endian and reading it back gives the value.
proof fn lemma_be32_round_trip(n: int)
    requires
        0 <= n < 0x100000000,
    ensures
        spec_be32(n).len() == 4,
        spec_be32_val(spec_be32(n)) == n,
{
    assert(spec_be32_val(spec_be32(n)) == n) by (nonlinear_arith)
        requires
            0 <= n < 0x100000000,
    ;
}

/// Parsing the wire form of an endpoint gives the endpoint back and
/// consumes all of it.
proof fn lemma_addr_round_trip(a: Option<Address>)
    ensures
        spec_addr_dec(spec_addr_enc(a)) == Ok::<(Option<Address>, int), DecodeError>(
            (a, spec_addr_enc(a).len() as int),
        ),
{
    let e = spec_addr_enc(a);
    match a {
        None => {},
        Some(Address::Unresolved) => {},
        Some(Address::Ip(IpSocket::V4(ip, port))) => {
            lemma_be16_round_trip(port as int);
            assert(e.subrange(5, 7) =~= spec_be16(port as int));
        },
        Some(Address::Ip(IpSocket::V6(ip, port))) => {
            lemma_be16_round_trip(ip.s0 as int);
            lemma_be16_round_trip(ip.s1 as int);
            lemma_be16_round_trip(ip.s2 as int);
            lemma_be16_round_trip(ip.s3 as int);
            lemma_be16_round_trip(ip.s4 as int);
            lemma_be16_round_trip(ip.s5 as int);
            lemma_be16_round_trip(ip.s6 as int);
            lemma_be16_round_trip(ip.s7 as int);
            lemma_be16_round_trip(port as int);
            assert(e.subrange(1, 3) =~= spec_be16(ip.s0 as int));
            assert(e.subrange(3, 5) =~= spec_be16(ip.s1 as int));
            assert(e.subrange(5, 7) =~= spec_be16(ip.s2 as int));
            assert(e.subrange(7, 9) =~= spec_be16(ip.s3 as int));
            assert(e.subrange(9, 11) =~= spec_be16(ip.s4 as int));
            assert(e.subrange(11, 13) =~= spec_be16(ip.s5 as int));
            assert(e.subrange(13, 15) =~= spec_be16(ip.s6 as int));
            assert(e.subrange(15, 17) =~= spec_be16(ip.s7 as int));
            assert(e.subrange(17, 19) =~= spec_be16(port as int));
        },
    }
}

/// Round trip: a record whose wire form fits within [`SIZE_LIMIT`] decodes
/// from its own encoding back to itself, with nothing left over.
pub proof fn lemma_round_trip(payload: Seq<u8>, addr: Option<Address>)
    requires
        spec_encoding(payload, addr).len() <= SIZE_LIMIT,
    ensures
        spec_decode(spec_encoding(payload, addr)) == Ok::<(Seq<u8>, Option<Address>), DecodeError>(
            (payload, addr),
        ),
{
    let b = spec_encoding(payload, addr);
    let n = payload.len() as int;
    lemma_be32_round_trip(n);
    assert(b.subrange(0, 4) =~= spec_be32(n));
    assert(b.subrange(4, 4 + n) =~= payload);
    assert(b.subrange(4 + n, b.len() as int) =~= spec_addr_enc(addr));
    lemma_addr_round_trip(addr);
}

/// The size limit is a sharp boundary: any record whose wire form fits
/// (in particular one of exactly [`SIZE_LIMIT`] bytes) decodes back to
/// itself, and any longer input — whatever it holds — is refused with
/// [`DecodeError::LimitExceeded`].
pub proof fn lemma_size_boundary(payload: Seq<u8>, addr: Option<Address>)
    ensures
        spec_encoding(payload, addr).len() <= SIZE_LIMIT ==> spec_decode(
            spec_encoding(payload, addr),
        ) == Ok::<(Seq<u8>, Option<Address>), DecodeError>((payload, addr)),
        spec_encoding(payload, addr).len() > SIZE_LIMIT ==> spec_decode(
            spec_encoding(payload, addr),
        ) == Err::<(Seq<u8>, Option<Address>), DecodeError>(DecodeError::LimitExceeded),
{
    if spec_encoding(payload, addr).len() <= SIZE_LIMIT {
        lemma_round_trip(payload, addr);
    }
}

/// Truncation is always caught: dropping the last byte of a decodable
/// wire form leaves an input that decoding refuses as malformed — never a
/// record, and never a read out of bounds.
pub proof fn lemma_truncated_encoding_fails(payload: Seq<u8>, addr: Option<Address>)
    requires
        spec_encoding(payload, addr).len() <= SIZE_LIMIT,
    ensures
        spec_decode(spec_encoding(payload, addr).drop_last()) == Err::<
            (Seq<u8>, Option<Address>),
            DecodeError,
        >(DecodeError::Malformed),
{
    let b = spec_encoding(payload, addr);
    let n = payload.len() as int;
    let k = spec_addr_enc(addr).len() as int;
    let t = b.drop_last();
    assert(1 <= k <= 19);
    assert(t.len() == 4 + n + k - 1);
    lemma_be32_round_trip(n);
    assert(t.subrange(0, 4) =~= spec_be32(n));
    let rest_t = t.subrange(4 + n, t.len() as int);
    assert(rest_t.len() == k - 1);
    if k == 1 {
        assert(spec_addr_dec(rest_t) == Err::<(Option<Address>, int), DecodeError>(
            DecodeError::Malformed,
        ));
    } else {
        assert(rest_t[0] == spec_addr_enc(addr)[0]);
        match addr {
            None => {},
            Some(Address::Unresolved) => {},
            Some(Address::Ip(IpSocket::V4(_, _))) => {
                assert(rest_t[0] == 2);
            },
            Some(Address::Ip(IpSocket::V6(_, _))) => {
                assert(rest_t[0] == 3);
            },
        }
    }
}

} // verus!
