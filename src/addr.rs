//! Raw socket-address structures and the portable address they carry.
//!
//! A raw address starts with a two-byte family tag in host (little-endian)
//! order; every other multi-byte field is in network (big-endian) order.
use crate::bytes::{
    be_bytes, be_value, lemma_be_round_trip, lemma_pow256_values, push_be, read_be,
};
use vstd::prelude::*;

verus! {

/// Family tag of an IPv4 address structure.
pub const AF_INET: u16 = 2;

/// Family tag of an IPv6 address structure.
pub const AF_INET6: u16 = 23;

/// Bytes of the family tag.
pub const FAMILY_LEN: usize = 2;

/// Bytes of a raw IPv4 address structure.
pub const SOCKADDR_IN_LEN: usize = 16;

/// Bytes of a raw IPv6 address structure.
pub const SOCKADDR_IN6_LEN: usize = 28;

/// Bytes of the largest raw address structure of any family.
pub const SOCKADDR_STORAGE_LEN: usize = 128;

/// An IPv4 address (as the number its four octets spell) and a port.
#[derive(Clone, Copy, Debug, PartialEq, Eq, Structural)]
pub struct SocketAddrV4 {
    pub ip: u32,
    pub port: u16,
}

/// An IPv6 address (as the number its sixteen octets spell), a port, the
/// flow information and the scope id.
#[derive(Clone, Copy, Debug, PartialEq, Eq, Structural)]
pub struct SocketAddrV6 {
    pub ip: u128,
    pub port: u16,
    pub flowinfo: u32,
    pub scope_id: u32,
}

/// A socket address of either supported family.
#[derive(Clone, Copy, Debug, PartialEq, Eq, Structural)]
pub enum SocketAddr {
    V4(SocketAddrV4),
    V6(SocketAddrV6),
}

/// The family tag at the start of `b`, read in host order.
pub open spec fn family_of(b: Seq<u8>) -> nat
    recommends
        b.len() >= 2,
{
    b[0] as nat + 256 * b[1] as nat
}

/// The two bytes of a family tag, in host order.
pub open spec fn family_bytes(family: u16) -> Seq<u8> {
    seq![(family % 256) as u8, (family / 256) as u8]
}

/// The raw structure of an address.
pub open spec fn encode_spec(a: SocketAddr) -> Seq<u8> {
    match a {
        SocketAddr::V4(v4) => family_bytes(AF_INET) + be_bytes(v4.port as nat, 2) + be_bytes(
            v4.ip as nat,
            4,
        ) + Seq::new(8, |i: int| 0u8),
        SocketAddr::V6(v6) => family_bytes(AF_INET6) + be_bytes(v6.port as nat, 2) + be_bytes(
            v6.flowinfo as nat,
            4,
        ) + be_bytes(v6.ip as nat, 16) + be_bytes(v6.scope_id as nat, 4),
    }
}

/// The address that the raw bytes `b` hold, if they hold one: the family tag
/// must be present, known, and followed by the whole structure of its family.
pub open spec fn decode_spec(b: Seq<u8>) -> Option<SocketAddr> {
    if b.len() < FAMILY_LEN {
        None
    } else if family_of(b) == AF_INET && b.len() >= SOCKADDR_IN_LEN {
        Some(
            SocketAddr::V4(
                SocketAddrV4 {
                    ip: be_value(b.subrange(4, 8)) as u32,
                    port: be_value(b.subrange(2, 4)) as u16,
                },
            ),
        )
    } else if family_of(b) == AF_INET6 && b.len() >= SOCKADDR_IN6_LEN {
        Some(
            SocketAddr::V6(
                SocketAddrV6 {
                    ip: be_value(b.subrange(8, 24)) as u128,
                    port: be_value(b.subrange(2, 4)) as u16,
                    flowinfo: be_value(b.subrange(4, 8)) as u32,
                    scope_id: be_value(b.subrange(24, 28)) as u32,
                },
            ),
        )
    } else {
        None
    }
}

/// Writes the raw structure of `addr`, ready to be handed to the OS as a
/// destination address; its length is the structure's size.
pub fn socket_addr_to_bytes(addr: &SocketAddr) -> (r: Vec<u8>)
    ensures
        r@ == encode_spec(*addr),
{
    let mut out: Vec<u8> = Vec::new();
    match addr {
        SocketAddr::V4(v4) => {
            out.push((AF_INET % 256) as u8);
            out.push((AF_INET / 256) as u8);
            push_be(&mut out, v4.port as u128, 2);
            push_be(&mut out, v4.ip as u128, 4);
            let mut i: usize = 0;
            while i < 8
                invariant
                    0 <= i <= 8,
                    out@ == family_bytes(AF_INET) + be_bytes(v4.port as nat, 2) + be_bytes(
                        v4.ip as nat,
                        4,
                    ) + Seq::new(i as nat, |j: int| 0u8),
                decreases 8 - i,
            {
                out.push(0);
                i = i + 1;
                assert(out@ =~= family_bytes(AF_INET) + be_bytes(v4.port as nat, 2) + be_bytes(
                    v4.ip as nat,
                    4,
                ) + Seq::new(i as nat, |j: int| 0u8));
            }
        },
        SocketAddr::V6(v6) => {
            out.push((AF_INET6 % 256) as u8);
            out.push((AF_INET6 / 256) as u8);
            push_be(&mut out, v6.port as u128, 2);
            push_be(&mut out, v6.flowinfo as u128, 4);
            push_be(&mut out, v6.ip, 16);
            push_be(&mut out, v6.scope_id as u128, 4);
        },
    }
    assert(out@ =~= encode_spec(*addr));
    out
}

/// Decodes the `len` bytes of `b` from `start` on.
pub fn decode_at(b: &[u8], start: usize, len: usize) -> (r: Option<SocketAddr>)
    requires
        start + len <= b@.len(),
    ensures
        r == decode_spec(b@.subrange(start as int, start + len)),
{
    let ghost s = b@.subrange(start as int, start + len);
    if len < FAMILY_LEN {
        return None;
    }
    let family: u16 = b[start] as u16 + 256 * (b[start + 1] as u16);
    proof {
        assert(s[0] == b@[start as int] && s[1] == b@[start + 1]);
    }
    if family == AF_INET && len >= SOCKADDR_IN_LEN {
        let port: u128 = read_be(b, start + 2, 2);
        let ip: u128 = read_be(b, start + 4, 4);
        proof {
            assert(s.subrange(2, 4) =~= b@.subrange(start + 2, start + 4));
            assert(s.subrange(4, 8) =~= b@.subrange(start + 4, start + 8));
            lemma_pow_bounds(b@.subrange(start + 2, start + 4));
            lemma_pow_bounds(b@.subrange(start + 4, start + 8));
        }
        Some(SocketAddr::V4(SocketAddrV4 { ip: ip as u32, port: port as u16 }))
    } else if family == AF_INET6 && len >= SOCKADDR_IN6_LEN {
        let port: u128 = read_be(b, start + 2, 2);
        let flowinfo: u128 = read_be(b, start + 4, 4);
        let ip: u128 = read_be(b, start + 8, 16);
        let scope_id: u128 = read_be(b, start + 24, 4);
        proof {
            assert(s.subrange(2, 4) =~= b@.subrange(start + 2, start + 4));
            assert(s.subrange(4, 8) =~= b@.subrange(start + 4, start + 8));
            assert(s.subrange(8, 24) =~= b@.subrange(start + 8, start + 24));
            assert(s.subrange(24, 28) =~= b@.subrange(start + 24, start + 28));
            lemma_pow_bounds(b@.subrange(start + 2, start + 4));
            lemma_pow_bounds(b@.subrange(start + 4, start + 8));
            lemma_pow_bounds(b@.subrange(start + 24, start + 28));
        }
        Some(
            SocketAddr::V6(
                SocketAddrV6 {
                    ip,
                    port: port as u16,
                    flowinfo: flowinfo as u32,
                    scope_id: scope_id as u32,
                },
            ),
        )
    } else {
        None
    }
}

/// Decodes the raw address structure `b`; see `decode_spec`.
pub fn socket_addr_from_bytes(b: &[u8]) -> (r: Option<SocketAddr>)
    ensures
        r == decode_spec(b@),
{
    let len: usize = b.len();
    assert(b@.subrange(0, len as int) =~= b@);
    decode_at(b, 0, len)
}

proof fn lemma_pow_bounds(s: Seq<u8>)
    ensures
        s.len() == 2 ==> be_value(s) < 0x1_0000,
        s.len() == 4 ==> be_value(s) < 0x1_0000_0000,
{
    crate::bytes::lemma_be_value_bound(s);
    lemma_pow256_values();
}

/// Decoding the raw structure of an address gives that address back, port,
/// flow information and scope id included.
pub proof fn lemma_decode_encode(a: SocketAddr)
    ensures
        decode_spec(encode_spec(a)) == Some(a),
{
    let e = encode_spec(a);
    lemma_pow256_values();
    match a {
        SocketAddr::V4(v4) => {
            lemma_be_round_trip(v4.port as nat, 2);
            lemma_be_round_trip(v4.ip as nat, 4);
            let p = be_bytes(v4.port as nat, 2);
            let i = be_bytes(v4.ip as nat, 4);
            assert(e.subrange(2, 4) =~= p);
            assert(e.subrange(4, 8) =~= i);
        },
        SocketAddr::V6(v6) => {
            lemma_be_round_trip(v6.port as nat, 2);
            lemma_be_round_trip(v6.flowinfo as nat, 4);
            lemma_be_round_trip(v6.ip as nat, 16);
            lemma_be_round_trip(v6.scope_id as nat, 4);
            assert(e.subrange(2, 4) =~= be_bytes(v6.port as nat, 2));
            assert(e.subrange(4, 8) =~= be_bytes(v6.flowinfo as nat, 4));
            assert(e.subrange(8, 24) =~= be_bytes(v6.ip as nat, 16));
            assert(e.subrange(24, 28) =~= be_bytes(v6.scope_id as nat, 4));
        },
    }
}

/// The raw structure of an IPv4 address fills its structure size, that of an
/// IPv6 address its own.
pub proof fn lemma_encode_len(a: SocketAddr)
    ensures
        encode_spec(a).len() == match a {
            SocketAddr::V4(_) => SOCKADDR_IN_LEN,
            SocketAddr::V6(_) => SOCKADDR_IN6_LEN,
        },
{
    match a {
        SocketAddr::V4(v4) => {
            lemma_be_round_trip(v4.port as nat, 2);
            lemma_be_round_trip(v4.ip as nat, 4);
        },
        SocketAddr::V6(v6) => {
            lemma_be_round_trip(v6.port as nat, 2);
            lemma_be_round_trip(v6.flowinfo as nat, 4);
            lemma_be_round_trip(v6.ip as nat, 16);
            lemma_be_round_trip(v6.scope_id as nat, 4);
        },
    }
}

/// Bytes too short for a family tag, or too short for the whole structure of
/// the family they name, hold no address.
pub proof fn lemma_decode_short(b: Seq<u8>)
    ensures
        b.len() < FAMILY_LEN ==> decode_spec(b) is None,
        b.len() >= FAMILY_LEN && family_of(b) == AF_INET && b.len() < SOCKADDR_IN_LEN
            ==> decode_spec(b) is None,
        b.len() >= FAMILY_LEN && family_of(b) == AF_INET6 && b.len() < SOCKADDR_IN6_LEN
            ==> decode_spec(b) is None,
{
}

} // verus!
