//! The blocks that travel encrypted inside the handshake requests and
//! responses, in the wire format.

use crate::crypto::rsa::be_value;
use crate::tl::bytes::decode_bytes;
use crate::tl::bytes::encode_bytes;
use crate::tl::parsing::le_bytes;
use crate::tl::parsing::le_value;
use crate::tl::parsing::Reader;
use crate::tl::parsing::Writer;
use crate::tl::primitive::decode_unsigned;
use crate::tl::primitive::to_signed;
use crate::tl::Decoded;
use crate::tl::Error;
use crate::tl::Type;
use vstd::prelude::*;

verus! {

/// The constructor id of the block that proves the factorization.
pub const P_Q_INNER_DATA_ID: u32 = 0x83c9_5aec;

/// The constructor id of the block that carries the server's share of the
/// key exchange.
pub const SERVER_DH_INNER_DATA_ID: u32 = 0xb589_0dba;

/// The constructor id of the block that carries the client's share of the
/// key exchange.
pub const CLIENT_DH_INNER_DATA_ID: u32 = 0x6643_b654;

/// The bytes of `x`, most significant first, without leading zeros.
pub open spec fn be_min(x: nat) -> Seq<u8>
    decreases x,
{
    if x == 0 {
        Seq::empty()
    } else {
        be_min(x / 256).push((x % 256) as u8)
    }
}

/// The bytes of a number spell that number.
pub proof fn lemma_be_min_value(x: nat)
    ensures
        be_value(be_min(x)) == x,
    decreases x,
{
    if x > 0 {
        lemma_be_min_value(x / 256);
        let s = be_min(x);
        assert(s.drop_last() =~= be_min(x / 256));
        assert(s.last() == (x % 256) as u8);
    }
}

/// A number below 256 to the power `n` has at most `n` bytes.
pub proof fn lemma_be_min_len(x: nat, n: nat)
    requires
        x < crate::tl::parsing::pow256(n),
    ensures
        be_min(x).len() <= n,
    decreases n,
{
    if x > 0 {
        if n == 0 {
            assert(crate::tl::parsing::pow256(0) == 1);
        } else {
            lemma_be_min_len(x / 256, (n - 1) as nat);
        }
    }
}

/// Computes the bytes of `x`, most significant first, without leading zeros.
pub fn be_minimal(x: u64) -> (bytes: Vec<u8>)
    ensures
        bytes@ == be_min(x as nat),
        bytes@.len() <= 8,
    decreases x,
{
    proof {
        crate::tl::parsing::lemma_pow256_values();
        lemma_be_min_len(x as nat, 8);
    }
    if x == 0 {
        Vec::new()
    } else {
        let mut bytes = be_minimal(x / 256);
        bytes.push((x % 256) as u8);
        bytes
    }
}

/// The block that proves the factorization: its constructor id, the
/// product and its two factors as byte strings, the two nonces of the
/// handshake so far, and the new nonce.
pub open spec fn p_q_inner_data(
    pq: u64,
    p: u32,
    q: u32,
    nonce: u128,
    server_nonce: u128,
    new_nonce: Seq<u8>,
) -> Seq<u8> {
    le_bytes(P_Q_INNER_DATA_ID as nat, 4) + encode_bytes(be_min(pq as nat)) + encode_bytes(
        be_min(p as nat),
    ) + encode_bytes(be_min(q as nat)) + le_bytes(nonce as nat, 16) + le_bytes(
        server_nonce as nat,
        16,
    ) + new_nonce
}

/// Writes the block that proves the factorization.
pub fn write_p_q_inner_data(
    pq: u64,
    p: u32,
    q: u32,
    nonce: u128,
    server_nonce: u128,
    new_nonce: &[u8; 32],
) -> (data: Vec<u8>)
    ensures
        data@ == p_q_inner_data(pq, p, q, nonce, server_nonce, new_nonce@),
        data@.len() <= 96,
{
    let mut writer = Writer::new();
    writer.write_u32(P_Q_INNER_DATA_ID);
    let pq_bytes = be_minimal(pq);
    let p_bytes = be_minimal(p as u64);
    let q_bytes = be_minimal(q as u64);
    proof {
        crate::tl::parsing::lemma_pow256_values();
        lemma_be_min_len(p as nat, 4);
        lemma_be_min_len(q as nat, 4);
        crate::tl::parsing::lemma_le_bytes_len(P_Q_INNER_DATA_ID as nat, 4);
        crate::tl::parsing::lemma_le_bytes_len(nonce as nat, 16);
        crate::tl::parsing::lemma_le_bytes_len(server_nonce as nat, 16);
    }
    let a = pq_bytes.serialize(&mut writer);
    let b = p_bytes.serialize(&mut writer);
    let c = q_bytes.serialize(&mut writer);
    writer.write_u128(nonce);
    writer.write_u128(server_nonce);
    writer.write_bytes(new_nonce.as_slice());
    writer.into_bytes()
}

/// The block that carries the client's share of the key exchange: its
/// constructor id, the two nonces, the number of the attempt before this
/// one, and the client's share as a byte string.
pub open spec fn client_dh_inner_data(
    nonce: u128,
    server_nonce: u128,
    retry_id: u64,
    g_b: Seq<u8>,
) -> Seq<u8> {
    le_bytes(CLIENT_DH_INNER_DATA_ID as nat, 4) + le_bytes(nonce as nat, 16) + le_bytes(
        server_nonce as nat,
        16,
    ) + le_bytes(retry_id as nat, 8) + encode_bytes(g_b)
}

/// Writes the block that carries the client's share of the key exchange, or
/// fails with `OversizeLength` on a share of 2^24 bytes or more.
pub fn write_client_dh_inner_data(nonce: u128, server_nonce: u128, retry_id: u64, g_b: &Vec<u8>) -> (r:
    Result<Vec<u8>, Error>)
    ensures
        g_b@.len() < crate::tl::bytes::LENGTH_LIMIT ==> r is Ok && r->Ok_0@ == client_dh_inner_data(
            nonce,
            server_nonce,
            retry_id,
            g_b@,
        ),
        g_b@.len() >= crate::tl::bytes::LENGTH_LIMIT ==> r == Err::<Vec<u8>, Error>(
            Error::OversizeLength,
        ),
{
    let mut writer = Writer::new();
    writer.write_u32(CLIENT_DH_INNER_DATA_ID);
    writer.write_u128(nonce);
    writer.write_u128(server_nonce);
    writer.write_u64(retry_id);
    match g_b.serialize(&mut writer) {
        Ok(()) => Ok(writer.into_bytes()),
        Err(e) => Err(e),
    }
}

/// What the server's share of the key exchange holds, as mathematical
/// values.
pub ghost struct ServerDhInnerView {
    pub nonce: u128,
    pub server_nonce: u128,
    pub g: u32,
    pub dh_prime: Seq<u8>,
    pub g_a: Seq<u8>,
    pub server_time: i32,
}

/// The server's share of the key exchange.
#[derive(Debug)]
pub struct ServerDhInner {
    pub nonce: u128,
    pub server_nonce: u128,
    pub g: u32,
    pub dh_prime: Vec<u8>,
    pub g_a: Vec<u8>,
    pub server_time: i32,
}

impl View for ServerDhInner {
    type V = ServerDhInnerView;

    open spec fn view(&self) -> ServerDhInnerView {
        ServerDhInnerView {
            nonce: self.nonce,
            server_nonce: self.server_nonce,
            g: self.g,
            dh_prime: self.dh_prime@,
            g_a: self.g_a@,
            server_time: self.server_time,
        }
    }
}

/// The two byte strings and the time at the start of `bytes`, which follow
/// the fixed part of the server's share.
pub open spec fn decode_dh_tail(
    bytes: Seq<u8>,
    nonce: u128,
    server_nonce: u128,
    g: u32,
) -> Decoded<ServerDhInnerView> {
    match decode_bytes(bytes) {
        Err(e) => Err(e),
        Ok((dh_prime, n1)) => match decode_bytes(bytes.skip(n1)) {
            Err(e) => Err(e),
            Ok((g_a, n2)) => match decode_unsigned(bytes.skip(n1).skip(n2), 4) {
                Err(e) => Err(e),
                Ok((time, n3)) => Ok(
                    (
                        ServerDhInnerView {
                            nonce,
                            server_nonce,
                            g,
                            dh_prime,
                            g_a,
                            server_time: to_signed(time, 32) as i32,
                        },
                        n1 + n2 + n3,
                    ),
                ),
            },
        },
    }
}

/// The server's share of the key exchange at the start of `bytes`, and the
/// number of bytes it takes: the constructor id, the two nonces, the
/// generator, the modulus and the server's power as byte strings, and the
/// server's time.
pub open spec fn decode_server_dh_inner(bytes: Seq<u8>) -> Decoded<ServerDhInnerView> {
    if bytes.len() < 40 {
        Err(Error::ShortRead)
    } else if le_value(bytes.subrange(0, 4)) != SERVER_DH_INNER_DATA_ID {
        Err(Error::InvalidConstructorId)
    } else {
        crate::tl::after(
            40,
            decode_dh_tail(
                bytes.skip(40),
                le_value(bytes.subrange(4, 20)) as u128,
                le_value(bytes.subrange(20, 36)) as u128,
                le_value(bytes.subrange(36, 40)) as u32,
            ),
        )
    }
}

/// Reads the server's share of the key exchange from the start of `bytes`
/// and says how many bytes it took.
pub fn read_server_dh_inner(bytes: &[u8]) -> (r: Result<(ServerDhInner, usize), Error>)
    ensures
        match decode_server_dh_inner(bytes@) {
            Ok((inner, n)) => r is Ok && r->Ok_0.0@ == inner && r->Ok_0.1 == n && n
                <= bytes@.len(),
            Err(e) => r is Err && r->Err_0 == e,
        },
{
    if bytes.len() < 40 {
        return Err(Error::ShortRead);
    }
    let mut reader = Reader::new(bytes);
    assert(reader@.remaining() =~= bytes@);
    let id = match reader.read_u32() {
        Ok(v) => v,
        Err(e) => {
            return Err(e);
        },
    };
    proof {
        assert(bytes@.take(4) =~= bytes@.subrange(0, 4));
        crate::tl::parsing::lemma_le_value_bound(bytes@.subrange(0, 4));
        crate::tl::parsing::lemma_pow256_values();
    }
    if id != SERVER_DH_INNER_DATA_ID {
        return Err(Error::InvalidConstructorId);
    }
    assert(reader@.remaining().take(16) =~= bytes@.subrange(4, 20));
    let nonce = match reader.read_u128() {
        Ok(v) => v,
        Err(e) => {
            return Err(e);
        },
    };
    assert(reader@.remaining().take(16) =~= bytes@.subrange(20, 36));
    let server_nonce = match reader.read_u128() {
        Ok(v) => v,
        Err(e) => {
            return Err(e);
        },
    };
    assert(reader@.remaining().take(4) =~= bytes@.subrange(36, 40));
    let g = match reader.read_u32() {
        Ok(v) => v,
        Err(e) => {
            return Err(e);
        },
    };
    assert(reader@.remaining() =~= bytes@.skip(40));
    let ghost tail = reader@.remaining();
    let dh_prime = match Vec::<u8>::deserialize(&mut reader) {
        Ok(v) => v,
        Err(e) => {
            return Err(e);
        },
    };
    let ghost n1 = reader@.pos - 40;
    let mark = reader.position();
    assert(reader@.remaining() =~= tail.skip(n1));
    let g_a = match Vec::<u8>::deserialize(&mut reader) {
        Ok(v) => v,
        Err(e) => {
            return Err(e);
        },
    };
    let ghost n2 = reader@.pos - 40 - n1;
    let mark = reader.position();
    assert(reader@.remaining() =~= tail.skip(n1).skip(n2));
    let server_time = match i32::deserialize(&mut reader) {
        Ok(v) => v,
        Err(e) => {
            return Err(e);
        },
    };
    let consumed = reader.position();
    Ok((ServerDhInner { nonce, server_nonce, g, dh_prime, g_a, server_time }, consumed))
}

} // verus!
