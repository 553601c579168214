//! The authorization handshake that gives a session its key: a state
//! machine that takes the server's answers and makes the next request.

use crate::crypto::aes::aes_ige_decrypt;
use crate::crypto::aes::aes_ige_encrypt;
use crate::crypto::aes::aes_ige_output;
use crate::crypto::aes::is_ciphertext;
use crate::crypto::factor::pq_decompose;
use crate::crypto::factor::pq_factors;
use crate::crypto::hash::sha1;
use crate::crypto::hash::sha1_digest;
use crate::crypto::rsa::be_value;
use crate::crypto::rsa::find_key;
use crate::crypto::rsa::first_with;
use crate::crypto::rsa::is_known;
use crate::crypto::rsa::openssl_mod_exp;
use crate::crypto::rsa::rsa_encrypt;
use crate::crypto::rsa::rsa_power;
use crate::crypto::rsa::KnownKey;
use crate::crypto::rsa::CIPHER_LEN;
use crate::crypto::rsa::MAX_NUMBER_LEN;
use crate::error::Error;
use crate::handshake::inner::be_minimal;
use crate::handshake::inner::client_dh_inner_data;
use crate::handshake::inner::decode_server_dh_inner;
use crate::handshake::inner::lemma_be_min_value;
use crate::handshake::inner::p_q_inner_data;
use crate::handshake::inner::read_server_dh_inner;
use crate::handshake::inner::write_client_dh_inner_data;
use crate::handshake::inner::write_p_q_inner_data;
use crate::handshake::inner::ServerDhInner;
use crate::handshake::inner::ServerDhInnerView;
use crate::handshake::keys::add_hash;
use crate::handshake::keys::aux_hash;
use crate::handshake::keys::first_salt;
use crate::handshake::keys::initial_salt;
use crate::handshake::keys::key_aux_hash;
use crate::handshake::keys::new_nonce_hash;
use crate::handshake::keys::nonce_hash;
use crate::handshake::keys::tmp_aes_iv;
use crate::handshake::keys::tmp_aes_key;
use crate::handshake::keys::tmp_aes_params;
use crate::handshake::keys::with_hash;
use crate::network::state::State;
use crate::network::state::StateView;
use crate::tl::envelope::bytes_equal;
use crate::tl::envelope::piece;
use vstd::arithmetic::power::pow;
use vstd::prelude::*;

pub mod inner;
pub mod keys;

verus! {

/// How many random bytes the second step wants for padding.
pub const PQ_PADDING_LEN: usize = 255;

/// How many random bytes the third step wants for padding.
pub const DH_PADDING_LEN: usize = 15;

/// Length of the block that the second step encrypts for the server.
pub const PQ_BLOCK_LEN: usize = 255;

/// Where a handshake stands.
#[derive(Clone, Copy, Debug, PartialEq, Eq, Structural)]
pub enum Step {
    Init,
    AwaitingResPQ,
    AwaitingDhParams,
    AwaitingDhGenResult,
    Established,
    Failed,
}

/// The request that opens the handshake.
#[derive(Debug)]
pub struct ReqPq {
    pub nonce: u128,
}

/// The server's answer to the opening request.
#[derive(Debug)]
pub struct ResPq {
    pub nonce: u128,
    pub server_nonce: u128,
    pub pq: u64,
    pub server_public_key_fingerprints: Vec<u64>,
}

/// The request that proves the factorization and asks for the parameters
/// of the key exchange.
#[derive(Debug)]
pub struct ReqDhParams {
    pub nonce: u128,
    pub server_nonce: u128,
    pub p: u32,
    pub q: u32,
    pub public_key_fingerprint: u64,
    pub encrypted_data: Vec<u8>,
}

/// The server's answer to the request for parameters.
#[derive(Debug)]
pub enum ServerDhParams {
    Accepted { nonce: u128, server_nonce: u128, encrypted_answer: Vec<u8> },
    Fail { nonce: u128, server_nonce: u128, new_nonce_hash: u128 },
}

/// The request that hands the client's share of the key exchange over.
#[derive(Debug)]
pub struct SetClientDhParams {
    pub nonce: u128,
    pub server_nonce: u128,
    pub encrypted_data: Vec<u8>,
}

/// The server's verdict on the key exchange.
#[derive(Clone, Copy, Debug, PartialEq, Eq, Structural)]
pub enum DhGenResult {
    Accepted { nonce: u128, server_nonce: u128, new_nonce_hash1: u128 },
    Retry { nonce: u128, server_nonce: u128, new_nonce_hash2: u128 },
    Fail { nonce: u128, server_nonce: u128, new_nonce_hash3: u128 },
}

/// What a handshake holds, as mathematical values.
pub ghost struct HandshakeView {
    pub step: Step,
    pub nonce: u128,
    pub server_nonce: u128,
    pub new_nonce: Seq<u8>,
    pub g: u32,
    pub dh_prime: Seq<u8>,
    pub g_a: Seq<u8>,
    pub auth_key: Seq<u8>,
    pub retry_id: u64,
}

/// The state of one run of the handshake.
#[derive(Debug)]
pub struct Handshake {
    step: Step,
    nonce: u128,
    server_nonce: u128,
    new_nonce: [u8; 32],
    g: u32,
    dh_prime: Vec<u8>,
    g_a: Vec<u8>,
    auth_key: [u8; 256],
    retry_id: u64,
}

impl View for Handshake {
    type V = HandshakeView;

    closed spec fn view(&self) -> HandshakeView {
        HandshakeView {
            step: self.step,
            nonce: self.nonce,
            server_nonce: self.server_nonce,
            new_nonce: self.new_nonce@,
            g: self.g,
            dh_prime: self.dh_prime@,
            g_a: self.g_a@,
            auth_key: self.auth_key@,
            retry_id: self.retry_id,
        }
    }
}

/// How far along a step is.
pub open spec fn rank(step: Step) -> int {
    match step {
        Step::Init => 0,
        Step::AwaitingResPQ => 1,
        Step::AwaitingDhParams => 2,
        Step::AwaitingDhGenResult => 3,
        Step::Established => 4,
        Step::Failed => 5,
    }
}

/// Whether a handshake may go from `from` to `to`: it stays, goes forward,
/// or fails.
pub open spec fn forward(from: Step, to: Step) -> bool {
    rank(from) <= rank(to)
}

/// The handshake after it failed: nothing but the step has changed.
pub open spec fn failed(before: HandshakeView) -> HandshakeView {
    HandshakeView { step: Step::Failed, ..before }
}

/// Whether the places `i` and `j` are those of the fingerprint and the key
/// that the client picks: the first offered fingerprint of which a key is
/// known, and the first key that has it.
pub open spec fn picks(offered: Seq<u64>, known: Seq<KnownKey>, i: int, j: int) -> bool {
    &&& 0 <= i < offered.len()
    &&& first_with(known, offered[i], j)
    &&& forall|k: int| 0 <= k < i ==> !is_known(known, #[trigger] offered[k])
}

/// Whether no offered fingerprint belongs to a known key.
pub open spec fn none_known(offered: Seq<u64>, known: Seq<KnownKey>) -> bool {
    forall|k: int| 0 <= k < offered.len() ==> !is_known(known, #[trigger] offered[k])
}

/// The block that the second step encrypts for the server: the proof of
/// the factorization behind its digest, filled up to 255 bytes from the
/// start of `padding`.
pub open spec fn pq_block(
    pq: u64,
    p: u32,
    q: u32,
    nonce: u128,
    server_nonce: u128,
    new_nonce: Seq<u8>,
    padding: Seq<u8>,
) -> Seq<u8> {
    let data = p_q_inner_data(pq, p, q, nonce, server_nonce, new_nonce);
    with_hash(data, padding.take(PQ_BLOCK_LEN - 20 - data.len()))
}

/// What the second step comes to when the handshake awaits the answer
/// `res`. The checks come in this order: the nonce, the factorization, the
/// choice of a key, the length of the padding. What is left is up to the
/// outside library.
pub open spec fn res_pq_outcome(
    before: HandshakeView,
    res: ResPq,
    known: Seq<KnownKey>,
    new_nonce: Seq<u8>,
    padding: Seq<u8>,
    r: Result<ReqDhParams, Error>,
    after: HandshakeView,
) -> bool {
    let offered = res.server_public_key_fingerprints@;
    if res.nonce != before.nonce {
        r == Err::<ReqDhParams, Error>(
            Error::NonceMismatch { expected: before.nonce, found: res.nonce },
        ) && after == failed(before)
    } else if !(exists|p: u32, q: u32| pq_factors(res.pq, p, q)) {
        r == Err::<ReqDhParams, Error>(Error::BadPq) && after == failed(before)
    } else if none_known(offered, known) {
        r == Err::<ReqDhParams, Error>(Error::NoKnownFingerprint) && after == failed(before)
    } else if padding.len() < PQ_PADDING_LEN {
        r == Err::<ReqDhParams, Error>(Error::BadInnerLength) && after == failed(before)
    } else {
        match r {
            Ok(req) => {
                &&& req.nonce == before.nonce
                &&& req.server_nonce == res.server_nonce
                &&& pq_factors(res.pq, req.p, req.q)
                &&& req.encrypted_data@.len() == CIPHER_LEN
                &&& exists|i: int, j: int|
                    #![trigger picks(offered, known, i, j)]
                    picks(offered, known, i, j) && req.public_key_fingerprint == offered[i]
                        && be_value(req.encrypted_data@) == rsa_power(
                        known[j].key.n@,
                        known[j].key.e@,
                        pq_block(
                            res.pq,
                            req.p,
                            req.q,
                            before.nonce,
                            res.server_nonce,
                            new_nonce,
                            padding,
                        ),
                    )
                &&& after == (HandshakeView {
                    step: Step::AwaitingDhParams,
                    server_nonce: res.server_nonce,
                    new_nonce,
                    ..before
                })
            },
            Err(e) => (e == Error::CryptoFailure || e == Error::NumberTooLong) && after == failed(
                before,
            ),
        }
    }
}

/// What the decrypted answer of the server holds: behind the digest of the
/// share, the share, which must name the nonces of the handshake.
pub open spec fn opened_answer(plain: Seq<u8>, nonce: u128, server_nonce: u128) -> Result<
    ServerDhInnerView,
    Error,
> {
    if plain.len() < 20 {
        Err(Error::BadInnerLength)
    } else {
        match decode_server_dh_inner(plain.skip(20)) {
            Err(e) => Err(Error::Tl(e)),
            Ok((inner, n)) => if piece(sha1_digest(plain.subrange(20, 20 + n)), 0, 20)
                != plain.take(20) {
                Err(Error::InnerHashMismatch)
            } else if inner.nonce != nonce {
                Err(Error::NonceMismatch { expected: nonce, found: inner.nonce })
            } else if inner.server_nonce != server_nonce {
                Err(Error::NonceMismatch { expected: server_nonce, found: inner.server_nonce })
            } else {
                Ok(inner)
            },
        }
    }
}

/// What the answer to the request for parameters holds. The nonces of the
/// answer are checked first; a refusal of the server is a `DhGenFail`.
pub open spec fn opened_server_dh(
    new_nonce: Seq<u8>,
    nonce: u128,
    server_nonce: u128,
    res: ServerDhParams,
) -> Result<ServerDhInnerView, Error> {
    match res {
        ServerDhParams::Fail { nonce: n, server_nonce: s, .. } => if n != nonce {
            Err(Error::NonceMismatch { expected: nonce, found: n })
        } else if s != server_nonce {
            Err(Error::NonceMismatch { expected: server_nonce, found: s })
        } else {
            Err(Error::DhGenFail)
        },
        ServerDhParams::Accepted { nonce: n, server_nonce: s, encrypted_answer } => if n != nonce {
            Err(Error::NonceMismatch { expected: nonce, found: n })
        } else if s != server_nonce {
            Err(Error::NonceMismatch { expected: server_nonce, found: s })
        } else if encrypted_answer@.len() % 16 != 0 {
            Err(Error::UnalignedLength)
        } else {
            opened_answer(
                aes_ige_output(
                    tmp_aes_key(new_nonce, server_nonce),
                    tmp_aes_iv(new_nonce, server_nonce),
                    encrypted_answer@,
                    false,
                ),
                nonce,
                server_nonce,
            )
        },
    }
}

/// Reads the server's share out of a decrypted answer.
pub fn open_answer(plain: &[u8], nonce: u128, server_nonce: u128) -> (r: Result<
    ServerDhInner,
    Error,
>)
    ensures
        match opened_answer(plain@, nonce, server_nonce) {
            Ok(inner) => r is Ok && r->Ok_0@ == inner,
            Err(e) => r is Err && r->Err_0 == e,
        },
{
    if plain.len() < 20 {
        return Err(Error::BadInnerLength);
    }
    let answer = vstd::slice::slice_subrange(plain, 20, plain.len());
    assert(answer@ =~= plain@.skip(20));
    let (inner, n) = match read_server_dh_inner(answer) {
        Ok(read) => read,
        Err(e) => {
            return Err(Error::Tl(e));
        },
    };
    let share = vstd::slice::slice_subrange(plain, 20, 20 + n);
    let digest = sha1(share);
    let carried = vstd::slice::slice_subrange(plain, 0, 20);
    assert(carried@ =~= plain@.take(20));
    assert(digest@ =~= piece(sha1_digest(share@), 0, 20));
    if !bytes_equal(digest.as_slice(), carried) {
        return Err(Error::InnerHashMismatch);
    }
    if inner.nonce != nonce {
        return Err(Error::NonceMismatch { expected: nonce, found: inner.nonce });
    }
    if inner.server_nonce != server_nonce {
        return Err(Error::NonceMismatch { expected: server_nonce, found: inner.server_nonce });
    }
    Ok(inner)
}

/// Checks and decrypts the answer to the request for parameters.
pub fn open_server_dh(
    new_nonce: &[u8; 32],
    nonce: u128,
    server_nonce: u128,
    res: &ServerDhParams,
) -> (r: Result<ServerDhInner, Error>)
    ensures
        match opened_server_dh(new_nonce@, nonce, server_nonce, *res) {
            Ok(inner) => r is Ok && r->Ok_0@ == inner,
            Err(e) => r is Err && r->Err_0 == e,
        },
{
    match res {
        ServerDhParams::Fail { nonce: n, server_nonce: s, .. } => {
            if *n != nonce {
                Err(Error::NonceMismatch { expected: nonce, found: *n })
            } else if *s != server_nonce {
                Err(Error::NonceMismatch { expected: server_nonce, found: *s })
            } else {
                Err(Error::DhGenFail)
            }
        },
        ServerDhParams::Accepted { nonce: n, server_nonce: s, encrypted_answer } => {
            if *n != nonce {
                return Err(Error::NonceMismatch { expected: nonce, found: *n });
            }
            if *s != server_nonce {
                return Err(Error::NonceMismatch { expected: server_nonce, found: *s });
            }
            let (key, iv) = tmp_aes_params(new_nonce, server_nonce);
            match aes_ige_decrypt(key.as_slice(), iv.as_slice(), encrypted_answer.as_slice()) {
                Ok(plain) => open_answer(plain.as_slice(), nonce, server_nonce),
                Err(e) => Err(e),
            }
        },
    }
}

/// How much padding brings a block of `len` bytes up to a whole number of
/// cipher blocks.
pub open spec fn block_fill(len: nat) -> nat {
    ((16 - len % 16) % 16) as nat
}

/// The block that the third step encrypts for the server: the client's
/// share behind its digest, filled up to a whole number of cipher blocks
/// from the start of `padding`.
pub open spec fn client_dh_block(
    nonce: u128,
    server_nonce: u128,
    retry_id: u64,
    g_b: Seq<u8>,
    padding: Seq<u8>,
) -> Seq<u8> {
    let data = client_dh_inner_data(nonce, server_nonce, retry_id, g_b);
    with_hash(data, padding.take(block_fill(20 + data.len()) as int))
}

/// Whether the numbers of a key exchange can be handed to the big-number
/// routines.
pub open spec fn usable_numbers(dh_prime: Seq<u8>, g_a: Seq<u8>, b: Seq<u8>) -> bool {
    dh_prime.len() <= MAX_NUMBER_LEN && g_a.len() <= MAX_NUMBER_LEN && b.len() <= MAX_NUMBER_LEN
}

/// Whether `req` and `key` are what the client makes of the server's share
/// with the secret exponent `b`: the key is the server's power to the
/// exponent `b`, in 256 bytes, and the request carries the generator to the
/// power `b`, encrypted under the temporary key.
pub open spec fn is_client_dh(
    inner: ServerDhInnerView,
    new_nonce: Seq<u8>,
    retry_id: u64,
    b: Seq<u8>,
    padding: Seq<u8>,
    req: SetClientDhParams,
    key: Seq<u8>,
) -> bool {
    &&& req.nonce == inner.nonce
    &&& req.server_nonce == inner.server_nonce
    &&& key.len() == 256
    &&& be_value(key) == pow(be_value(inner.g_a) as int, be_value(b)) % (be_value(
        inner.dh_prime,
    ) as int)
    &&& exists|g_b: Seq<u8>|
        #![trigger client_dh_block(inner.nonce, inner.server_nonce, retry_id, g_b, padding)]
        be_value(g_b) == pow(inner.g as int, be_value(b)) % (be_value(inner.dh_prime) as int)
            && is_ciphertext(
            tmp_aes_key(new_nonce, inner.server_nonce),
            tmp_aes_iv(new_nonce, inner.server_nonce),
            client_dh_block(inner.nonce, inner.server_nonce, retry_id, g_b, padding),
            req.encrypted_data@,
        )
}

/// A copy of 256 bytes as an array.
pub fn key_array(bytes: &[u8]) -> (key: [u8; 256])
    requires
        bytes@.len() == 256,
    ensures
        key@ == bytes@,
{
    let mut key = [0u8;256];
    let mut i: usize = 0;
    while i < 256
        invariant
            i <= 256,
            bytes@.len() == 256,
            key@.take(i as int) == bytes@.take(i as int),
        decreases 256 - i,
    {
        key[i] = bytes[i];
        i += 1;
        assert(key@.take(i as int) =~= bytes@.take(i as int));
    }
    assert(key@.take(256) =~= key@);
    assert(bytes@.take(256) =~= bytes@);
    key
}

/// Makes the client's share of the key exchange and the key that comes of
/// it. Too little padding is a `BadInnerLength`, numbers too long for the
/// big-number routines are a `NumberTooLong`; what is left is up to the
/// outside library.
pub fn make_client_dh(
    inner: &ServerDhInner,
    new_nonce: &[u8; 32],
    retry_id: u64,
    b: &[u8],
    padding: &[u8],
) -> (r: Result<(SetClientDhParams, [u8; 256]), Error>)
    ensures
        padding@.len() < DH_PADDING_LEN ==> r is Err && r->Err_0 == Error::BadInnerLength,
        padding@.len() >= DH_PADDING_LEN && !usable_numbers(inner@.dh_prime, inner@.g_a, b@) ==> r
            is Err && r->Err_0 == Error::NumberTooLong,
        padding@.len() >= DH_PADDING_LEN && usable_numbers(inner@.dh_prime, inner@.g_a, b@)
            ==> match r {
            Ok((req, key)) => is_client_dh(inner@, new_nonce@, retry_id, b@, padding@, req, key@),
            Err(e) => e == Error::CryptoFailure || e == Error::Tl(
                crate::tl::Error::OversizeLength,
            ),
        },
{
    if padding.len() < DH_PADDING_LEN {
        return Err(Error::BadInnerLength);
    }
    if inner.dh_prime.len() > MAX_NUMBER_LEN || inner.g_a.len() > MAX_NUMBER_LEN || b.len()
        > MAX_NUMBER_LEN {
        return Err(Error::NumberTooLong);
    }
    let g = be_minimal(inner.g as u64);
    proof {
        lemma_be_min_value(inner.g as nat);
    }
    let g_b = openssl_mod_exp(g.as_slice(), b, inner.dh_prime.as_slice());
    let raw_key = openssl_mod_exp(inner.g_a.as_slice(), b, inner.dh_prime.as_slice());
    let r = finish_client_dh(inner, new_nonce, retry_id, padding, g_b, raw_key);
    proof {
        if r is Ok {
            assert(is_ciphertext(
                tmp_aes_key(new_nonce@, inner@.server_nonce),
                tmp_aes_iv(new_nonce@, inner@.server_nonce),
                client_dh_block(inner@.nonce, inner@.server_nonce, retry_id, g_b->0@, padding@),
                r->Ok_0.0.encrypted_data@,
            ));
        }
    }
    r
}

/// Whether the two powers that the outside library computed can be made
/// into a request and a key: both are there, the client's share fits in a
/// byte string of the wire format, and the key fits in 256 bytes.
pub open spec fn powers_fit(g_b: Option<Vec<u8>>, raw_key: Option<Vec<u8>>) -> bool {
    &&& g_b is Some
    &&& raw_key is Some
    &&& raw_key->0@.len() <= CIPHER_LEN
    &&& g_b->0@.len() < crate::tl::bytes::LENGTH_LIMIT
}

/// Makes the request and the key of the two powers that the outside
/// library computed: the generator to the power of the secret exponent,
/// `g_b`, and the server's power to the power of the secret exponent,
/// `raw_key`. The key is the second power with zero bytes in front up to 256
/// bytes; the request carries the first, encrypted under the temporary key.
/// Too little padding is a `BadInnerLength`; a missing power, and a key of
/// more than 256 bytes, a `CryptoFailure`; a share of 2^24 bytes or more an
/// `OversizeLength`.
pub fn finish_client_dh(
    inner: &ServerDhInner,
    new_nonce: &[u8; 32],
    retry_id: u64,
    padding: &[u8],
    g_b: Option<Vec<u8>>,
    raw_key: Option<Vec<u8>>,
) -> (r: Result<(SetClientDhParams, [u8; 256]), Error>)
    ensures
        padding@.len() < DH_PADDING_LEN ==> r is Err && r->Err_0 == Error::BadInnerLength,
        padding@.len() >= DH_PADDING_LEN && powers_fit(g_b, raw_key) ==> r is Ok
            && r->Ok_0.0.nonce == inner.nonce
            && r->Ok_0.0.server_nonce == inner.server_nonce && r->Ok_0.1@ == Seq::new(
            (CIPHER_LEN - raw_key->0@.len()) as nat,
            |i: int| 0u8,
        ) + raw_key->0@ && be_value(r->Ok_0.1@) == be_value(raw_key->0@) && is_ciphertext(
            tmp_aes_key(new_nonce@, inner.server_nonce),
            tmp_aes_iv(new_nonce@, inner.server_nonce),
            client_dh_block(inner.nonce, inner.server_nonce, retry_id, g_b->0@, padding@),
            r->Ok_0.0.encrypted_data@,
        ),
        padding@.len() >= DH_PADDING_LEN && (g_b is None || raw_key is None || raw_key->0@.len()
            > CIPHER_LEN) ==> r is Err && r->Err_0 == Error::CryptoFailure,
        padding@.len() >= DH_PADDING_LEN && g_b is Some && raw_key is Some && raw_key->0@.len()
            <= CIPHER_LEN && g_b->0@.len() >= crate::tl::bytes::LENGTH_LIMIT ==> r is Err
            && r->Err_0 == Error::Tl(crate::tl::Error::OversizeLength),
{
    if padding.len() < DH_PADDING_LEN {
        return Err(Error::BadInnerLength);
    }
    let g_b = match g_b {
        Some(v) => v,
        None => {
            return Err(Error::CryptoFailure);
        },
    };
    let key = match crate::crypto::rsa::cipher_block(raw_key) {
        Ok(key) => key,
        Err(e) => {
            return Err(e);
        },
    };
    let data = match write_client_dh_inner_data(inner.nonce, inner.server_nonce, retry_id, &g_b) {
        Ok(data) => data,
        Err(e) => {
            return Err(Error::Tl(e));
        },
    };
    proof {
        crate::tl::parsing::lemma_le_bytes_len(inner::CLIENT_DH_INNER_DATA_ID as nat, 4);
        crate::tl::parsing::lemma_le_bytes_len(inner.nonce as nat, 16);
        crate::tl::parsing::lemma_le_bytes_len(inner.server_nonce as nat, 16);
        crate::tl::parsing::lemma_le_bytes_len(retry_id as nat, 8);
        crate::tl::parsing::lemma_le_bytes_len(g_b@.len(), 3);
        assert(data@.len() <= 44 + 7 + g_b@.len());
    }
    let fill: usize = (16 - (20 + data.len() as u64) % 16) as usize % 16;
    let used = vstd::slice::slice_subrange(padding, 0, fill);
    assert(used@ =~= padding@.take(fill as int));
    let block = add_hash(data.as_slice(), used);
    let (aes_key, aes_iv) = tmp_aes_params(new_nonce, inner.server_nonce);
    let encrypted_data = match aes_ige_encrypt(
        aes_key.as_slice(),
        aes_iv.as_slice(),
        block.as_slice(),
    ) {
        Ok(cipher) => cipher,
        Err(e) => {
            return Err(e);
        },
    };
    let req = SetClientDhParams {
        nonce: inner.nonce,
        server_nonce: inner.server_nonce,
        encrypted_data,
    };
    Ok((req, key_array(key.as_slice())))
}

/// What the third step comes to when the handshake awaits the answer
/// `res`: a failure if the answer does not hold a share that names the
/// nonces of the handshake; else the client's share and the new key, as far
/// as the outside library plays along.
pub open spec fn dh_params_outcome(
    before: HandshakeView,
    res: ServerDhParams,
    b: Seq<u8>,
    padding: Seq<u8>,
    r: Result<SetClientDhParams, Error>,
    after: HandshakeView,
) -> bool {
    match opened_server_dh(before.new_nonce, before.nonce, before.server_nonce, res) {
        Err(e) => r == Err::<SetClientDhParams, Error>(e) && after == failed(before),
        Ok(inner) => client_dh_outcome(before, inner, 0, b, padding, r, after),
    }
}

/// What making the client's share comes to, for the server's share `inner`
/// and the attempt `retry_id`.
pub open spec fn client_dh_outcome(
    before: HandshakeView,
    inner: ServerDhInnerView,
    retry_id: u64,
    b: Seq<u8>,
    padding: Seq<u8>,
    r: Result<SetClientDhParams, Error>,
    after: HandshakeView,
) -> bool {
    if padding.len() < DH_PADDING_LEN {
        r == Err::<SetClientDhParams, Error>(Error::BadInnerLength) && after == failed(before)
    } else if !usable_numbers(inner.dh_prime, inner.g_a, b) {
        r == Err::<SetClientDhParams, Error>(Error::NumberTooLong) && after == failed(before)
    } else {
        match r {
            Ok(req) => is_client_dh(
                inner,
                before.new_nonce,
                retry_id,
                b,
                padding,
                req,
                after.auth_key,
            ) && after == (HandshakeView {
                step: Step::AwaitingDhGenResult,
                g: inner.g,
                dh_prime: inner.dh_prime,
                g_a: inner.g_a,
                auth_key: after.auth_key,
                retry_id,
                ..before
            }),
            Err(e) => (e == Error::CryptoFailure || e == Error::Tl(
                crate::tl::Error::OversizeLength,
            )) && after == failed(before),
        }
    }
}

/// The hash that a verdict carries, and the number of the verdict.
pub open spec fn verdict_hash(res: DhGenResult) -> (u128, u8) {
    match res {
        DhGenResult::Accepted { new_nonce_hash1, .. } => (new_nonce_hash1, 1),
        DhGenResult::Retry { new_nonce_hash2, .. } => (new_nonce_hash2, 2),
        DhGenResult::Fail { new_nonce_hash3, .. } => (new_nonce_hash3, 3),
    }
}

/// The two nonces that a verdict names.
pub open spec fn verdict_nonces(res: DhGenResult) -> (u128, u128) {
    match res {
        DhGenResult::Accepted { nonce, server_nonce, .. } => (nonce, server_nonce),
        DhGenResult::Retry { nonce, server_nonce, .. } => (nonce, server_nonce),
        DhGenResult::Fail { nonce, server_nonce, .. } => (nonce, server_nonce),
    }
}

/// What the last step comes to when the handshake awaits the verdict
/// `res`. A verdict that names other nonces, or whose hash does not
/// confirm the new key, fails the handshake and leaves the session alone.
/// An acceptance installs the key and the first salt in the session; a call
/// for a retry keeps the handshake where it is, with the number of the
/// attempt to repeat; a refusal fails it.
pub open spec fn dh_gen_outcome(
    before: HandshakeView,
    session: StateView,
    res: DhGenResult,
    r: Result<(), Error>,
    after: HandshakeView,
    session_after: StateView,
) -> bool {
    let (nonce, server_nonce) = verdict_nonces(res);
    let (hash, number) = verdict_hash(res);
    if nonce != before.nonce {
        r == Err::<(), Error>(Error::NonceMismatch { expected: before.nonce, found: nonce })
            && after == failed(before) && session_after == session
    } else if server_nonce != before.server_nonce {
        r == Err::<(), Error>(
            Error::NonceMismatch { expected: before.server_nonce, found: server_nonce },
        ) && after == failed(before) && session_after == session
    } else if hash != new_nonce_hash(before.new_nonce, number, before.auth_key) {
        r == Err::<(), Error>(Error::InnerHashMismatch) && after == failed(before)
            && session_after == session
    } else {
        match res {
            DhGenResult::Accepted { .. } => r == Ok::<(), Error>(()) && after == (HandshakeView {
                step: Step::Established,
                ..before
            }) && session_after == (StateView {
                auth_raw_key: before.auth_key,
                salt: first_salt(before.new_nonce, before.server_nonce),
                ..session
            }),
            DhGenResult::Retry { .. } => r == Err::<(), Error>(Error::DhGenRetry) && after == (
            HandshakeView { retry_id: aux_hash(before.auth_key), ..before }) && session_after
                == session,
            DhGenResult::Fail { .. } => r == Err::<(), Error>(Error::DhGenFail) && after == failed(
                before,
            ) && session_after == session,
        }
    }
}

/// An answer to the opening request that names another nonce than the one
/// sent fails the handshake with `NonceMismatch`, and nothing but the step
/// changes.
pub proof fn lemma_nonce_binding_res_pq(
    before: HandshakeView,
    res: ResPq,
    known: Seq<KnownKey>,
    new_nonce: Seq<u8>,
    padding: Seq<u8>,
    r: Result<ReqDhParams, Error>,
    after: HandshakeView,
)
    requires
        res_pq_outcome(before, res, known, new_nonce, padding, r, after),
        res.nonce != before.nonce,
    ensures
        r == Err::<ReqDhParams, Error>(
            Error::NonceMismatch { expected: before.nonce, found: res.nonce },
        ),
        after == failed(before),
{
}

/// The nonce that an answer to the request for parameters names.
pub open spec fn dh_params_nonce(res: ServerDhParams) -> u128 {
    match res {
        ServerDhParams::Accepted { nonce, .. } => nonce,
        ServerDhParams::Fail { nonce, .. } => nonce,
    }
}

/// An answer to the request for parameters that names another nonce than
/// the one sent fails the handshake with `NonceMismatch`, and nothing but
/// the step changes.
pub proof fn lemma_nonce_binding_dh_params(
    before: HandshakeView,
    res: ServerDhParams,
    b: Seq<u8>,
    padding: Seq<u8>,
    r: Result<SetClientDhParams, Error>,
    after: HandshakeView,
)
    requires
        dh_params_outcome(before, res, b, padding, r, after),
        dh_params_nonce(res) != before.nonce,
    ensures
        r == Err::<SetClientDhParams, Error>(
            Error::NonceMismatch { expected: before.nonce, found: dh_params_nonce(res) },
        ),
        after == failed(before),
{
}

/// A verdict that names another nonce than the one sent fails the
/// handshake with `NonceMismatch`; nothing but the step changes, and the
/// session stays as it was.
pub proof fn lemma_nonce_binding_dh_gen(
    before: HandshakeView,
    session: StateView,
    res: DhGenResult,
    r: Result<(), Error>,
    after: HandshakeView,
    session_after: StateView,
)
    requires
        dh_gen_outcome(before, session, res, r, after, session_after),
        verdict_nonces(res).0 != before.nonce,
    ensures
        r == Err::<(), Error>(
            Error::NonceMismatch { expected: before.nonce, found: verdict_nonces(res).0 },
        ),
        after == failed(before),
        session_after == session,
{
}

impl Handshake {
    /// A handshake that has not begun.
    pub fn new() -> (handshake: Handshake)
        ensures
            handshake@ == (HandshakeView {
                step: Step::Init,
                nonce: 0,
                server_nonce: 0,
                new_nonce: Seq::new(32, |i: int| 0u8),
                g: 0,
                dh_prime: Seq::empty(),
                g_a: Seq::empty(),
                auth_key: Seq::new(256, |i: int| 0u8),
                retry_id: 0,
            }),
    {
        let handshake =
        Handshake {
            step: Step::Init,
            nonce: 0,
            server_nonce: 0,
            new_nonce: [0u8;32],
            g: 0,
            dh_prime: Vec::new(),
            g_a: Vec::new(),
            auth_key: [0u8;256],
            retry_id: 0,
        };
        assert(handshake@.new_nonce =~= Seq::new(32, |i: int| 0u8));
        assert(handshake@.auth_key =~= Seq::new(256, |i: int| 0u8));
        handshake
    }

    /// Where the handshake stands.
    pub fn step(&self) -> (step: Step)
        ensures
            step == self@.step,
    {
        self.step
    }

    /// The nonce that the client sent.
    pub fn nonce(&self) -> (nonce: u128)
        ensures
            nonce == self@.nonce,
    {
        self.nonce
    }

    /// The nonce that the server answered with.
    pub fn server_nonce(&self) -> (nonce: u128)
        ensures
            nonce == self@.server_nonce,
    {
        self.server_nonce
    }

    /// The key that the exchange has come to, zero before the third step.
    pub fn auth_key(&self) -> (key: &[u8; 256])
        ensures
            key@ == self@.auth_key,
    {
        &self.auth_key
    }

    /// The number of the attempt that a retry repeats.
    pub fn retry_id(&self) -> (id: u64)
        ensures
            id == self@.retry_id,
    {
        self.retry_id
    }

    /// Opens the handshake with the nonce `nonce`. A handshake that has
    /// begun already stays as it is.
    pub fn start(&mut self, nonce: u128) -> (r: Result<ReqPq, Error>)
        ensures
            old(self)@.step == Step::Init ==> r is Ok && r->Ok_0.nonce == nonce && final(self)@ == (
            HandshakeView { step: Step::AwaitingResPQ, nonce, ..old(self)@ }),
            old(self)@.step != Step::Init ==> r is Err && r->Err_0 == Error::UnexpectedResponse
                && final(self)@ == old(self)@,
            forward(old(self)@.step, final(self)@.step),
    {
        match self.step {
            Step::Init => {
                self.nonce = nonce;
                self.step = Step::AwaitingResPQ;
                Ok(ReqPq { nonce })
            },
            _ => Err(Error::UnexpectedResponse),
        }
    }

    /// Takes the answer to the opening request and makes the request for
    /// the parameters of the key exchange. `new_nonce` and `padding` are
    /// random bytes from the caller. An answer that the handshake does not
    /// await leaves it as it is; an answer to another nonce fails it before
    /// anything else is looked at.
    pub fn on_res_pq(
        &mut self,
        res: &ResPq,
        known: &[KnownKey],
        new_nonce: [u8; 32],
        padding: &[u8],
    ) -> (r: Result<ReqDhParams, Error>)
        ensures
            old(self)@.step != Step::AwaitingResPQ ==> r is Err && r->Err_0
                == Error::UnexpectedResponse && final(self)@ == old(self)@,
            old(self)@.step == Step::AwaitingResPQ ==> res_pq_outcome(
                old(self)@,
                *res,
                known@,
                new_nonce@,
                padding@,
                r,
                final(self)@,
            ),
            forward(old(self)@.step, final(self)@.step),
    {
        match self.step {
            Step::AwaitingResPQ => {},
            _ => {
                return Err(Error::UnexpectedResponse);
            },
        }
        if res.nonce != self.nonce {
            self.step = Step::Failed;
            return Err(Error::NonceMismatch { expected: self.nonce, found: res.nonce });
        }
        let (p, q) = match pq_decompose(res.pq) {
            Ok(factors) => factors,
            Err(e) => {
                self.step = Step::Failed;
                return Err(e);
            },
        };
        let (i, j) = match find_key(res.server_public_key_fingerprints.as_slice(), known) {
            Ok(places) => places,
            Err(e) => {
                self.step = Step::Failed;
                return Err(e);
            },
        };
        let ghost offered = res.server_public_key_fingerprints@;
        assert(picks(offered, known@, i as int, j as int));
        assert(!none_known(offered, known@)) by {
            assert(is_known(known@, offered[i as int]));
        }
        if padding.len() < PQ_PADDING_LEN {
            self.step = Step::Failed;
            return Err(Error::BadInnerLength);
        }
        let data = write_p_q_inner_data(
            res.pq,
            p,
            q,
            self.nonce,
            res.server_nonce,
            &new_nonce,
        );
        let fill = PQ_BLOCK_LEN - 20 - data.len();
        let used = vstd::slice::slice_subrange(padding, 0, fill);
        assert(used@ =~= padding@.take(fill as int));
        let block = add_hash(data.as_slice(), used);
        match rsa_encrypt(&known[j].key, block.as_slice()) {
            Ok(encrypted_data) => {
                self.step = Step::AwaitingDhParams;
                self.server_nonce = res.server_nonce;
                self.new_nonce = new_nonce;
                Ok(
                    ReqDhParams {
                        nonce: self.nonce,
                        server_nonce: res.server_nonce,
                        p,
                        q,
                        public_key_fingerprint: res.server_public_key_fingerprints[i],
                        encrypted_data,
                    },
                )
            },
            Err(e) => {
                self.step = Step::Failed;
                Err(e)
            },
        }
    }

    /// Takes the answer to the request for parameters and makes the
    /// request that hands the client's share over. `b` is the client's
    /// secret exponent, most significant byte first, and `padding` at least
    /// fifteen random bytes, both from the caller. An answer that the
    /// handshake does not await leaves it as it is; an answer to other
    /// nonces fails it before anything else is looked at.
    pub fn on_dh_params(&mut self, res: &ServerDhParams, b: &[u8], padding: &[u8]) -> (r: Result<
        SetClientDhParams,
        Error,
    >)
        ensures
            old(self)@.step != Step::AwaitingDhParams ==> r is Err && r->Err_0
                == Error::UnexpectedResponse && final(self)@ == old(self)@,
            old(self)@.step == Step::AwaitingDhParams ==> dh_params_outcome(
                old(self)@,
                *res,
                b@,
                padding@,
                r,
                final(self)@,
            ),
            forward(old(self)@.step, final(self)@.step),
    {
        match self.step {
            Step::AwaitingDhParams => {},
            _ => {
                return Err(Error::UnexpectedResponse);
            },
        }
        let inner = match open_server_dh(&self.new_nonce, self.nonce, self.server_nonce, res) {
            Ok(inner) => inner,
            Err(e) => {
                self.step = Step::Failed;
                return Err(e);
            },
        };
        match make_client_dh(&inner, &self.new_nonce, 0, b, padding) {
            Ok((req, key)) => {
                self.step = Step::AwaitingDhGenResult;
                self.g = inner.g;
                self.dh_prime = inner.dh_prime;
                self.g_a = inner.g_a;
                self.auth_key = key;
                self.retry_id = 0;
                Ok(req)
            },
            Err(e) => {
                self.step = Step::Failed;
                Err(e)
            },
        }
    }

    /// Makes the request that hands the client's share over once more,
    /// with a new secret exponent, after the server called for a retry.
    pub fn retry_dh(&mut self, b: &[u8], padding: &[u8]) -> (r: Result<SetClientDhParams, Error>)
        ensures
            old(self)@.step != Step::AwaitingDhGenResult ==> r is Err && r->Err_0
                == Error::UnexpectedResponse && final(self)@ == old(self)@,
            old(self)@.step == Step::AwaitingDhGenResult ==> client_dh_outcome(
                old(self)@,
                ServerDhInnerView {
                    nonce: old(self)@.nonce,
                    server_nonce: old(self)@.server_nonce,
                    g: old(self)@.g,
                    dh_prime: old(self)@.dh_prime,
                    g_a: old(self)@.g_a,
                    server_time: 0,
                },
                old(self)@.retry_id,
                b@,
                padding@,
                r,
                final(self)@,
            ),
            forward(old(self)@.step, final(self)@.step),
    {
        match self.step {
            Step::AwaitingDhGenResult => {},
            _ => {
                return Err(Error::UnexpectedResponse);
            },
        }
        let inner = ServerDhInner {
            nonce: self.nonce,
            server_nonce: self.server_nonce,
            g: self.g,
            dh_prime: crate::tl::parsing::copy_range(
                self.dh_prime.as_slice(),
                0,
                self.dh_prime.len(),
            ),
            g_a: crate::tl::parsing::copy_range(self.g_a.as_slice(), 0, self.g_a.len()),
            server_time: 0,
        };
        assert(inner.dh_prime@ =~= self.dh_prime@);
        assert(inner.g_a@ =~= self.g_a@);
        match make_client_dh(&inner, &self.new_nonce, self.retry_id, b, padding) {
            Ok((req, key)) => {
                self.auth_key = key;
                Ok(req)
            },
            Err(e) => {
                self.step = Step::Failed;
                Err(e)
            },
        }
    }

    /// Takes the server's verdict on the key exchange. On acceptance the
    /// key and the first salt go into the session.
    pub fn on_dh_gen(&mut self, res: &DhGenResult, session: &mut State) -> (r: Result<(), Error>)
        ensures
            old(self)@.step != Step::AwaitingDhGenResult ==> r is Err && r->Err_0
                == Error::UnexpectedResponse && final(self)@ == old(self)@ && final(session)@
                == old(session)@,
            old(self)@.step == Step::AwaitingDhGenResult ==> dh_gen_outcome(
                old(self)@,
                old(session)@,
                *res,
                r,
                final(self)@,
                final(session)@,
            ),
            forward(old(self)@.step, final(self)@.step),
    {
        match self.step {
            Step::AwaitingDhGenResult => {},
            _ => {
                return Err(Error::UnexpectedResponse);
            },
        }
        let (nonce, server_nonce, hash, number): (u128, u128, u128, u8) = match res {
            DhGenResult::Accepted { nonce, server_nonce, new_nonce_hash1 } => (
                *nonce,
                *server_nonce,
                *new_nonce_hash1,
                1,
            ),
            DhGenResult::Retry { nonce, server_nonce, new_nonce_hash2 } => (
                *nonce,
                *server_nonce,
                *new_nonce_hash2,
                2,
            ),
            DhGenResult::Fail { nonce, server_nonce, new_nonce_hash3 } => (
                *nonce,
                *server_nonce,
                *new_nonce_hash3,
                3,
            ),
        };
        if nonce != self.nonce {
            self.step = Step::Failed;
            return Err(Error::NonceMismatch { expected: self.nonce, found: nonce });
        }
        if server_nonce != self.server_nonce {
            self.step = Step::Failed;
            return Err(Error::NonceMismatch { expected: self.server_nonce, found: server_nonce });
        }
        if hash != nonce_hash(&self.new_nonce, number, self.auth_key.as_slice()) {
            self.step = Step::Failed;
            return Err(Error::InnerHashMismatch);
        }
        match res {
            DhGenResult::Accepted { .. } => {
                session.set_auth_key(self.auth_key);
                session.set_salt(initial_salt(&self.new_nonce, self.server_nonce));
                self.step = Step::Established;
                Ok(())
            },
            DhGenResult::Retry { .. } => {
                self.retry_id = key_aux_hash(self.auth_key.as_slice());
                Err(Error::DhGenRetry)
            },
            DhGenResult::Fail { .. } => {
                self.step = Step::Failed;
                Err(Error::DhGenFail)
            },
        }
    }
}

} // verus!
