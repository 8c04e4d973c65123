//! Fixed-width encodings, hashing and the Ed25519 companion-operation check.

use crate::error::E8004;
use vstd::prelude::*;

verus! {

/// Length of the wire form of a feedback authorization: seven 32-byte words.
pub const AUTH_STRUCT_LEN: usize = 224;

/// A 32-byte account key: an agent owner, a client, a validator or a program.
#[derive(Clone, Copy, Debug)]
pub struct Principal {
    pub bytes: [u8; 32],
}

impl View for Principal {
    type V = Seq<u8>;

    open spec fn view(&self) -> Seq<u8> {
        self.bytes@
    }
}

impl Principal {
    pub fn new_from_array(bytes: [u8; 32]) -> (r: Principal)
        ensures
            r.bytes == bytes,
    {
        Principal { bytes }
    }

    pub fn to_bytes(&self) -> (r: [u8; 32])
        ensures
            r == self.bytes,
    {
        self.bytes
    }
}

impl PartialEq for Principal {
    fn eq(&self, other: &Principal) -> (r: bool)
        ensures
            r == (self@ == other@),
    {
        bytes32_eq(&self.bytes, &other.bytes)
    }
}

impl vstd::std_specs::cmp::PartialEqSpecImpl for Principal {
    open spec fn obeys_eq_spec() -> bool {
        true
    }

    open spec fn eq_spec(&self, other: &Principal) -> bool {
        self@ == other@
    }
}

impl Eq for Principal {
}

/// Two 32-byte strings are equal byte for byte.
pub fn bytes32_eq(a: &[u8; 32], b: &[u8; 32]) -> (r: bool)
    ensures
        r == (a@ == b@),
{
    let mut i: usize = 0;
    while i < 32
        invariant
            i <= 32,
            a@.len() == 32,
            b@.len() == 32,
            forall|j: int| 0 <= j < i ==> a@[j] == b@[j],
        decreases 32 - i,
    {
        if a[i] != b[i] {
            assert(a@[i as int] != b@[i as int]);
            return false;
        }
        i = i + 1;
    }
    assert(a@ =~= b@);
    true
}

/// `expected` occurs in `data` at offset `off`.
pub fn slice_matches(data: &[u8], off: usize, expected: &[u8]) -> (r: bool)
    requires
        off + expected@.len() <= data@.len(),
    ensures
        r == (data@.subrange(off as int, off + expected@.len()) == expected@),
{
    let n = expected.len();
    let dl = data.len();
    let mut i: usize = 0;
    while i < n
        invariant
            n == expected@.len(),
            dl == data@.len(),
            off + n <= dl,
            i <= n,
            forall|j: int| 0 <= j < i ==> data@[off + j] == expected@[j],
        decreases n - i,
    {
        if data[off + i] != expected[i] {
            assert(data@.subrange(off as int, off + n)[i as int] != expected@[i as int]);
            return false;
        }
        i = i + 1;
    }
    assert(data@.subrange(off as int, off + n) =~= expected@);
    true
}

/// The unsigned integer whose big-endian form is the eight bytes `b`.
pub open spec fn be_u64(b: Seq<u8>) -> u64 {
    (b[0] as u64) << 56u64 | (b[1] as u64) << 48u64 | (b[2] as u64) << 40u64 | (b[3] as u64)
        << 32u64 | (b[4] as u64) << 24u64 | (b[5] as u64) << 16u64 | (b[6] as u64) << 8u64 | (
    b[7] as u64)
}

/// The eight big-endian bytes of `x`.
pub open spec fn u64_be(x: u64) -> Seq<u8> {
    seq![
        (x >> 56u64) as u8,
        (x >> 48u64) as u8,
        (x >> 40u64) as u8,
        (x >> 32u64) as u8,
        (x >> 24u64) as u8,
        (x >> 16u64) as u8,
        (x >> 8u64) as u8,
        x as u8,
    ]
}

/// The eight little-endian bytes of `x`.
pub open spec fn u64_le(x: u64) -> Seq<u8> {
    seq![
        x as u8,
        (x >> 8u64) as u8,
        (x >> 16u64) as u8,
        (x >> 24u64) as u8,
        (x >> 32u64) as u8,
        (x >> 40u64) as u8,
        (x >> 48u64) as u8,
        (x >> 56u64) as u8,
    ]
}

/// A 32-byte word holding `x` right-aligned, big-endian, with zeros before it.
pub open spec fn word_u64(x: u64) -> Seq<u8> {
    Seq::new(24, |i: int| 0u8) + u64_be(x)
}

/// Reading back the big-endian bytes of an integer gives the integer.
pub proof fn lemma_be_u64_round_trip(x: u64)
    ensures
        be_u64(u64_be(x)) == x,
{
    assert(((x >> 56u64) as u8 as u64) << 56u64 | ((x >> 48u64) as u8 as u64) << 48u64 | ((x
        >> 40u64) as u8 as u64) << 40u64 | ((x >> 32u64) as u8 as u64) << 32u64 | ((x >> 24u64)
        as u8 as u64) << 24u64 | ((x >> 16u64) as u8 as u64) << 16u64 | ((x >> 8u64) as u8 as u64)
        << 8u64 | (x as u8 as u64) == x) by (bit_vector);
}

/// Reads the big-endian integer in `b[off..off + 8]`.
pub fn read_be_u64(b: &[u8], off: usize) -> (r: u64)
    requires
        off + 8 <= b@.len(),
    ensures
        r == be_u64(b@.subrange(off as int, off + 8)),
{
    let s = Ghost(b@.subrange(off as int, off + 8));
    assert(s@[0] == b@[off as int] && s@[7] == b@[off + 7]);
    assert(s@[1] == b@[off + 1] && s@[2] == b@[off + 2] && s@[3] == b@[off + 3]);
    assert(s@[4] == b@[off + 4] && s@[5] == b@[off + 5] && s@[6] == b@[off + 6]);
    (b[off] as u64) << 56u64 | (b[off + 1] as u64) << 48u64 | (b[off + 2] as u64) << 40u64 | (
    b[off + 3] as u64) << 32u64 | (b[off + 4] as u64) << 24u64 | (b[off + 5] as u64) << 16u64 | (
    b[off + 6] as u64) << 8u64 | (b[off + 7] as u64)
}

/// Appends the eight big-endian bytes of `x`.
pub fn push_u64_be(v: &mut Vec<u8>, x: u64)
    ensures
        final(v)@ == old(v)@ + u64_be(x),
{
    v.push((x >> 56u64) as u8);
    v.push((x >> 48u64) as u8);
    v.push((x >> 40u64) as u8);
    v.push((x >> 32u64) as u8);
    v.push((x >> 24u64) as u8);
    v.push((x >> 16u64) as u8);
    v.push((x >> 8u64) as u8);
    v.push(x as u8);
    assert(v@ =~= old(v)@ + u64_be(x));
}

/// Appends the eight little-endian bytes of `x`.
pub fn push_u64_le(v: &mut Vec<u8>, x: u64)
    ensures
        final(v)@ == old(v)@ + u64_le(x),
{
    v.push(x as u8);
    v.push((x >> 8u64) as u8);
    v.push((x >> 16u64) as u8);
    v.push((x >> 24u64) as u8);
    v.push((x >> 32u64) as u8);
    v.push((x >> 40u64) as u8);
    v.push((x >> 48u64) as u8);
    v.push((x >> 56u64) as u8);
    assert(v@ =~= old(v)@ + u64_le(x));
}

/// Appends all the bytes of `s`.
pub fn push_bytes(v: &mut Vec<u8>, s: &[u8])
    ensures
        final(v)@ == old(v)@ + s@,
{
    let n = s.len();
    let mut i: usize = 0;
    while i < n
        invariant
            n == s@.len(),
            i <= n,
            v@ == old(v)@ + s@.subrange(0, i as int),
        decreases n - i,
    {
        v.push(s[i]);
        assert(s@.subrange(0, i + 1) =~= s@.subrange(0, i as int).push(s@[i as int]));
        i = i + 1;
    }
    assert(s@.subrange(0, n as int) =~= s@);
}

/// What the owner of an agent signs off-ledger to let one client submit
/// feedback on the agent.
#[derive(Clone, Copy, Debug)]
pub struct FeedbackAuth {
    pub agent_id: u64,
    pub client: Principal,
    /// The highest feedback index the client may reach with it.
    pub index_limit: u64,
    /// Unix seconds; the authorization holds strictly before this time.
    pub expiry: u64,
    pub chain_id: u64,
    pub identity_registry: Principal,
    pub signer: Principal,
}

/// `a` is what the 224-byte wire form `b` holds: seven 32-byte words, the
/// integer fields right-aligned and big-endian within theirs.
pub open spec fn decodes_to(b: Seq<u8>, a: FeedbackAuth) -> bool {
    &&& b.len() == AUTH_STRUCT_LEN
    &&& a.agent_id == be_u64(b.subrange(24, 32))
    &&& a.client@ == b.subrange(32, 64)
    &&& a.index_limit == be_u64(b.subrange(88, 96))
    &&& a.expiry == be_u64(b.subrange(120, 128))
    &&& a.chain_id == be_u64(b.subrange(152, 160))
    &&& a.identity_registry@ == b.subrange(160, 192)
    &&& a.signer@ == b.subrange(192, 224)
}

/// The 224-byte wire form of `a`, with zeros before each integer.
pub open spec fn encode_auth(a: FeedbackAuth) -> Seq<u8> {
    word_u64(a.agent_id) + a.client@ + word_u64(a.index_limit) + word_u64(a.expiry) + word_u64(
        a.chain_id,
    ) + a.identity_registry@ + a.signer@
}

/// The 128 bytes that are hashed and signed: the fields tightly packed, each
/// integer in eight big-endian bytes.
pub open spec fn packed_auth(a: FeedbackAuth) -> Seq<u8> {
    u64_be(a.agent_id) + a.client@ + u64_be(a.index_limit) + u64_be(a.expiry) + u64_be(a.chain_id)
        + a.identity_registry@ + a.signer@
}

/// The Keccak-256 digest of `data`.
pub uninterp spec fn keccak256(data: Seq<u8>) -> Seq<u8>;

/// Relies on solana_program::keccak::hash: the Keccak-256 digest of the input,
/// 32 bytes that depend on the input alone.
#[verifier::external_body]
pub fn keccak_bytes(input: &[u8]) -> (r: [u8; 32])
    ensures
        r@ == keccak256(input@),
{
    solana_program::keccak::hash(input).0
}

/// Reads a feedback authorization from its wire form.
pub fn decode_auth_struct(bytes: Vec<u8>) -> (r: Result<FeedbackAuth, E8004>)
    ensures
        bytes@.len() != AUTH_STRUCT_LEN <==> r is Err,
        r is Err ==> r == Err::<FeedbackAuth, E8004>(E8004::BadSignature),
        r matches Ok(a) ==> decodes_to(bytes@, a),
{
    if bytes.len() != AUTH_STRUCT_LEN {
        return Err(E8004::BadSignature);
    }
    parse_feedback_auth(bytes.as_slice())
}

/// Copies the 32 bytes of `b` at `off` into an array.
fn read_word(b: &[u8], off: usize) -> (r: [u8; 32])
    requires
        off + 32 <= b@.len(),
    ensures
        r@ == b@.subrange(off as int, off + 32),
{
    let mut w = [0u8; 32];
    let bl = b.len();
    let mut i: usize = 0;
    while i < 32
        invariant
            bl == b@.len(),
            off + 32 <= bl,
            i <= 32,
            w@.len() == 32,
            forall|j: int| 0 <= j < i ==> w@[j] == b@[off + j],
        decreases 32 - i,
    {
        w[i] = b[off + i];
        i = i + 1;
    }
    assert(w@ =~= b@.subrange(off as int, off + 32));
    w
}

fn parse_feedback_auth(bytes: &[u8]) -> (r: Result<FeedbackAuth, E8004>)
    ensures
        bytes@.len() != AUTH_STRUCT_LEN <==> r is Err,
        r is Err ==> r == Err::<FeedbackAuth, E8004>(E8004::BadSignature),
        r matches Ok(a) ==> decodes_to(bytes@, a),
{
    if bytes.len() != AUTH_STRUCT_LEN {
        return Err(E8004::BadSignature);
    }
    let agent_id = read_be_u64(bytes, 24);
    let client = Principal { bytes: read_word(bytes, 32) };
    let index_limit = read_be_u64(bytes, 88);
    let expiry = read_be_u64(bytes, 120);
    let chain_id = read_be_u64(bytes, 152);
    let identity_registry = Principal { bytes: read_word(bytes, 160) };
    let signer = Principal { bytes: read_word(bytes, 192) };
    Ok(FeedbackAuth { agent_id, client, index_limit, expiry, chain_id, identity_registry, signer })
}

/// Writes a feedback authorization in its wire form.
pub fn encode_auth_struct(a: &FeedbackAuth) -> (r: Vec<u8>)
    ensures
        r@ == encode_auth(*a),
{
    let mut v: Vec<u8> = Vec::new();
    push_word_u64(&mut v, a.agent_id);
    push_bytes(&mut v, a.client.bytes.as_slice());
    push_word_u64(&mut v, a.index_limit);
    push_word_u64(&mut v, a.expiry);
    push_word_u64(&mut v, a.chain_id);
    push_bytes(&mut v, a.identity_registry.bytes.as_slice());
    push_bytes(&mut v, a.signer.bytes.as_slice());
    assert(v@ =~= encode_auth(*a));
    v
}

/// Appends `x` as a right-aligned big-endian 32-byte word.
fn push_word_u64(v: &mut Vec<u8>, x: u64)
    ensures
        final(v)@ == old(v)@ + word_u64(x),
{
    let mut i: usize = 0;
    while i < 24
        invariant
            i <= 24,
            v@ == old(v)@ + Seq::new(i as nat, |j: int| 0u8),
        decreases 24 - i,
    {
        v.push(0u8);
        assert(Seq::new((i + 1) as nat, |j: int| 0u8) =~= Seq::new(i as nat, |j: int| 0u8).push(
            0u8,
        ));
        i = i + 1;
    }
    push_u64_be(v, x);
    assert(v@ =~= old(v)@ + word_u64(x));
}

/// The digest of the packed form of `a`, which the agent's owner signs.
pub fn keccak_auth_struct(a: &FeedbackAuth) -> (r: [u8; 32])
    ensures
        r@ == keccak256(packed_auth(*a)),
{
    let mut v: Vec<u8> = Vec::new();
    push_u64_be(&mut v, a.agent_id);
    push_bytes(&mut v, a.client.bytes.as_slice());
    push_u64_be(&mut v, a.index_limit);
    push_u64_be(&mut v, a.expiry);
    push_u64_be(&mut v, a.chain_id);
    push_bytes(&mut v, a.identity_registry.bytes.as_slice());
    push_bytes(&mut v, a.signer.bytes.as_slice());
    assert(v@ =~= packed_auth(*a));
    keccak_bytes(v.as_slice())
}

/// Decoding the wire form of an authorization gives back the authorization.
pub proof fn lemma_auth_round_trip(a: FeedbackAuth)
    ensures
        encode_auth(a).len() == AUTH_STRUCT_LEN,
        decodes_to(encode_auth(a), a),
        forall|b: FeedbackAuth| decodes_to(encode_auth(a), b) ==> b == a,
{
    let e = encode_auth(a);
    lemma_be_u64_round_trip(a.agent_id);
    lemma_be_u64_round_trip(a.index_limit);
    lemma_be_u64_round_trip(a.expiry);
    lemma_be_u64_round_trip(a.chain_id);
    assert(e.subrange(24, 32) =~= u64_be(a.agent_id));
    assert(e.subrange(32, 64) =~= a.client@);
    assert(e.subrange(88, 96) =~= u64_be(a.index_limit));
    assert(e.subrange(120, 128) =~= u64_be(a.expiry));
    assert(e.subrange(152, 160) =~= u64_be(a.chain_id));
    assert(e.subrange(160, 192) =~= a.identity_registry@);
    assert(e.subrange(192, 224) =~= a.signer@);
    assert forall|b: FeedbackAuth| decodes_to(e, b) implies b == a by {
        assert(b.client.bytes =~= a.client.bytes);
        assert(b.identity_registry.bytes =~= a.identity_registry.bytes);
        assert(b.signer.bytes =~= a.signer.bytes);
    }
}

/// One operation of the same transaction, as the verification adapter sees
/// it: the program it is addressed to and its instruction data.
#[derive(Clone, Debug)]
pub struct CompanionOp {
    pub program_id: Principal,
    pub data: Vec<u8>,
}

/// The address of the host's Ed25519 signature-verification program
/// (`Ed25519SigVerify111111111111111111111111111` in base58).
pub open spec fn ed25519_program_key() -> Seq<u8> {
    seq![
        3u8, 125u8, 70u8, 214u8, 124u8, 147u8, 251u8, 190u8, 18u8, 249u8, 66u8, 143u8, 131u8,
        141u8, 64u8, 255u8, 5u8, 112u8, 116u8, 73u8, 39u8, 244u8, 138u8, 100u8, 252u8, 202u8,
        112u8, 68u8, 128u8, 0u8, 0u8, 0u8,
    ]
}

/// Relies on solana_program::ed25519_program::id: the address of the Ed25519
/// program, declared there as `Ed25519SigVerify111111111111111111111111111`.
#[verifier::external_body]
fn ed25519_program_id() -> (r: Principal)
    ensures
        r@ == ed25519_program_key(),
{
    Principal { bytes: solana_program::ed25519_program::id().to_bytes() }
}

/// The little-endian 16-bit field at `at` in `d`.
pub open spec fn le16(d: Seq<u8>, at: int) -> int {
    d[at] as int + 256 * (d[at + 1] as int)
}

/// `op` is an Ed25519 check of exactly one signature whose public key,
/// 32-byte message and 64-byte signature, sliced from its data by the offsets
/// of its header, are `signer`, `digest` and `sig`.
pub open spec fn op_attests(op: CompanionOp, digest: Seq<u8>, sig: Seq<u8>, signer: Seq<u8>) -> bool {
    let d = op.data@;
    let sig_off = le16(d, 6);
    let msg_off = le16(d, 8);
    let pub_off = le16(d, 10);
    &&& op.program_id@ == ed25519_program_key()
    &&& d.len() >= 12
    &&& d[0] == 1
    &&& le16(d, 2) == 64
    &&& le16(d, 4) == 32
    &&& sig_off + 64 <= d.len()
    &&& msg_off + 32 <= d.len()
    &&& pub_off + 32 <= d.len()
    &&& d.subrange(pub_off, pub_off + 32) == signer
    &&& d.subrange(msg_off, msg_off + 32) == digest
    &&& d.subrange(sig_off, sig_off + 64) == sig
}

/// Some operation of `ops` checks the signature `sig` by `signer` over `digest`.
pub open spec fn attested(ops: Seq<CompanionOp>, digest: Seq<u8>, sig: Seq<u8>, signer: Seq<u8>) -> bool {
    exists|i: int| 0 <= i < ops.len() && #[trigger] op_attests(ops[i], digest, sig, signer)
}

/// Reads the little-endian 16-bit field at `at`.
fn read_le16(d: &[u8], at: usize) -> (r: usize)
    requires
        at + 2 <= d@.len(),
    ensures
        r == le16(d@, at as int),
        r < 65536,
{
    (d[at] as usize) + 256 * (d[at + 1] as usize)
}

/// Whether `data`, addressed to the Ed25519 program, checks the given triple.
fn ed25519_data_attests(data: &[u8], digest32: &[u8; 32], sig64: &[u8], signer: &Principal) -> (r:
    bool)
    ensures
        r == ({
            let d = data@;
            let sig_off = le16(d, 6);
            let msg_off = le16(d, 8);
            let pub_off = le16(d, 10);
            &&& d.len() >= 12
            &&& d[0] == 1
            &&& le16(d, 2) == 64
            &&& le16(d, 4) == 32
            &&& sig_off + 64 <= d.len()
            &&& msg_off + 32 <= d.len()
            &&& pub_off + 32 <= d.len()
            &&& d.subrange(pub_off, pub_off + 32) == signer@
            &&& d.subrange(msg_off, msg_off + 32) == digest32@
            &&& d.subrange(sig_off, sig_off + 64) == sig64@
        }),
{
    let len = data.len();
    if len < 12 {
        return false;
    }
    if data[0] != 1 {
        return false;
    }
    let sig_len = read_le16(data, 2);
    let msg_len = read_le16(data, 4);
    let sig_off = read_le16(data, 6);
    let msg_off = read_le16(data, 8);
    let pub_off = read_le16(data, 10);
    if sig_off + sig_len > len || pub_off + 32 > len || msg_off + msg_len > len {
        return false;
    }
    if sig_len != 64 || msg_len != 32 {
        return false;
    }
    if sig64.len() != 64 {
        return false;
    }
    slice_matches(data, pub_off, signer.bytes.as_slice()) && slice_matches(
        data,
        msg_off,
        digest32.as_slice(),
    ) && slice_matches(data, sig_off, sig64)
}

/// Whether some operation of the transaction is an Ed25519 check of the
/// signature `sig64` by `expected_signer` over `digest32`. Operations for
/// other programs, and malformed or undersized ones, are skipped.
pub fn verify_ed25519(
    digest32: &[u8; 32],
    sig64: &[u8],
    expected_signer: &Principal,
    ops: &Vec<CompanionOp>,
) -> (r: bool)
    ensures
        r == attested(ops@, digest32@, sig64@, expected_signer@),
{
    let ed25519 = ed25519_program_id();
    let n = ops.len();
    let mut i: usize = 0;
    while i < n
        invariant
            n == ops@.len(),
            i <= n,
            ed25519@ == ed25519_program_key(),
            forall|j: int| 0 <= j < i ==> !op_attests(#[trigger] ops@[j], digest32@, sig64@, expected_signer@),
        decreases n - i,
    {
        let op = &ops[i];
        if op.program_id == ed25519 {
            if ed25519_data_attests(op.data.as_slice(), digest32, sig64, expected_signer) {
                assert(op_attests(ops@[i as int], digest32@, sig64@, expected_signer@));
                return true;
            }
        }
        i = i + 1;
    }
    false
}

/// The UTF-8 bytes of a string.
pub open spec fn utf8_bytes(s: Seq<char>) -> Seq<u8> {
    vstd::utf8::encode_utf8(s)
}

} // verus!
