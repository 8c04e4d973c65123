use erc8004_registry::identity::{
    agent_register, agent_set_metadata, init_platform, AgentRegisterCtx, AgentSetMetaCtx,
    InitPlatformCtx,
};
use erc8004_registry::registry::Registry;
use erc8004_registry::reputation::{
    give_feedback_ed25519, revoke_feedback, GiveFeedbackCtx, RevokeFeedbackCtx,
};
use erc8004_registry::util::{
    decode_auth_struct, encode_auth_struct, keccak_auth_struct, keccak_bytes, verify_ed25519,
    CompanionOp, FeedbackAuth, Principal,
};
use erc8004_registry::validation::{
    validation_request, validation_response, ValidationRequestCtx, ValidationResponseCtx,
};
use erc8004_registry::E8004;

const AUTHORITY: [u8; 32] = [9u8; 32];
const OWNER: [u8; 32] = [1u8; 32];
const CLIENT: [u8; 32] = [2u8; 32];
const VALIDATOR: [u8; 32] = [3u8; 32];
const NOW: u64 = 1_000;

fn p(b: [u8; 32]) -> Principal {
    Principal::new_from_array(b)
}

fn ed25519_id() -> Principal {
    p(solana_program::ed25519_program::id().to_bytes())
}

/// A registry with `n` agents, all owned by OWNER; agent ids run from 1 to n.
fn registry_with_agents(n: u64) -> Registry {
    let mut reg = Registry::new();
    init_platform(&mut reg, &InitPlatformCtx { authority: p(AUTHORITY) }).unwrap();
    for _ in 0..n {
        let ctx = AgentRegisterCtx { authority: p(AUTHORITY), owner: p(OWNER) };
        agent_register(&mut reg, &ctx, "ipfs://agent".to_string()).unwrap();
    }
    reg
}

fn auth(agent_id: u64, client: [u8; 32], index_limit: u64, expiry: u64) -> FeedbackAuth {
    FeedbackAuth {
        agent_id,
        client: p(client),
        index_limit,
        expiry,
        chain_id: 101,
        identity_registry: p([7u8; 32]),
        signer: p(OWNER),
    }
}

/// Instruction data of an Ed25519 check of `sig` by `signer` over `msg`.
fn ed25519_data(signer: &[u8; 32], msg: &[u8; 32], sig: &[u8]) -> Vec<u8> {
    let pub_off: u16 = 12;
    let msg_off: u16 = 44;
    let sig_off: u16 = 76;
    let mut d = vec![1u8, 0u8];
    d.extend_from_slice(&(sig.len() as u16).to_le_bytes());
    d.extend_from_slice(&32u16.to_le_bytes());
    d.extend_from_slice(&sig_off.to_le_bytes());
    d.extend_from_slice(&msg_off.to_le_bytes());
    d.extend_from_slice(&pub_off.to_le_bytes());
    d.extend_from_slice(signer);
    d.extend_from_slice(msg);
    d.extend_from_slice(sig);
    d
}

fn signature() -> Vec<u8> {
    (0..64u8).collect()
}

fn feedback_ctx(agent_id: u64, client: [u8; 32], a: &FeedbackAuth, now: u64) -> GiveFeedbackCtx {
    let digest = keccak_auth_struct(a);
    let op = CompanionOp { program_id: ed25519_id(), data: ed25519_data(&a.signer.bytes, &digest, &signature()) };
    GiveFeedbackCtx { agent_id, client: p(client), now, instructions: vec![op] }
}

fn give(
    reg: &mut Registry,
    ctx: &GiveFeedbackCtx,
    score: u8,
    a: &FeedbackAuth,
    expected_index: u64,
) -> Result<(), E8004> {
    give_feedback_ed25519(
        reg,
        ctx,
        score,
        [4u8; 32],
        [5u8; 32],
        "ipfs://feedback".to_string(),
        [6u8; 32],
        encode_auth_struct(a),
        signature(),
        expected_index,
    )
    .map(|_| ())
}

#[test]
fn keccak_of_empty_input() {
    let h = keccak_bytes(&[]);
    assert_eq!(h[0], 0xc5);
    assert_eq!(h[1], 0xd2);
    assert_eq!(h[31], 0x70);
}

#[test]
fn ed25519_program_address_bytes() {
    let expected: [u8; 32] = [
        3, 125, 70, 214, 124, 147, 251, 190, 18, 249, 66, 143, 131, 141, 64, 255, 5, 112, 116, 73,
        39, 244, 138, 100, 252, 202, 112, 68, 128, 0, 0, 0,
    ];
    assert_eq!(ed25519_id().to_bytes(), expected);
}

#[test]
fn auth_round_trip() {
    let a = auth(7, CLIENT, 3, 0x0102_0304_0506_0708);
    let bytes = encode_auth_struct(&a);
    assert_eq!(bytes.len(), 224);
    assert_eq!(&bytes[24..32], &[0, 0, 0, 0, 0, 0, 0, 7]);
    assert_eq!(&bytes[120..128], &[1, 2, 3, 4, 5, 6, 7, 8]);
    assert_eq!(&bytes[32..64], &CLIENT);
    assert!(bytes[..24].iter().all(|b| *b == 0));
    let back = decode_auth_struct(bytes).unwrap();
    assert_eq!(back.agent_id, 7);
    assert_eq!(back.client, p(CLIENT));
    assert_eq!(back.index_limit, 3);
    assert_eq!(back.expiry, 0x0102_0304_0506_0708);
    assert_eq!(back.chain_id, 101);
    assert_eq!(back.identity_registry, p([7u8; 32]));
    assert_eq!(back.signer, p(OWNER));
}

#[test]
fn decode_ignores_high_word_bytes() {
    let mut bytes = encode_auth_struct(&auth(5, CLIENT, 2, 9));
    bytes[0] = 0xff;
    assert_eq!(decode_auth_struct(bytes).unwrap().agent_id, 5);
}

#[test]
fn decode_rejects_wrong_length() {
    assert_eq!(decode_auth_struct(vec![0u8; 223]).err(), Some(E8004::BadSignature));
    assert_eq!(decode_auth_struct(vec![0u8; 225]).err(), Some(E8004::BadSignature));
    assert_eq!(decode_auth_struct(Vec::new()).err(), Some(E8004::BadSignature));
}

#[test]
fn digest_is_over_packed_fields() {
    let a = auth(7, CLIENT, 3, 500);
    let mut packed = Vec::new();
    packed.extend_from_slice(&7u64.to_be_bytes());
    packed.extend_from_slice(&CLIENT);
    packed.extend_from_slice(&3u64.to_be_bytes());
    packed.extend_from_slice(&500u64.to_be_bytes());
    packed.extend_from_slice(&101u64.to_be_bytes());
    packed.extend_from_slice(&[7u8; 32]);
    packed.extend_from_slice(&OWNER);
    assert_eq!(packed.len(), 128);
    assert_eq!(keccak_auth_struct(&a), keccak_bytes(&packed));
    assert_ne!(keccak_auth_struct(&a), keccak_bytes(&encode_auth_struct(&a)));
}

#[test]
fn verify_finds_matching_op() {
    let digest = [8u8; 32];
    let sig = signature();
    let good = CompanionOp { program_id: ed25519_id(), data: ed25519_data(&OWNER, &digest, &sig) };
    let other_program = CompanionOp { program_id: p([0u8; 32]), data: good.data.clone() };
    let short = CompanionOp { program_id: ed25519_id(), data: vec![1u8; 11] };
    assert!(verify_ed25519(&digest, &sig, &p(OWNER), &vec![short.clone(), good.clone()]));
    assert!(!verify_ed25519(&digest, &sig, &p(OWNER), &vec![short, other_program]));
    assert!(!verify_ed25519(&digest, &sig, &p(CLIENT), &vec![good.clone()]));
    assert!(!verify_ed25519(&[9u8; 32], &sig, &p(OWNER), &vec![good.clone()]));
    let mut other_sig = sig.clone();
    other_sig[0] ^= 1;
    assert!(!verify_ed25519(&digest, &other_sig, &p(OWNER), &vec![good]));
}

#[test]
fn verify_skips_bad_headers() {
    let digest = [8u8; 32];
    let sig = signature();
    let mut two = ed25519_data(&OWNER, &digest, &sig);
    two[0] = 2;
    let mut off_end = ed25519_data(&OWNER, &digest, &sig);
    off_end[6] = 0xff;
    let mut wrong_msg_len = ed25519_data(&OWNER, &digest, &sig);
    wrong_msg_len[4] = 31;
    let ops: Vec<CompanionOp> = vec![two, off_end, wrong_msg_len]
        .into_iter()
        .map(|data| CompanionOp { program_id: ed25519_id(), data })
        .collect();
    assert!(!verify_ed25519(&digest, &sig, &p(OWNER), &ops));
    assert!(!verify_ed25519(&digest, &sig, &p(OWNER), &Vec::new()));
}

#[test]
fn first_feedback_creates_index_and_record() {
    let mut reg = registry_with_agents(7);
    let a = auth(7, CLIENT, 1, NOW + 10);
    let ctx = feedback_ctx(7, CLIENT, &a, NOW);
    assert_eq!(give(&mut reg, &ctx, 80, &a, 1), Ok(()));
    let ci = reg.client_index(7, &p(CLIENT)).unwrap();
    assert_eq!(ci.last_index, 1);
    assert_eq!(ci.agent, 7);
    let fb = reg.feedback(7, &p(CLIENT), 1).unwrap();
    assert_eq!(fb.score, 80);
    assert_eq!(fb.index, 1);
    assert!(!fb.revoked);
    assert_eq!(fb.file_uri, "ipfs://feedback");
    assert_eq!(give(&mut reg, &ctx, 80, &a, 1), Err(E8004::IndexLimit));
    assert_eq!(reg.client_index(7, &p(CLIENT)).unwrap().last_index, 1);
}

#[test]
fn feedback_event_fields() {
    let mut reg = registry_with_agents(1);
    let a = auth(1, CLIENT, 5, NOW + 10);
    let ctx = feedback_ctx(1, CLIENT, &a, NOW);
    let ev = give_feedback_ed25519(
        &mut reg,
        &ctx,
        42,
        [4u8; 32],
        [5u8; 32],
        String::new(),
        [6u8; 32],
        encode_auth_struct(&a),
        signature(),
        1,
    )
    .unwrap();
    assert_eq!(ev.agent, 1);
    assert_eq!(ev.client, p(CLIENT));
    assert_eq!(ev.score, 42);
    assert_eq!(ev.tag1, [4u8; 32]);
    assert_eq!(ev.tag2, [5u8; 32]);
}

#[test]
fn indices_advance_one_by_one_up_to_limit() {
    let mut reg = registry_with_agents(1);
    let a = auth(1, CLIENT, 3, NOW + 10);
    let ctx = feedback_ctx(1, CLIENT, &a, NOW);
    assert_eq!(give(&mut reg, &ctx, 10, &a, 2), Err(E8004::IndexLimit));
    assert_eq!(give(&mut reg, &ctx, 10, &a, 0), Err(E8004::IndexLimit));
    for i in 1..=3u64 {
        assert_eq!(give(&mut reg, &ctx, 10, &a, i), Ok(()));
        assert_eq!(reg.client_index(1, &p(CLIENT)).unwrap().last_index, i);
    }
    assert_eq!(give(&mut reg, &ctx, 10, &a, 4), Err(E8004::IndexLimit));
    assert!(reg.feedback(1, &p(CLIENT), 4).is_none());
    for i in 1..=3u64 {
        assert_eq!(reg.feedback(1, &p(CLIENT), i).unwrap().index, i);
    }
    assert!(reg.feedback(1, &p(CLIENT), 0).is_none());
}

#[test]
fn expiry_is_strict() {
    let mut reg = registry_with_agents(1);
    let a = auth(1, CLIENT, 5, NOW);
    let ctx = feedback_ctx(1, CLIENT, &a, NOW);
    assert_eq!(give(&mut reg, &ctx, 10, &a, 1), Err(E8004::ExpiredAuth));
    let ctx_before = feedback_ctx(1, CLIENT, &a, NOW - 1);
    assert_eq!(give(&mut reg, &ctx_before, 10, &a, 1), Ok(()));
}

#[test]
fn score_above_hundred_changes_nothing() {
    let mut reg = registry_with_agents(1);
    let a = auth(1, CLIENT, 5, NOW + 10);
    let ctx = feedback_ctx(1, CLIENT, &a, NOW);
    assert_eq!(give(&mut reg, &ctx, 101, &a, 1), Err(E8004::InvalidScore));
    assert!(reg.client_index(1, &p(CLIENT)).is_none());
    assert!(reg.feedback(1, &p(CLIENT), 1).is_none());
    assert_eq!(give(&mut reg, &ctx, 100, &a, 1), Ok(()));
}

#[test]
fn feedback_error_cases() {
    let mut reg = registry_with_agents(2);
    let a = auth(1, CLIENT, 5, NOW + 10);
    let ctx = feedback_ctx(1, CLIENT, &a, NOW);

    let missing = feedback_ctx(3, CLIENT, &a, NOW);
    assert_eq!(give(&mut reg, &missing, 10, &a, 1), Err(E8004::AgentNotFound));

    let long_uri = "x".repeat(257);
    let r = give_feedback_ed25519(
        &mut reg, &ctx, 10, [0; 32], [0; 32], long_uri, [0; 32], encode_auth_struct(&a),
        signature(), 1,
    );
    assert_eq!(r.err(), Some(E8004::Unauthorized));

    let r = give_feedback_ed25519(
        &mut reg, &ctx, 10, [0; 32], [0; 32], String::new(), [0; 32], encode_auth_struct(&a),
        vec![0u8; 63], 1,
    );
    assert_eq!(r.err(), Some(E8004::BadSignature));

    let own = auth(1, OWNER, 5, NOW + 10);
    let self_ctx = feedback_ctx(1, OWNER, &own, NOW);
    assert_eq!(give(&mut reg, &self_ctx, 10, &own, 1), Err(E8004::SelfFeedback));

    let r = give_feedback_ed25519(
        &mut reg, &ctx, 10, [0; 32], [0; 32], String::new(), [0; 32], vec![0u8; 100],
        signature(), 1,
    );
    assert_eq!(r.err(), Some(E8004::BadSignature));

    let other_agent = auth(2, CLIENT, 5, NOW + 10);
    assert_eq!(give(&mut reg, &ctx, 10, &other_agent, 1), Err(E8004::Unauthorized));

    let other_client = auth(1, [8u8; 32], 5, NOW + 10);
    assert_eq!(give(&mut reg, &ctx, 10, &other_client, 1), Err(E8004::Unauthorized));

    let mut wrong_signer = auth(1, CLIENT, 5, NOW + 10);
    wrong_signer.signer = p([8u8; 32]);
    let ws_ctx = feedback_ctx(1, CLIENT, &wrong_signer, NOW);
    assert_eq!(give(&mut reg, &ws_ctx, 10, &wrong_signer, 1), Err(E8004::Unauthorized));

    assert!(reg.client_index(1, &p(CLIENT)).is_none());
}

#[test]
fn missing_companion_signature_is_bad_signature() {
    let mut reg = registry_with_agents(1);
    let a = auth(1, CLIENT, 5, NOW + 10);
    let mut ctx = feedback_ctx(1, CLIENT, &a, NOW);
    let good = ctx.instructions.clone();
    ctx.instructions.clear();
    assert_eq!(give(&mut reg, &ctx, 10, &a, 1), Err(E8004::BadSignature));
    let other = auth(1, CLIENT, 6, NOW + 10);
    ctx.instructions = feedback_ctx(1, CLIENT, &other, NOW).instructions;
    assert_eq!(give(&mut reg, &ctx, 10, &a, 1), Err(E8004::BadSignature));
    assert!(reg.client_index(1, &p(CLIENT)).is_none());
    ctx.instructions = good;
    assert_eq!(give(&mut reg, &ctx, 10, &a, 1), Ok(()));
}

#[test]
fn revoke_once_keeps_fields() {
    let mut reg = registry_with_agents(1);
    let a = auth(1, CLIENT, 5, NOW + 10);
    let ctx = feedback_ctx(1, CLIENT, &a, NOW);
    give(&mut reg, &ctx, 55, &a, 1).unwrap();
    let rctx = RevokeFeedbackCtx {
        agent_id: 1,
        feedback_client: p(CLIENT),
        feedback_index: 1,
        client: p(CLIENT),
    };
    let stranger = RevokeFeedbackCtx { client: p(OWNER), ..rctx };
    assert_eq!(revoke_feedback(&mut reg, &stranger, 1).err(), Some(E8004::Unauthorized));
    assert!(!reg.feedback(1, &p(CLIENT), 1).unwrap().revoked);
    let ev = revoke_feedback(&mut reg, &rctx, 1).unwrap();
    assert_eq!(ev.agent, 1);
    assert_eq!(ev.client, p(CLIENT));
    assert_eq!(ev.index, 1);
    let fb = reg.feedback(1, &p(CLIENT), 1).unwrap();
    assert!(fb.revoked);
    assert_eq!(fb.score, 55);
    assert_eq!(fb.file_uri, "ipfs://feedback");
    assert_eq!(fb.tag1, [4u8; 32]);
    assert_eq!(revoke_feedback(&mut reg, &rctx, 1).err(), Some(E8004::Unauthorized));
    let missing = RevokeFeedbackCtx { feedback_index: 2, ..rctx };
    assert_eq!(revoke_feedback(&mut reg, &missing, 2).err(), Some(E8004::Unauthorized));
}

fn request_hash(validator: &[u8; 32], agent_id: u64, uri: &str) -> [u8; 32] {
    let mut pre = Vec::new();
    pre.extend_from_slice(validator);
    pre.extend_from_slice(&agent_id.to_le_bytes());
    pre.extend_from_slice(uri.as_bytes());
    keccak_bytes(&pre)
}

#[test]
fn validation_request_created_once() {
    let mut reg = registry_with_agents(1);
    let ctx = ValidationRequestCtx { agent_id: 1, owner: p(OWNER), now: 77 };
    let h = request_hash(&VALIDATOR, 1, "ipfs://req");
    let ev = validation_request(&mut reg, &ctx, p(VALIDATOR), "ipfs://req".to_string(), h).unwrap();
    assert_eq!(ev.agent, 1);
    assert_eq!(ev.validator, p(VALIDATOR));
    assert_eq!(ev.request_hash, h);
    let rq = reg.request(1, &h).unwrap();
    assert_eq!(rq.timestamp, 77);
    assert_eq!(rq.request_uri, "ipfs://req");
    let again = validation_request(&mut reg, &ctx, p(VALIDATOR), "ipfs://req".to_string(), h);
    assert_eq!(again.err(), Some(E8004::RequestExists));
}

#[test]
fn validation_request_errors() {
    let mut reg = registry_with_agents(1);
    let ctx = ValidationRequestCtx { agent_id: 1, owner: p(OWNER), now: 77 };
    let h = request_hash(&VALIDATOR, 1, "ipfs://req");
    let not_owner = ValidationRequestCtx { owner: p(CLIENT), ..ctx };
    let r = validation_request(&mut reg, &not_owner, p(VALIDATOR), "ipfs://req".to_string(), h);
    assert_eq!(r.err(), Some(E8004::Unauthorized));
    let self_h = request_hash(&OWNER, 1, "ipfs://req");
    let r = validation_request(&mut reg, &ctx, p(OWNER), "ipfs://req".to_string(), self_h);
    assert_eq!(r.err(), Some(E8004::Unauthorized));
    let r = validation_request(&mut reg, &ctx, p(VALIDATOR), "ipfs://other".to_string(), h);
    assert_eq!(r.err(), Some(E8004::Unauthorized));
    let long = "y".repeat(257);
    let long_h = request_hash(&VALIDATOR, 1, &long);
    let r = validation_request(&mut reg, &ctx, p(VALIDATOR), long, long_h);
    assert_eq!(r.err(), Some(E8004::Unauthorized));
    let missing = ValidationRequestCtx { agent_id: 2, ..ctx };
    let r = validation_request(&mut reg, &missing, p(VALIDATOR), "ipfs://req".to_string(), h);
    assert_eq!(r.err(), Some(E8004::AgentNotFound));
    assert!(reg.request(1, &h).is_none());
}

#[test]
fn validation_response_by_validator_only() {
    let mut reg = registry_with_agents(1);
    let ctx = ValidationRequestCtx { agent_id: 1, owner: p(OWNER), now: 77 };
    let h = request_hash(&VALIDATOR, 1, "ipfs://req");
    validation_request(&mut reg, &ctx, p(VALIDATOR), "ipfs://req".to_string(), h).unwrap();

    let rctx = ValidationResponseCtx { agent_id: 1, request_hash: h, validator: p(VALIDATOR), now: 90 };
    let stranger = ValidationResponseCtx { validator: p(CLIENT), ..rctx };
    let r = validation_response(&mut reg, &stranger, 50, String::new(), [0; 32], [0; 32]);
    assert_eq!(r.err(), Some(E8004::Unauthorized));
    assert!(reg.response(1, &h).is_none());
    let r = validation_response(&mut reg, &rctx, 101, String::new(), [0; 32], [0; 32]);
    assert_eq!(r.err(), Some(E8004::InvalidResponse));
    let r = validation_response(&mut reg, &rctx, 50, "z".repeat(257), [0; 32], [0; 32]);
    assert_eq!(r.err(), Some(E8004::Unauthorized));
    let unknown = ValidationResponseCtx { request_hash: [0; 32], ..rctx };
    let r = validation_response(&mut reg, &unknown, 50, String::new(), [0; 32], [0; 32]);
    assert_eq!(r.err(), Some(E8004::RequestNotFound));

    let ev = validation_response(&mut reg, &rctx, 60, "ipfs://r1".to_string(), [1; 32], [2; 32]).unwrap();
    assert_eq!(ev.response, 60);
    assert_eq!(ev.validator, p(VALIDATOR));
    let rs = reg.response(1, &h).unwrap();
    assert_eq!(rs.response, 60);
    assert_eq!(rs.last_update, 90);

    // A later response overwrites the values, even with an earlier clock.
    let earlier = ValidationResponseCtx { now: 10, ..rctx };
    validation_response(&mut reg, &earlier, 70, "ipfs://r2".to_string(), [3; 32], [4; 32]).unwrap();
    let rs = reg.response(1, &h).unwrap();
    assert_eq!(rs.response, 70);
    assert_eq!(rs.last_update, 10);
    assert_eq!(rs.response_uri, "ipfs://r2");
    assert_eq!(rs.response_hash, [3; 32]);
    assert_eq!(rs.tag, [4; 32]);
    assert_eq!(rs.validator, p(VALIDATOR));
    assert_eq!(rs.agent, 1);
    assert_eq!(rs.request_hash, h);
}

#[test]
fn platform_and_agents() {
    let mut reg = Registry::new();
    let actx = AgentRegisterCtx { authority: p(AUTHORITY), owner: p(OWNER) };
    assert_eq!(agent_register(&mut reg, &actx, String::new()).err(), Some(E8004::Unauthorized));
    assert_eq!(init_platform(&mut reg, &InitPlatformCtx { authority: p(AUTHORITY) }), Ok(()));
    assert_eq!(reg.platform.unwrap().agent_counter, 1);
    assert_eq!(
        init_platform(&mut reg, &InitPlatformCtx { authority: p(OWNER) }),
        Err(E8004::Unauthorized)
    );
    let ev = agent_register(&mut reg, &actx, "ipfs://a".to_string()).unwrap();
    assert_eq!(ev.id, 1);
    assert_eq!(ev.owner, p(OWNER));
    let ev = agent_register(&mut reg, &actx, "ipfs://b".to_string()).unwrap();
    assert_eq!(ev.id, 2);
    assert_eq!(reg.platform.unwrap().agent_counter, 3);
    let agent = reg.agent(2).unwrap();
    assert_eq!(agent.token_uri, "ipfs://b");
    assert!(agent.token_mint.is_none());
    assert!(reg.agent(0).is_none());
    assert!(reg.agent(3).is_none());
    let wrong = AgentRegisterCtx { authority: p(OWNER), owner: p(OWNER) };
    assert_eq!(agent_register(&mut reg, &wrong, String::new()).err(), Some(E8004::Unauthorized));
    assert_eq!(agent_register(&mut reg, &actx, "u".repeat(257)).err(), Some(E8004::Unauthorized));
    assert!(agent_register(&mut reg, &actx, "u".repeat(256)).is_ok());
}

#[test]
fn metadata_set_and_replace() {
    let mut reg = registry_with_agents(1);
    let ctx = AgentSetMetaCtx { agent_id: 1, owner: p(OWNER) };
    let kh = keccak_bytes(b"name");
    let ev = agent_set_metadata(&mut reg, &ctx, "name".to_string(), vec![1, 2], kh).unwrap();
    assert_eq!(ev.agent, 1);
    assert_eq!(ev.key_hash, kh);
    assert_eq!(reg.metadata_entry(1, &kh).unwrap().value, vec![1, 2]);
    agent_set_metadata(&mut reg, &ctx, "name".to_string(), vec![3], kh).unwrap();
    assert_eq!(reg.metadata_entry(1, &kh).unwrap().value, vec![3]);

    let r = agent_set_metadata(&mut reg, &ctx, "name".to_string(), vec![0; 1025], kh);
    assert_eq!(r.err(), Some(E8004::Unauthorized));
    let r = agent_set_metadata(&mut reg, &ctx, "other".to_string(), vec![0], kh);
    assert_eq!(r.err(), Some(E8004::Unauthorized));
    let r = agent_set_metadata(&mut reg, &ctx, String::new(), vec![0], keccak_bytes(b""));
    assert_eq!(r.err(), Some(E8004::Unauthorized));
    let stranger = AgentSetMetaCtx { owner: p(CLIENT), ..ctx };
    let r = agent_set_metadata(&mut reg, &stranger, "name".to_string(), vec![0], kh);
    assert_eq!(r.err(), Some(E8004::Unauthorized));
    let missing = AgentSetMetaCtx { agent_id: 9, ..ctx };
    let r = agent_set_metadata(&mut reg, &missing, "name".to_string(), vec![0], kh);
    assert_eq!(r.err(), Some(E8004::AgentNotFound));
    assert_eq!(reg.metadata_entry(1, &kh).unwrap().value, vec![3]);
}

#[test]
fn error_messages() {
    assert_eq!(E8004::ExpiredAuth.message(), "Expired authorization");
    assert_eq!(E8004::BadSignature.message(), "Signature invalid");
}
