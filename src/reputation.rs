//! Client feedback on agents: the index ledger, the feedback records and
//! revocation.

use crate::error::E8004;
use crate::registry::{feedback_addr, index_addr, Registry};
use crate::table::{Address, RecordKey};
use crate::util::{
    attested, decode_auth_struct, decodes_to, keccak256, keccak_auth_struct, packed_auth,
    utf8_bytes, verify_ed25519, CompanionOp, FeedbackAuth, Principal,
};
use vstd::prelude::*;

verus! {

/// Largest file URI of a feedback, in bytes.
pub const MAX_FILE_URI: usize = 256;

/// The last feedback index accepted from a client on an agent.
#[derive(Clone, Copy, Debug)]
pub struct ClientIndex {
    pub agent: u64,
    pub client: Principal,
    pub last_index: u64,
}

/// One feedback of a client on an agent.
#[derive(Clone, Debug)]
pub struct Feedback {
    pub agent: u64,
    pub client: Principal,
    pub index: u64,
    pub score: u8,
    pub tag1: [u8; 32],
    pub tag2: [u8; 32],
    pub revoked: bool,
    pub file_uri: String,
    pub file_hash: [u8; 32],
}

/// A feedback submission's signer and target, the clock, and the other
/// operations of its transaction.
#[derive(Clone, Debug)]
pub struct GiveFeedbackCtx {
    pub agent_id: u64,
    pub client: Principal,
    /// Unix seconds at the time of the submission.
    pub now: u64,
    pub instructions: Vec<CompanionOp>,
}

/// A revocation's signer and the feedback record it targets.
#[derive(Clone, Copy, Debug)]
pub struct RevokeFeedbackCtx {
    pub agent_id: u64,
    /// The client whose feedback record is targeted.
    pub feedback_client: Principal,
    pub feedback_index: u64,
    /// The signer.
    pub client: Principal,
}

/// Notification of an accepted feedback.
#[derive(Clone, Copy, Debug)]
pub struct NewFeedback {
    pub agent: u64,
    pub client: Principal,
    pub score: u8,
    pub tag1: [u8; 32],
    pub tag2: [u8; 32],
}

/// Notification of a revoked feedback.
#[derive(Clone, Copy, Debug)]
pub struct FeedbackRevoked {
    pub agent: u64,
    pub client: Principal,
    pub index: u64,
}

/// The authorization that the wire form `b` holds.
pub open spec fn auth_of(b: Seq<u8>) -> FeedbackAuth {
    choose|a: FeedbackAuth| decodes_to(b, a)
}

/// A wire form holds at most one authorization.
pub proof fn lemma_decode_unique(b: Seq<u8>, a1: FeedbackAuth, a2: FeedbackAuth)
    requires
        decodes_to(b, a1),
        decodes_to(b, a2),
    ensures
        a1 == a2,
{
    assert(a1.client.bytes =~= a2.client.bytes);
    assert(a1.identity_registry.bytes =~= a2.identity_registry.bytes);
    assert(a1.signer.bytes =~= a2.signer.bytes);
}

/// Why a feedback submission fails before its signature is checked, if it
/// does: the checks on the agent, the score, the sizes, the caller and the
/// authorization, in that order.
pub open spec fn feedback_precheck_error(
    reg: &Registry,
    ctx: &GiveFeedbackCtx,
    score: u8,
    file_uri: Seq<char>,
    auth_bytes: Seq<u8>,
    signature: Seq<u8>,
) -> Option<E8004> {
    match reg.agent_spec(ctx.agent_id) {
        None => Some(E8004::AgentNotFound),
        Some(agent) => {
            let auth = auth_of(auth_bytes);
            if score > 100 {
                Some(E8004::InvalidScore)
            } else if utf8_bytes(file_uri).len() > MAX_FILE_URI {
                Some(E8004::Unauthorized)
            } else if signature.len() != 64 {
                Some(E8004::BadSignature)
            } else if ctx.client@ == agent.owner@ {
                Some(E8004::SelfFeedback)
            } else if auth_bytes.len() != 224 {
                Some(E8004::BadSignature)
            } else if auth.agent_id != agent.id || auth.client@ != ctx.client@ {
                Some(E8004::Unauthorized)
            } else if ctx.now >= auth.expiry {
                Some(E8004::ExpiredAuth)
            } else if auth.signer@ != agent.owner@ {
                Some(E8004::Unauthorized)
            } else {
                None
            }
        },
    }
}

/// Why a feedback submission fails, if it does.
pub open spec fn feedback_error(
    reg: &Registry,
    ctx: &GiveFeedbackCtx,
    score: u8,
    file_uri: Seq<char>,
    auth_bytes: Seq<u8>,
    signature: Seq<u8>,
    expected_index: u64,
) -> Option<E8004> {
    let auth = auth_of(auth_bytes);
    let next = reg.last_index(ctx.agent_id, ctx.client@) + 1;
    match feedback_precheck_error(reg, ctx, score, file_uri, auth_bytes, signature) {
        Some(e) => Some(e),
        None => if !attested(
            ctx.instructions@,
            keccak256(packed_auth(auth)),
            signature,
            auth.signer@,
        ) {
            Some(E8004::BadSignature)
        } else if expected_index != next || next > auth.index_limit {
            Some(E8004::IndexLimit)
        } else {
            None
        },
    }
}

/// Accepts a feedback of `ctx.client` on agent `ctx.agent_id` as its next
/// index, under an authorization signed by the agent's owner.
///
/// The checks, in order: the agent exists; the score is at most 100; the file
/// URI fits; the signature has 64 bytes; the client does not own the agent;
/// the authorization has its 224 bytes, names this agent and this client, has
/// not expired and is signed by the owner; a companion operation checks the
/// signature over its digest; `expected_index` is the client's next index and
/// within the authorization's limit. On success the client's index advances to
/// `expected_index` and the feedback record is created at that index; on any
/// failure nothing changes.
pub fn give_feedback_ed25519(
    reg: &mut Registry,
    ctx: &GiveFeedbackCtx,
    score: u8,
    tag1: [u8; 32],
    tag2: [u8; 32],
    file_uri: String,
    file_hash: [u8; 32],
    auth_struct_bytes: Vec<u8>,
    signature: Vec<u8>,
    expected_index: u64,
) -> (r: Result<NewFeedback, E8004>)
    requires
        old(reg).wf(),
    ensures
        final(reg).wf(),
        match r {
            Err(e) => feedback_error(
                old(reg),
                ctx,
                score,
                file_uri@,
                auth_struct_bytes@,
                signature@,
                expected_index,
            ) == Some(e) && *final(reg) == *old(reg),
            Ok(ev) => {
                &&& feedback_error(
                    old(reg),
                    ctx,
                    score,
                    file_uri@,
                    auth_struct_bytes@,
                    signature@,
                    expected_index,
                ) is None
                &&& expected_index == old(reg).last_index(ctx.agent_id, ctx.client@) + 1
                &&& ev == (NewFeedback { agent: ctx.agent_id, client: ctx.client, score, tag1, tag2 })
                &&& final(reg).client_indices.view() == old(reg).client_indices.view().insert(
                    index_addr(ctx.agent_id, ctx.client@),
                    ClientIndex {
                        agent: ctx.agent_id,
                        client: ctx.client,
                        last_index: expected_index,
                    },
                )
                &&& final(reg).feedbacks.view() == old(reg).feedbacks.view().insert(
                    feedback_addr(ctx.agent_id, ctx.client@, expected_index),
                    Feedback {
                        agent: ctx.agent_id,
                        client: ctx.client,
                        index: expected_index,
                        score,
                        tag1,
                        tag2,
                        revoked: false,
                        file_uri,
                        file_hash,
                    },
                )
                &&& *final(reg) == (Registry {
                    client_indices: final(reg).client_indices,
                    feedbacks: final(reg).feedbacks,
                    ..*old(reg)
                })
            },
        },
{
    let ghost uri = file_uri@;
    let ghost auth_bytes = auth_struct_bytes@;
    let agent = match reg.agent(ctx.agent_id) {
        None => return Err(E8004::AgentNotFound),
        Some(a) => a,
    };
    if score > 100 {
        return Err(E8004::InvalidScore);
    }
    if file_uri.as_str().as_bytes().len() > MAX_FILE_URI {
        return Err(E8004::Unauthorized);
    }
    if signature.len() != 64 {
        return Err(E8004::BadSignature);
    }
    let agent_owner = agent.owner;
    let agent_id = agent.id;
    if ctx.client == agent_owner {
        return Err(E8004::SelfFeedback);
    }
    let auth = match decode_auth_struct(auth_struct_bytes) {
        Err(e) => return Err(e),
        Ok(a) => a,
    };
    proof {
        lemma_decode_unique(auth_bytes, auth, auth_of(auth_bytes));
    }
    let digest = keccak_auth_struct(&auth);
    if auth.agent_id != agent_id || auth.client != ctx.client {
        return Err(E8004::Unauthorized);
    }
    if ctx.now >= auth.expiry {
        return Err(E8004::ExpiredAuth);
    }
    if auth.signer != agent_owner {
        return Err(E8004::Unauthorized);
    }
    if !verify_ed25519(&digest, signature.as_slice(), &auth.signer, &ctx.instructions) {
        return Err(E8004::BadSignature);
    }
    let last = match reg.client_index(ctx.agent_id, &ctx.client) {
        None => 0,
        Some(ci) => ci.last_index,
    };
    if last == u64::MAX {
        return Err(E8004::IndexLimit);
    }
    let next = last + 1;
    if expected_index != next || next > auth.index_limit {
        return Err(E8004::IndexLimit);
    }
    let ghost old_reg = *reg;
    let ghost fb_addr = feedback_addr(ctx.agent_id, ctx.client@, next);
    proof {
        if old_reg.feedbacks.view().contains_key(fb_addr) {
            assert(1 <= fb_addr.2 <= old_reg.last_index(fb_addr.0, fb_addr.1));
        }
    }
    reg.client_indices.upsert(
        RecordKey::new(ctx.agent_id, ctx.client.bytes, 0),
        ClientIndex { agent: ctx.agent_id, client: ctx.client, last_index: next },
    );
    let fb = Feedback {
        agent: ctx.agent_id,
        client: ctx.client,
        index: next,
        score,
        tag1,
        tag2,
        revoked: false,
        file_uri,
        file_hash,
    };
    reg.feedbacks.insert_new(RecordKey::new(ctx.agent_id, ctx.client.bytes, next), fb);
    proof {
        lemma_feedback_step(old_reg, *reg, ctx.agent_id, ctx.client@, next);
    }
    Ok(NewFeedback { agent: ctx.agent_id, client: ctx.client, score, tag1, tag2 })
}

/// Advancing a client's index and adding the feedback at the new index keeps
/// the registry well formed.
proof fn lemma_feedback_step(old_reg: Registry, reg: Registry, agent: u64, client: Seq<u8>, next: u64)
    requires
        old_reg.wf(),
        reg.metadata.wf(),
        reg.client_indices.wf(),
        reg.feedbacks.wf(),
        next == old_reg.last_index(agent, client) + 1,
        reg.client_indices.view() == old_reg.client_indices.view().insert(
            index_addr(agent, client),
            reg.client_indices.view()[index_addr(agent, client)],
        ),
        reg.client_indices.view()[index_addr(agent, client)].agent == agent,
        reg.client_indices.view()[index_addr(agent, client)].client@ == client,
        reg.client_indices.view()[index_addr(agent, client)].last_index == next,
        reg.feedbacks.view() == old_reg.feedbacks.view().insert(
            feedback_addr(agent, client, next),
            reg.feedbacks.view()[feedback_addr(agent, client, next)],
        ),
        reg.feedbacks.view()[feedback_addr(agent, client, next)].agent == agent,
        reg.feedbacks.view()[feedback_addr(agent, client, next)].client@ == client,
        reg.feedbacks.view()[feedback_addr(agent, client, next)].index == next,
        reg == (Registry { client_indices: reg.client_indices, feedbacks: reg.feedbacks, ..old_reg }),
    ensures
        reg.wf(),
{
    assert forall|a: Address| #[trigger]
        reg.feedbacks.view().contains_key(a) <==> 1 <= a.2 <= reg.last_index(a.0, a.1) by {
        if (a.0, a.1) == (agent, client) {
            assert(reg.last_index(a.0, a.1) == next);
            assert(old_reg.feedbacks.view().contains_key(a) <==> 1 <= a.2 <= next - 1);
        } else {
            assert(index_addr(a.0, a.1) != index_addr(agent, client));
            assert(reg.last_index(a.0, a.1) == old_reg.last_index(a.0, a.1));
            assert(old_reg.feedbacks.view().contains_key(a) <==> 1 <= a.2 <= old_reg.last_index(a.0, a.1));
        }
    }
}

/// Why a revocation fails, if it does: the targeted record must exist, belong
/// to the signer and not be revoked yet.
pub open spec fn revoke_error(reg: &Registry, ctx: &RevokeFeedbackCtx) -> Option<E8004> {
    let a = feedback_addr(ctx.agent_id, ctx.feedback_client@, ctx.feedback_index);
    if !reg.feedbacks.view().contains_key(a) {
        Some(E8004::Unauthorized)
    } else if reg.feedbacks.view()[a].client@ != ctx.client@ {
        Some(E8004::Unauthorized)
    } else if reg.feedbacks.view()[a].revoked {
        Some(E8004::Unauthorized)
    } else {
        None
    }
}

/// Marks the targeted feedback as revoked. Only its client may revoke it, and
/// only once; its other fields stay as they are. The `_index` argument is
/// informational: the record is the one `ctx` targets.
pub fn revoke_feedback(reg: &mut Registry, ctx: &RevokeFeedbackCtx, _index: u64) -> (r: Result<
    FeedbackRevoked,
    E8004,
>)
    requires
        old(reg).wf(),
    ensures
        final(reg).wf(),
        match r {
            Err(e) => revoke_error(old(reg), ctx) == Some(e) && *final(reg) == *old(reg),
            Ok(ev) => {
                let a = feedback_addr(ctx.agent_id, ctx.feedback_client@, ctx.feedback_index);
                let fb = old(reg).feedbacks.view()[a];
                &&& revoke_error(old(reg), ctx) is None
                &&& ev == (FeedbackRevoked { agent: fb.agent, client: fb.client, index: fb.index })
                &&& final(reg).feedbacks.view() == old(reg).feedbacks.view().insert(
                    a,
                    Feedback { revoked: true, ..fb },
                )
                &&& *final(reg) == (Registry { feedbacks: final(reg).feedbacks, ..*old(reg) })
            },
        },
{
    let key = RecordKey::new(ctx.agent_id, ctx.feedback_client.bytes, ctx.feedback_index);
    let fb = match reg.feedbacks.get(&key) {
        None => return Err(E8004::Unauthorized),
        Some(fb) => fb,
    };
    if fb.client != ctx.client {
        return Err(E8004::Unauthorized);
    }
    if fb.revoked {
        return Err(E8004::Unauthorized);
    }
    let revoked = Feedback {
        agent: fb.agent,
        client: fb.client,
        index: fb.index,
        score: fb.score,
        tag1: fb.tag1,
        tag2: fb.tag2,
        revoked: true,
        file_uri: fb.file_uri.clone(),
        file_hash: fb.file_hash,
    };
    let ev = FeedbackRevoked { agent: fb.agent, client: fb.client, index: fb.index };
    let ghost old_reg = *reg;
    let ghost a = key@;
    reg.feedbacks.upsert(key, revoked);
    proof {
        assert(reg.feedbacks.view().dom() =~= old_reg.feedbacks.view().dom());
        assert forall|b: Address| #[trigger] reg.feedbacks.view().contains_key(b) implies {
            let f = reg.feedbacks.view()[b];
            b == feedback_addr(f.agent, f.client@, f.index)
        } by {
            assert(old_reg.feedbacks.view().contains_key(b));
        }
        assert forall|b: Address| #[trigger]
            reg.feedbacks.view().contains_key(b) <==> 1 <= b.2 <= reg.last_index(b.0, b.1) by {
            assert(reg.feedbacks.view().contains_key(b) == old_reg.feedbacks.view().contains_key(b));
        }
    }
    Ok(ev)
}

/// The feedback records of a client on an agent are exactly those numbered
/// 1 up to the client's last index, with no gap and no repeat.
pub proof fn lemma_feedback_indices_contiguous(reg: &Registry, agent: u64, client: Seq<u8>, index: u64)
    requires
        reg.wf(),
    ensures
        reg.feedbacks.view().contains_key(feedback_addr(agent, client, index)) <==> 1 <= index
            <= reg.last_index(agent, client),
{
    assert(reg.feedbacks.view().contains_key(feedback_addr(agent, client, index)) <==> 1 <= index
        <= reg.last_index(agent, client));
}

/// A submission whose expected index is not the client's last index plus one
/// is rejected, and by the index check where every earlier check passes.
pub proof fn lemma_stale_index_rejected(
    reg: &Registry,
    ctx: &GiveFeedbackCtx,
    score: u8,
    file_uri: Seq<char>,
    auth_bytes: Seq<u8>,
    signature: Seq<u8>,
    expected_index: u64,
)
    requires
        expected_index != reg.last_index(ctx.agent_id, ctx.client@) + 1,
    ensures
        feedback_error(reg, ctx, score, file_uri, auth_bytes, signature, expected_index) is Some,
        feedback_precheck_error(reg, ctx, score, file_uri, auth_bytes, signature) is None
            && attested(
            ctx.instructions@,
            keccak256(packed_auth(auth_of(auth_bytes))),
            signature,
            auth_of(auth_bytes).signer@,
        ) ==> feedback_error(reg, ctx, score, file_uri, auth_bytes, signature, expected_index)
            == Some(E8004::IndexLimit),
{
}

/// Once the checks before the signature pass, a submission fails with
/// `BadSignature` exactly when no companion operation checks the owner's
/// signature over the digest of the authorization.
pub proof fn lemma_bad_signature_iff_unattested(
    reg: &Registry,
    ctx: &GiveFeedbackCtx,
    score: u8,
    file_uri: Seq<char>,
    auth_bytes: Seq<u8>,
    signature: Seq<u8>,
    expected_index: u64,
)
    requires
        feedback_precheck_error(reg, ctx, score, file_uri, auth_bytes, signature) is None,
    ensures
        feedback_error(reg, ctx, score, file_uri, auth_bytes, signature, expected_index) == Some(
            E8004::BadSignature,
        ) <==> !attested(
            ctx.instructions@,
            keccak256(packed_auth(auth_of(auth_bytes))),
            signature,
            auth_of(auth_bytes).signer@,
        ),
{
}

/// A revoked feedback cannot be revoked again.
pub proof fn lemma_revoke_once(reg: &Registry, ctx: &RevokeFeedbackCtx)
    requires
        reg.feedbacks.view().contains_key(
            feedback_addr(ctx.agent_id, ctx.feedback_client@, ctx.feedback_index),
        ),
        reg.feedbacks.view()[feedback_addr(
            ctx.agent_id,
            ctx.feedback_client@,
            ctx.feedback_index,
        )].revoked,
    ensures
        revoke_error(reg, ctx) == Some(E8004::Unauthorized),
{
}

} // verus!
