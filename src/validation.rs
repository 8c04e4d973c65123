//! Validation requests by agent owners and responses by validators.

use crate::error::E8004;
use crate::registry::{request_addr, Registry};
use crate::table::{Address, RecordKey};
use crate::util::{
    bytes32_eq, keccak256, keccak_bytes, push_bytes, push_u64_le, u64_le, utf8_bytes, Principal,
};
use vstd::prelude::*;

verus! {

/// Largest request URI, in bytes.
pub const MAX_REQUEST_URI: usize = 256;

/// Largest response URI, in bytes.
pub const MAX_RESPONSE_URI: usize = 256;

/// A request by an agent's owner that a validator attest to some content.
#[derive(Clone, Debug)]
pub struct ValidationRequest {
    pub agent: u64,
    pub validator: Principal,
    pub request_uri: String,
    pub request_hash: [u8; 32],
    pub timestamp: i64,
}

/// The validator's latest response to a request.
#[derive(Clone, Debug)]
pub struct ValidationResponse {
    pub request_hash: [u8; 32],
    pub validator: Principal,
    pub agent: u64,
    pub response: u8,
    pub tag: [u8; 32],
    pub last_update: i64,
    pub response_uri: String,
    pub response_hash: [u8; 32],
}

/// A validation request's signer and target agent, and the clock.
#[derive(Clone, Copy, Debug)]
pub struct ValidationRequestCtx {
    pub agent_id: u64,
    /// The signer.
    pub owner: Principal,
    /// Unix seconds at the time of the request.
    pub now: i64,
}

/// A validation response's signer and target request, and the clock.
#[derive(Clone, Copy, Debug)]
pub struct ValidationResponseCtx {
    pub agent_id: u64,
    pub request_hash: [u8; 32],
    /// The signer.
    pub validator: Principal,
    /// Unix seconds at the time of the response.
    pub now: i64,
}

/// Notification of a new validation request.
#[derive(Clone, Copy, Debug)]
pub struct ValidationRequestEv {
    pub validator: Principal,
    pub agent: u64,
    pub request_hash: [u8; 32],
}

/// Notification of a validation response.
#[derive(Clone, Copy, Debug)]
pub struct ValidationResponseEv {
    pub validator: Principal,
    pub agent: u64,
    pub request_hash: [u8; 32],
    pub response: u8,
    pub tag: [u8; 32],
}

/// The bytes whose hash a request must carry: the validator, the agent id in
/// eight little-endian bytes, and the request URI.
pub open spec fn request_preimage(validator: Seq<u8>, agent_id: u64, request_uri: Seq<char>) -> Seq<u8> {
    validator + u64_le(agent_id) + utf8_bytes(request_uri)
}

/// Why a validation request fails, if it does.
pub open spec fn request_error(
    reg: &Registry,
    ctx: &ValidationRequestCtx,
    validator: Seq<u8>,
    request_uri: Seq<char>,
    request_hash: Seq<u8>,
) -> Option<E8004> {
    match reg.agent_spec(ctx.agent_id) {
        None => Some(E8004::AgentNotFound),
        Some(agent) => if agent.owner@ != ctx.owner@ {
            Some(E8004::Unauthorized)
        } else if validator == ctx.owner@ {
            Some(E8004::Unauthorized)
        } else if utf8_bytes(request_uri).len() > MAX_REQUEST_URI {
            Some(E8004::Unauthorized)
        } else if keccak256(request_preimage(validator, agent.id, request_uri)) != request_hash {
            Some(E8004::Unauthorized)
        } else if reg.requests.view().contains_key(request_addr(ctx.agent_id, request_hash)) {
            Some(E8004::RequestExists)
        } else {
            None
        },
    }
}

/// Records a request by the agent's owner that `validator` attest to the
/// content at `request_uri`. The caller must own the agent, the validator must
/// not be the owner, and `request_hash` must be the hash of the validator, the
/// agent id and the URI. A request is created once per hash.
pub fn validation_request(
    reg: &mut Registry,
    ctx: &ValidationRequestCtx,
    validator: Principal,
    request_uri: String,
    request_hash: [u8; 32],
) -> (r: Result<ValidationRequestEv, E8004>)
    requires
        old(reg).wf(),
    ensures
        final(reg).wf(),
        match r {
            Err(e) => request_error(old(reg), ctx, validator@, request_uri@, request_hash@) == Some(e)
                && *final(reg) == *old(reg),
            Ok(ev) => {
                &&& request_error(old(reg), ctx, validator@, request_uri@, request_hash@) is None
                &&& ev == (ValidationRequestEv { validator, agent: ctx.agent_id, request_hash })
                &&& final(reg).requests.view() == old(reg).requests.view().insert(
                    request_addr(ctx.agent_id, request_hash@),
                    ValidationRequest {
                        agent: ctx.agent_id,
                        validator,
                        request_uri,
                        request_hash,
                        timestamp: ctx.now,
                    },
                )
                &&& *final(reg) == (Registry { requests: final(reg).requests, ..*old(reg) })
            },
        },
{
    let agent = match reg.agent(ctx.agent_id) {
        None => return Err(E8004::AgentNotFound),
        Some(a) => a,
    };
    if agent.owner != ctx.owner {
        return Err(E8004::Unauthorized);
    }
    if validator == ctx.owner {
        return Err(E8004::Unauthorized);
    }
    if request_uri.as_str().as_bytes().len() > MAX_REQUEST_URI {
        return Err(E8004::Unauthorized);
    }
    let mut preimage: Vec<u8> = Vec::new();
    push_bytes(&mut preimage, validator.bytes.as_slice());
    push_u64_le(&mut preimage, agent.id);
    push_bytes(&mut preimage, request_uri.as_str().as_bytes());
    let computed = keccak_bytes(preimage.as_slice());
    if !bytes32_eq(&computed, &request_hash) {
        return Err(E8004::Unauthorized);
    }
    let key = RecordKey::new(ctx.agent_id, request_hash, 0);
    if reg.requests.get(&key).is_some() {
        return Err(E8004::RequestExists);
    }
    let ghost old_reg = *reg;
    let rq = ValidationRequest {
        agent: ctx.agent_id,
        validator,
        request_uri,
        request_hash,
        timestamp: ctx.now,
    };
    reg.requests.insert_new(key, rq);
    proof {
        assert forall|a: Address| #[trigger] reg.responses.view().contains_key(a) implies {
            let rs = reg.responses.view()[a];
            &&& reg.requests.view().contains_key(a)
            &&& a == request_addr(rs.agent, rs.request_hash@)
            &&& rs.validator@ == reg.requests.view()[a].validator@
        } by {
            assert(old_reg.requests.view().contains_key(a));
        }
    }
    Ok(ValidationRequestEv { validator, agent: ctx.agent_id, request_hash })
}

/// Why a validation response fails, if it does.
pub open spec fn response_error(
    reg: &Registry,
    ctx: &ValidationResponseCtx,
    response: u8,
    response_uri: Seq<char>,
) -> Option<E8004> {
    let a = request_addr(ctx.agent_id, ctx.request_hash@);
    if !reg.requests.view().contains_key(a) {
        Some(E8004::RequestNotFound)
    } else if response > 100 {
        Some(E8004::InvalidResponse)
    } else if reg.requests.view()[a].validator@ != ctx.validator@ {
        Some(E8004::Unauthorized)
    } else if utf8_bytes(response_uri).len() > MAX_RESPONSE_URI {
        Some(E8004::Unauthorized)
    } else {
        None
    }
}

/// Records the requested validator's response to a request, creating the
/// response record or overwriting the earlier response. The request, the
/// validator and the agent of the record are those of the request.
pub fn validation_response(
    reg: &mut Registry,
    ctx: &ValidationResponseCtx,
    response: u8,
    response_uri: String,
    response_hash: [u8; 32],
    tag: [u8; 32],
) -> (r: Result<ValidationResponseEv, E8004>)
    requires
        old(reg).wf(),
    ensures
        final(reg).wf(),
        match r {
            Err(e) => response_error(old(reg), ctx, response, response_uri@) == Some(e) && *final(reg)
                == *old(reg),
            Ok(ev) => {
                let a = request_addr(ctx.agent_id, ctx.request_hash@);
                let rq = old(reg).requests.view()[a];
                &&& response_error(old(reg), ctx, response, response_uri@) is None
                &&& ev == (ValidationResponseEv {
                    validator: rq.validator,
                    agent: rq.agent,
                    request_hash: rq.request_hash,
                    response,
                    tag,
                })
                &&& final(reg).responses.view() == old(reg).responses.view().insert(
                    a,
                    ValidationResponse {
                        request_hash: rq.request_hash,
                        validator: rq.validator,
                        agent: rq.agent,
                        response,
                        tag,
                        last_update: ctx.now,
                        response_uri,
                        response_hash,
                    },
                )
                &&& *final(reg) == (Registry { responses: final(reg).responses, ..*old(reg) })
            },
        },
{
    let key = RecordKey::new(ctx.agent_id, ctx.request_hash, 0);
    let rq = match reg.requests.get(&key) {
        None => return Err(E8004::RequestNotFound),
        Some(rq) => rq,
    };
    if response > 100 {
        return Err(E8004::InvalidResponse);
    }
    if rq.validator != ctx.validator {
        return Err(E8004::Unauthorized);
    }
    if response_uri.as_str().as_bytes().len() > MAX_RESPONSE_URI {
        return Err(E8004::Unauthorized);
    }
    let rs = ValidationResponse {
        request_hash: rq.request_hash,
        validator: rq.validator,
        agent: rq.agent,
        response,
        tag,
        last_update: ctx.now,
        response_uri,
        response_hash,
    };
    let ev = ValidationResponseEv {
        validator: rq.validator,
        agent: rq.agent,
        request_hash: rq.request_hash,
        response,
        tag,
    };
    let ghost old_reg = *reg;
    reg.responses.upsert(key, rs);
    proof {
        assert forall|a: Address| #[trigger] reg.responses.view().contains_key(a) implies {
            let rs = reg.responses.view()[a];
            &&& reg.requests.view().contains_key(a)
            &&& a == request_addr(rs.agent, rs.request_hash@)
            &&& rs.validator@ == reg.requests.view()[a].validator@
        } by {
            if a != key@ {
                assert(old_reg.responses.view().contains_key(a));
            }
        }
    }
    Ok(ev)
}

/// A request can be created only once per agent and hash: while one exists,
/// another with the same hash is refused.
pub proof fn lemma_request_once(
    reg: &Registry,
    ctx: &ValidationRequestCtx,
    validator: Seq<u8>,
    request_uri: Seq<char>,
    request_hash: Seq<u8>,
)
    requires
        reg.requests.view().contains_key(request_addr(ctx.agent_id, request_hash)),
    ensures
        request_error(reg, ctx, validator, request_uri, request_hash) is Some,
{
}

/// A response from anyone but the request's validator is refused, whatever
/// it carries.
pub proof fn lemma_foreign_validator_rejected(
    reg: &Registry,
    ctx: &ValidationResponseCtx,
    response: u8,
    response_uri: Seq<char>,
)
    requires
        reg.requests.view().contains_key(request_addr(ctx.agent_id, ctx.request_hash@))
            ==> reg.requests.view()[request_addr(ctx.agent_id, ctx.request_hash@)].validator@
            != ctx.validator@,
    ensures
        response_error(reg, ctx, response, response_uri) is Some,
{
}

} // verus!
