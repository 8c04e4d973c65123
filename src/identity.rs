//! The agent directory: the platform record, agent registration and agent
//! metadata.

use crate::error::E8004;
use crate::registry::{meta_addr, Registry};
use crate::table::RecordKey;
use crate::util::{keccak256, keccak_bytes, utf8_bytes, Principal};
use vstd::prelude::*;

verus! {

/// Agents are not issued as tokens.
pub const FEATURE_NFT: bool = false;

/// Largest token URI of an agent, in bytes.
pub const MAX_TOKEN_URI: usize = 256;

/// Largest metadata value, in bytes.
pub const MAX_META_VAL: usize = 1024;

/// The platform record: who may register agents, and the next agent id.
#[derive(Clone, Copy, Debug)]
pub struct Platform {
    pub authority: Principal,
    pub agent_counter: u64,
}

/// A registered agent.
#[derive(Clone, Debug)]
pub struct Agent {
    pub id: u64,
    pub owner: Principal,
    pub token_mint: Option<Principal>,
    pub token_uri: String,
}

/// A metadata entry of an agent, addressed by the hash of its key.
#[derive(Clone, Debug)]
pub struct MetaKV {
    pub agent: u64,
    pub key_hash: [u8; 32],
    pub value: Vec<u8>,
}

/// The signer of a platform initialization.
#[derive(Clone, Copy, Debug)]
pub struct InitPlatformCtx {
    pub authority: Principal,
}

/// The signers of an agent registration: the platform authority and the
/// future owner.
#[derive(Clone, Copy, Debug)]
pub struct AgentRegisterCtx {
    pub authority: Principal,
    pub owner: Principal,
}

/// The target agent and the signer of a metadata write.
#[derive(Clone, Copy, Debug)]
pub struct AgentSetMetaCtx {
    pub agent_id: u64,
    pub owner: Principal,
}

/// Notification of a new agent.
#[derive(Clone, Copy, Debug)]
pub struct AgentRegistered {
    pub id: u64,
    pub owner: Principal,
}

/// Notification of a metadata write.
#[derive(Clone, Copy, Debug)]
pub struct MetadataSet {
    pub agent: u64,
    pub key_hash: [u8; 32],
}

/// Creates the platform record with the caller as its authority and the
/// agent counter at 1. Fails if the platform exists already.
pub fn init_platform(reg: &mut Registry, ctx: &InitPlatformCtx) -> (r: Result<(), E8004>)
    requires
        old(reg).wf(),
    ensures
        final(reg).wf(),
        old(reg).platform is Some <==> r is Err,
        r is Err ==> r == Err::<(), E8004>(E8004::Unauthorized) && *final(reg) == *old(reg),
        r is Ok ==> *final(reg) == (Registry {
            platform: Some(Platform { authority: ctx.authority, agent_counter: 1 }),
            ..*old(reg)
        }),
{
    if reg.platform.is_some() {
        return Err(E8004::Unauthorized);
    }
    reg.platform = Some(Platform { authority: ctx.authority, agent_counter: 1 });
    Ok(())
}

/// Why an agent registration fails, if it does.
pub open spec fn register_error(reg: &Registry, ctx: &AgentRegisterCtx, token_uri: Seq<char>) -> Option<E8004> {
    match reg.platform {
        None => Some(E8004::Unauthorized),
        Some(p) => if p.authority@ != ctx.authority@ {
            Some(E8004::Unauthorized)
        } else if utf8_bytes(token_uri).len() > MAX_TOKEN_URI {
            Some(E8004::Unauthorized)
        } else {
            None
        },
    }
}

/// Registers an agent owned by `ctx.owner` under the next id of the platform
/// counter, which then advances.
pub fn agent_register(reg: &mut Registry, ctx: &AgentRegisterCtx, token_uri: String) -> (r: Result<
    AgentRegistered,
    E8004,
>)
    requires
        old(reg).wf(),
        old(reg).platform matches Some(p) ==> p.agent_counter < u64::MAX,
    ensures
        final(reg).wf(),
        match r {
            Err(e) => register_error(old(reg), ctx, token_uri@) == Some(e) && *final(reg) == *old(reg),
            Ok(ev) => {
                let p = old(reg).platform.unwrap();
                let agent = Agent {
                    id: p.agent_counter,
                    owner: ctx.owner,
                    token_mint: None,
                    token_uri: token_uri,
                };
                &&& register_error(old(reg), ctx, token_uri@) is None
                &&& ev == (AgentRegistered { id: p.agent_counter, owner: ctx.owner })
                &&& final(reg).platform == Some(
                    Platform { agent_counter: (p.agent_counter + 1) as u64, ..p },
                )
                &&& final(reg).agents@ == old(reg).agents@.push(agent)
                &&& final(reg).agent_spec(p.agent_counter) == Some(agent)
                &&& final(reg).metadata == old(reg).metadata
                &&& final(reg).client_indices == old(reg).client_indices
                &&& final(reg).feedbacks == old(reg).feedbacks
                &&& final(reg).requests == old(reg).requests
                &&& final(reg).responses == old(reg).responses
            },
        },
{
    let p = match reg.platform {
        None => return Err(E8004::Unauthorized),
        Some(p) => p,
    };
    if p.authority != ctx.authority {
        return Err(E8004::Unauthorized);
    }
    if token_uri.as_str().as_bytes().len() > MAX_TOKEN_URI {
        return Err(E8004::Unauthorized);
    }
    let id = p.agent_counter;
    let ghost uri = token_uri;
    reg.agents.push(Agent { id, owner: ctx.owner, token_mint: None, token_uri });
    reg.platform = Some(Platform { agent_counter: id + 1, ..p });
    assert(reg.agents@[id - 1] == (Agent { id, owner: ctx.owner, token_mint: None, token_uri: uri }));
    Ok(AgentRegistered { id, owner: ctx.owner })
}

/// Why a metadata write fails, if it does.
pub open spec fn set_metadata_error(
    reg: &Registry,
    ctx: &AgentSetMetaCtx,
    key: Seq<char>,
    value: Seq<u8>,
    key_hash: Seq<u8>,
) -> Option<E8004> {
    match reg.agent_spec(ctx.agent_id) {
        None => Some(E8004::AgentNotFound),
        Some(agent) => if agent.owner@ != ctx.owner@ {
            Some(E8004::Unauthorized)
        } else if key.len() == 0 {
            Some(E8004::Unauthorized)
        } else if value.len() > MAX_META_VAL {
            Some(E8004::Unauthorized)
        } else if keccak256(utf8_bytes(key)) != key_hash {
            Some(E8004::Unauthorized)
        } else {
            None
        },
    }
}

/// Writes the metadata entry of the agent under the hash of `key`, replacing
/// an earlier value. Only the agent's owner may write, and `key_hash` must be
/// the hash of `key`.
pub fn agent_set_metadata(
    reg: &mut Registry,
    ctx: &AgentSetMetaCtx,
    key: String,
    value: Vec<u8>,
    key_hash: [u8; 32],
) -> (r: Result<MetadataSet, E8004>)
    requires
        old(reg).wf(),
    ensures
        final(reg).wf(),
        match r {
            Err(e) => set_metadata_error(old(reg), ctx, key@, value@, key_hash@) == Some(e)
                && *final(reg) == *old(reg),
            Ok(ev) => {
                &&& set_metadata_error(old(reg), ctx, key@, value@, key_hash@) is None
                &&& ev == (MetadataSet { agent: ctx.agent_id, key_hash })
                &&& final(reg).metadata.view() == old(reg).metadata.view().insert(
                    meta_addr(ctx.agent_id, key_hash@),
                    MetaKV { agent: ctx.agent_id, key_hash, value },
                )
                &&& *final(reg) == (Registry { metadata: final(reg).metadata, ..*old(reg) })
            },
        },
{
    let agent = match reg.agent(ctx.agent_id) {
        None => return Err(E8004::AgentNotFound),
        Some(a) => a,
    };
    if agent.owner != ctx.owner {
        return Err(E8004::Unauthorized);
    }
    if key.as_str().is_empty() {
        return Err(E8004::Unauthorized);
    }
    if value.len() > MAX_META_VAL {
        return Err(E8004::Unauthorized);
    }
    let computed = keccak_bytes(key.as_str().as_bytes());
    if !crate::util::bytes32_eq(&computed, &key_hash) {
        return Err(E8004::Unauthorized);
    }
    reg.metadata.upsert(
        RecordKey::new(ctx.agent_id, key_hash, 0),
        MetaKV { agent: ctx.agent_id, key_hash, value },
    );
    Ok(MetadataSet { agent: ctx.agent_id, key_hash })
}

} // verus!
