//! The discovery resolver: given an identifier of ambiguous kind, walks
//! the user → iota → omikron graph to a currently reachable omikron
//! record.  The cascade: the id as an omikron itself; else the primary
//! omikron fronting the id as an iota; else the primary fronting the home
//! iota of the id as a user; else nothing.
//!
//! Directory lookups are the driver's job; each step of the cascade is a
//! verified transition that tells the driver exactly which record to
//! fetch next.

use vstd::prelude::*;

use crate::presence::PresenceIndex;
use crate::records::{OmikronRecord, UserRecord};

verus! {

/// Which answer the resolution is waiting for.
#[derive(Clone, Copy, Debug, PartialEq, Eq, Structural)]
pub enum ResolveStage {
    /// The target id itself, as an omikron record.
    Direct,
    /// The record of the primary omikron fronting the target as an iota.
    PrimaryOfIota,
    /// The target as a user record.
    AwaitUser,
    /// The record of the primary fronting the user's home iota.
    PrimaryOfUserIota,
}

/// One in-flight resolution.
#[derive(Clone, Copy, Debug)]
pub struct Resolution {
    pub target: i64,
    pub stage: ResolveStage,
}

/// What the driver must do next.
#[derive(Debug)]
pub enum ResolveAction {
    /// Fetch this omikron record, then call `resolve_omikron_reply`.
    LookupOmikron(i64),
    /// Fetch this user record, then call `resolve_user_reply`.
    LookupUser(i64),
    /// The resolution ends with this record.
    Found(OmikronRecord),
    /// The resolution ends with nothing reachable.
    NotFound,
}

/// Starts resolving an identifier: the first cascade step asks whether
/// the id is itself a registered omikron.
pub fn resolve_begin(id: i64) -> (r: (Resolution, ResolveAction))
    ensures
        r.0.target == id,
        r.0.stage == ResolveStage::Direct,
        r.1 matches ResolveAction::LookupOmikron(o) && o == id,
{
    (Resolution { target: id, stage: ResolveStage::Direct }, ResolveAction::LookupOmikron(id))
}

/// Feeds the answer to an omikron-record lookup back into the cascade.
/// A hit ends the resolution with that record.  A miss advances it: after
/// the direct probe, to the primary fronting the id as an iota; failing
/// that, to the id as a user; at the last stage, to nothing.
pub fn resolve_omikron_reply(
    res: &mut Resolution,
    presence: &PresenceIndex,
    found: Option<OmikronRecord>,
) -> (r: ResolveAction)
    requires
        presence.wf(),
        old(res).stage == ResolveStage::Direct || old(res).stage == ResolveStage::PrimaryOfIota
            || old(res).stage == ResolveStage::PrimaryOfUserIota,
    ensures
        final(res).target == old(res).target,
        found matches Some(rec) ==> (r matches ResolveAction::Found(out) && out == rec),
        found is None ==> {
            &&& old(res).stage == ResolveStage::Direct ==> (match presence.primary_of(
                old(res).target,
            ) {
                Some(o) => r matches ResolveAction::LookupOmikron(oo) && oo == o && final(res).stage == ResolveStage::PrimaryOfIota,
                None => r matches ResolveAction::LookupUser(u) && u == old(res).target && final(res).stage == ResolveStage::AwaitUser,
            })
            &&& old(res).stage == ResolveStage::PrimaryOfIota ==> (r
                matches ResolveAction::LookupUser(u) && u == old(res).target && final(res).stage
                == ResolveStage::AwaitUser)
            &&& old(res).stage == ResolveStage::PrimaryOfUserIota ==> r
                matches ResolveAction::NotFound
        },
{
    match found {
        Some(rec) => ResolveAction::Found(rec),
        None => {
            match res.stage {
                ResolveStage::Direct => {
                    match presence.get_iota_primary_omikron_connection(res.target) {
                        Some(o) => {
                            res.stage = ResolveStage::PrimaryOfIota;
                            ResolveAction::LookupOmikron(o)
                        },
                        None => {
                            res.stage = ResolveStage::AwaitUser;
                            ResolveAction::LookupUser(res.target)
                        },
                    }
                },
                ResolveStage::PrimaryOfIota => {
                    res.stage = ResolveStage::AwaitUser;
                    ResolveAction::LookupUser(res.target)
                },
                _ => ResolveAction::NotFound,
            }
        },
    }
}

/// Feeds the answer to the user-record lookup back into the cascade: a
/// known user leads to the primary fronting their home iota, if any.
pub fn resolve_user_reply(
    res: &mut Resolution,
    presence: &PresenceIndex,
    found: Option<&UserRecord>,
) -> (r: ResolveAction)
    requires
        presence.wf(),
        old(res).stage == ResolveStage::AwaitUser,
    ensures
        final(res).target == old(res).target,
        found matches Some(u) ==> (match presence.primary_of(u.iota_id) {
            Some(o) => r matches ResolveAction::LookupOmikron(oo) && oo == o && final(res).stage
                == ResolveStage::PrimaryOfUserIota,
            None => r matches ResolveAction::NotFound,
        }),
        found is None ==> r matches ResolveAction::NotFound,
{
    match found {
        Some(u) => {
            match presence.get_iota_primary_omikron_connection(u.iota_id) {
                Some(o) => {
                    res.stage = ResolveStage::PrimaryOfUserIota;
                    ResolveAction::LookupOmikron(o)
                },
                None => ResolveAction::NotFound,
            }
        },
        None => ResolveAction::NotFound,
    }
}

} // verus!
