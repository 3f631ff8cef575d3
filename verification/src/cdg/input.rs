//! Building and changing edges from what a user enters.
//!
//! The engine takes any graph as it is. What a user enters is checked here,
//! before it becomes part of a graph: the claims of a new edge have to exist,
//! its type and resolution have to be known, only a tension may carry a
//! resolution, and its weight is clamped.

use vstd::prelude::*;
use vstd::string::StringExecFns;
use crate::chars::lowercase_of;
use crate::fixed::UNIT;
use crate::session::Claim;
use crate::text::{decimal, push_decimal, str_eq};
use crate::cdg::types::{CdgEdge, ClaimStratum, EdgeType, ResolutionStatus, claim_ids};
use crate::cdg::resolve::find_claim;

verus! {

/// Why an edge could not be built from what was entered.
#[derive(Debug, Clone)]
pub enum EdgeInputError {
    /// No claim carries the id entered as source.
    SourceNotFound(String),
    /// No claim carries the id entered as target.
    TargetNotFound(String),
    /// The edge type entered, in lower case, is none of the five.
    UnknownEdgeType(String),
    /// The resolution entered, in lower case, is none of the three.
    UnknownResolution(String),
    /// A resolution was entered for an edge of this type, which is no
    /// tension.
    ResolutionNotAllowed(EdgeType),
}

/// Why a tension could not be resolved.
#[derive(Debug, Clone)]
pub enum ResolveError {
    /// The index entered, and the number of edges.
    IndexOutOfRange(usize, usize),
    /// The index entered, and the type of the edge there.
    NotTension(usize, EdgeType),
    /// The status entered, in lower case, is neither `resolved` nor
    /// `accepted`.
    UnknownStatus(String),
}

/// The edge type that a name in lower case stands for.
pub open spec fn edge_type_named(name: Seq<char>) -> Option<EdgeType> {
    if name == "support"@ {
        Some(EdgeType::Support)
    } else if name == "require"@ {
        Some(EdgeType::Require)
    } else if name == "tension"@ {
        Some(EdgeType::Tension)
    } else if name == "derive"@ {
        Some(EdgeType::Derive)
    } else if name == "qualify"@ {
        Some(EdgeType::Qualify)
    } else {
        None
    }
}

/// The resolution that a name in lower case stands for.
pub open spec fn resolution_named(name: Seq<char>) -> Option<ResolutionStatus> {
    if name == "unresolved"@ {
        Some(ResolutionStatus::Unresolved)
    } else if name == "resolved"@ {
        Some(ResolutionStatus::Resolved)
    } else if name == "accepted"@ {
        Some(ResolutionStatus::Accepted)
    } else {
        None
    }
}

/// The token under which an edge type is stored.
pub open spec fn edge_type_token(edge_type: EdgeType) -> Seq<char> {
    match edge_type {
        EdgeType::Support => "SUPPORT"@,
        EdgeType::Require => "REQUIRE"@,
        EdgeType::Tension => "TENSION"@,
        EdgeType::Derive => "DERIVE"@,
        EdgeType::Qualify => "QUALIFY"@,
    }
}

/// The token under which a resolution is stored.
pub open spec fn resolution_token(status: ResolutionStatus) -> Seq<char> {
    match status {
        ResolutionStatus::Unresolved => "UNRESOLVED"@,
        ResolutionStatus::Resolved => "RESOLVED"@,
        ResolutionStatus::Accepted => "ACCEPTED"@,
    }
}

/// The token under which a stratum is stored.
pub open spec fn stratum_token(stratum: ClaimStratum) -> Seq<char> {
    match stratum {
        ClaimStratum::Core => "CORE"@,
        ClaimStratum::Structure => "STRUCTURAL"@,
        ClaimStratum::Evidential => "EVIDENTIAL"@,
        ClaimStratum::Peripheral => "PERIPHERAL"@,
    }
}

/// The name of an edge type as it is written in a message.
pub open spec fn edge_type_label(edge_type: EdgeType) -> Seq<char> {
    match edge_type {
        EdgeType::Support => "Support"@,
        EdgeType::Require => "Require"@,
        EdgeType::Tension => "Tension"@,
        EdgeType::Derive => "Derive"@,
        EdgeType::Qualify => "Qualify"@,
    }
}

impl EdgeType {
    /// The token under which this edge type is stored.
    pub fn token(&self) -> (token: &'static str)
        ensures
            token@ == edge_type_token(*self),
    {
        match self {
            EdgeType::Support => "SUPPORT",
            EdgeType::Require => "REQUIRE",
            EdgeType::Tension => "TENSION",
            EdgeType::Derive => "DERIVE",
            EdgeType::Qualify => "QUALIFY",
        }
    }

    /// The name of this edge type as it is written in a message.
    pub fn label(&self) -> (label: &'static str)
        ensures
            label@ == edge_type_label(*self),
    {
        match self {
            EdgeType::Support => "Support",
            EdgeType::Require => "Require",
            EdgeType::Tension => "Tension",
            EdgeType::Derive => "Derive",
            EdgeType::Qualify => "Qualify",
        }
    }

    /// The edge type that a name in lower case stands for.
    pub fn from_name(name: &str) -> (edge_type: Option<Self>)
        ensures
            edge_type == edge_type_named(name@),
    {
        if str_eq(name, "support") {
            Some(EdgeType::Support)
        } else if str_eq(name, "require") {
            Some(EdgeType::Require)
        } else if str_eq(name, "tension") {
            Some(EdgeType::Tension)
        } else if str_eq(name, "derive") {
            Some(EdgeType::Derive)
        } else if str_eq(name, "qualify") {
            Some(EdgeType::Qualify)
        } else {
            None
        }
    }
}

impl ResolutionStatus {
    /// The token under which this resolution is stored.
    pub fn token(&self) -> (token: &'static str)
        ensures
            token@ == resolution_token(*self),
    {
        match self {
            ResolutionStatus::Unresolved => "UNRESOLVED",
            ResolutionStatus::Resolved => "RESOLVED",
            ResolutionStatus::Accepted => "ACCEPTED",
        }
    }

    /// The resolution that a name in lower case stands for.
    pub fn from_name(name: &str) -> (status: Option<Self>)
        ensures
            status == resolution_named(name@),
    {
        if str_eq(name, "unresolved") {
            Some(ResolutionStatus::Unresolved)
        } else if str_eq(name, "resolved") {
            Some(ResolutionStatus::Resolved)
        } else if str_eq(name, "accepted") {
            Some(ResolutionStatus::Accepted)
        } else {
            None
        }
    }
}

impl ClaimStratum {
    /// The token under which this stratum is stored.
    pub fn token(&self) -> (token: &'static str)
        ensures
            token@ == stratum_token(*self),
    {
        match self {
            ClaimStratum::Core => "CORE",
            ClaimStratum::Structure => "STRUCTURAL",
            ClaimStratum::Evidential => "EVIDENTIAL",
            ClaimStratum::Peripheral => "PERIPHERAL",
        }
    }
}

impl EdgeInputError {
    /// The text of the error.
    pub open spec fn message_of(&self) -> Seq<char> {
        match *self {
            EdgeInputError::SourceNotFound(id) => "Source claim '"@ + id@ + "' not found in session"@,
            EdgeInputError::TargetNotFound(id) => "Target claim '"@ + id@ + "' not found in session"@,
            EdgeInputError::UnknownEdgeType(name) => "Unknown edge type: '"@ + name@
                + "'. Use: support, require, tension, derive, qualify"@,
            EdgeInputError::UnknownResolution(name) => "Unknown resolution: '"@ + name@
                + "'. Use: unresolved, resolved, accepted"@,
            EdgeInputError::ResolutionNotAllowed(edge_type) => "Resolution entered for a "@
                + edge_type_label(edge_type) + " edge. Only tension edges carry a resolution."@,
        }
    }

    /// The text of the error.
    pub fn message(&self) -> (text: String)
        ensures
            text@ == self.message_of(),
    {
        match self {
            EdgeInputError::SourceNotFound(id) => {
                let mut text = "Source claim '".to_owned();
                text.append(id.as_str());
                text.append("' not found in session");
                text
            },
            EdgeInputError::TargetNotFound(id) => {
                let mut text = "Target claim '".to_owned();
                text.append(id.as_str());
                text.append("' not found in session");
                text
            },
            EdgeInputError::UnknownEdgeType(name) => {
                let mut text = "Unknown edge type: '".to_owned();
                text.append(name.as_str());
                text.append("'. Use: support, require, tension, derive, qualify");
                text
            },
            EdgeInputError::UnknownResolution(name) => {
                let mut text = "Unknown resolution: '".to_owned();
                text.append(name.as_str());
                text.append("'. Use: unresolved, resolved, accepted");
                text
            },
            EdgeInputError::ResolutionNotAllowed(edge_type) => {
                let mut text = "Resolution entered for a ".to_owned();
                text.append(edge_type.label());
                text.append(" edge. Only tension edges carry a resolution.");
                text
            },
        }
    }
}

impl ResolveError {
    /// The text of the error.
    pub open spec fn message_of(&self) -> Seq<char> {
        match *self {
            ResolveError::IndexOutOfRange(index, len) => "Edge index "@ + decimal(index as nat)
                + " out of range (session has "@ + decimal(len as nat) + " edges)"@,
            ResolveError::NotTension(index, edge_type) => "Edge at index "@ + decimal(index as nat)
                + " is "@ + edge_type_label(edge_type)
                + ", not TENSION. Only tension edges can be resolved."@,
            ResolveError::UnknownStatus(name) => "Unknown status: '"@ + name@
                + "'. Use: resolved, accepted"@,
        }
    }

    /// The text of the error.
    pub fn message(&self) -> (text: String)
        ensures
            text@ == self.message_of(),
    {
        match self {
            ResolveError::IndexOutOfRange(index, len) => {
                let mut text = "Edge index ".to_owned();
                push_decimal(&mut text, *index as u64);
                text.append(" out of range (session has ");
                push_decimal(&mut text, *len as u64);
                text.append(" edges)");
                text
            },
            ResolveError::NotTension(index, edge_type) => {
                let mut text = "Edge at index ".to_owned();
                push_decimal(&mut text, *index as u64);
                text.append(" is ");
                text.append(edge_type.label());
                text.append(", not TENSION. Only tension edges can be resolved.");
                text
            },
            ResolveError::UnknownStatus(name) => {
                let mut text = "Unknown status: '".to_owned();
                text.append(name.as_str());
                text.append("'. Use: resolved, accepted");
                text
            },
        }
    }
}

/// A weight in millionths, brought into the range from nothing to one whole.
pub open spec fn clamped_weight(weight: i64) -> u32 {
    if weight < 0 {
        0
    } else if weight > UNIT {
        UNIT as u32
    } else {
        weight as u32
    }
}

/// Brings a weight in millionths into the range from nothing to one whole.
pub fn clamp_weight(weight: i64) -> (clamped: u32)
    ensures
        clamped == clamped_weight(weight),
        clamped <= UNIT,
{
    if weight < 0 {
        0
    } else if weight > UNIT as i64 {
        UNIT as u32
    } else {
        weight as u32
    }
}

/// The resolution of an edge for which none was entered: `Unresolved` for
/// a tension, none for every other edge.
pub open spec fn default_resolution(edge_type: EdgeType) -> Option<ResolutionStatus> {
    if edge_type == EdgeType::Tension {
        Some(ResolutionStatus::Unresolved)
    } else {
        None
    }
}

/// The resolution fits the edge type: a tension carries one, and no other
/// edge does.
pub open spec fn resolution_fits(edge_type: EdgeType, resolution: Option<ResolutionStatus>) -> bool {
    resolution is Some <==> edge_type == EdgeType::Tension
}

/// What is entered for a new edge, with the names already in lower case.
pub struct EdgeEntry<'a> {
    pub source: &'a str,
    pub target: &'a str,
    /// The name of the edge type, in lower case.
    pub edge_type: &'a str,
    /// The weight, in millionths; it is clamped.
    pub weight: i64,
    /// The name of the resolution, in lower case, if one was entered.
    pub resolution: Option<&'a str>,
}

/// What becomes of an entry: the error of the first check that fails, in the
/// order source, target, edge type, name of the resolution, resolution on an
/// edge that is no tension; else the edge.
pub open spec fn entry_outcome(ids: Seq<Seq<char>>, entry: EdgeEntry<'_>) -> Result<
    (EdgeType, Option<ResolutionStatus>),
    EdgeInputErrorKind,
> {
    if !ids.contains(entry.source@) {
        Err(EdgeInputErrorKind::SourceNotFound)
    } else if !ids.contains(entry.target@) {
        Err(EdgeInputErrorKind::TargetNotFound)
    } else {
        match edge_type_named(entry.edge_type@) {
            None => Err(EdgeInputErrorKind::UnknownEdgeType),
            Some(edge_type) => match entry.resolution {
                None => Ok((edge_type, default_resolution(edge_type))),
                Some(name) => match resolution_named(name@) {
                    None => Err(EdgeInputErrorKind::UnknownResolution),
                    Some(status) => if edge_type == EdgeType::Tension {
                        Ok((edge_type, Some(status)))
                    } else {
                        Err(EdgeInputErrorKind::ResolutionNotAllowed)
                    },
                },
            },
        }
    }
}

/// The kinds of errors of an entry.
pub enum EdgeInputErrorKind {
    SourceNotFound,
    TargetNotFound,
    UnknownEdgeType,
    UnknownResolution,
    ResolutionNotAllowed,
}

/// Builds an edge from an entry whose names are in lower case.
///
/// The source and the target have to be ids of claims, the edge type one of
/// the five, and the resolution, if any, one of the three. Only a tension
/// takes a resolution: one that is entered for another edge is refused. The
/// weight is clamped. A tension without a resolution is unresolved. So the
/// edge that is built carries a resolution if and only if it is a tension.
pub fn edge_from_entry(claims: &[Claim], entry: &EdgeEntry<'_>, now: i64) -> (built: Result<
    CdgEdge,
    EdgeInputError,
>)
    ensures
        match entry_outcome(claim_ids(claims@), *entry) {
            Ok((edge_type, resolution)) => built matches Ok(edge) && edge.source_claim_id@
                == entry.source@ && edge.target_claim_id@ == entry.target@ && edge.edge_type
                == edge_type && edge.weight == clamped_weight(entry.weight) && edge.resolution
                == resolution && edge.created_at == now,
            Err(EdgeInputErrorKind::SourceNotFound) => built matches Err(
                EdgeInputError::SourceNotFound(id),
            ) && id@ == entry.source@,
            Err(EdgeInputErrorKind::TargetNotFound) => built matches Err(
                EdgeInputError::TargetNotFound(id),
            ) && id@ == entry.target@,
            Err(EdgeInputErrorKind::UnknownEdgeType) => built matches Err(
                EdgeInputError::UnknownEdgeType(name),
            ) && name@ == entry.edge_type@,
            Err(EdgeInputErrorKind::UnknownResolution) => built matches Err(
                EdgeInputError::UnknownResolution(name),
            ) && name@ == entry.resolution.unwrap()@,
            Err(EdgeInputErrorKind::ResolutionNotAllowed) => built matches Err(
                EdgeInputError::ResolutionNotAllowed(edge_type),
            ) && Some(edge_type) == edge_type_named(entry.edge_type@),
        },
        built matches Ok(edge) ==> resolution_fits(edge.edge_type, edge.resolution),
        built matches Ok(edge) ==> (edge.edge_type != EdgeType::Tension ==> edge.resolution is None),
{
    let source = entry.source.to_owned();
    if find_claim(claims, &source).is_none() {
        return Err(EdgeInputError::SourceNotFound(source));
    }
    let target = entry.target.to_owned();
    if find_claim(claims, &target).is_none() {
        return Err(EdgeInputError::TargetNotFound(target));
    }
    let edge_type = match EdgeType::from_name(entry.edge_type) {
        Some(edge_type) => edge_type,
        None => {
            return Err(EdgeInputError::UnknownEdgeType(entry.edge_type.to_owned()));
        },
    };
    let resolution = match entry.resolution {
        Some(name) => match ResolutionStatus::from_name(name) {
            Some(status) => match edge_type {
                EdgeType::Tension => Some(status),
                _ => {
                    return Err(EdgeInputError::ResolutionNotAllowed(edge_type));
                },
            },
            None => {
                return Err(EdgeInputError::UnknownResolution(name.to_owned()));
            },
        },
        None => match edge_type {
            EdgeType::Tension => Some(ResolutionStatus::Unresolved),
            _ => None,
        },
    };
    Ok(
        CdgEdge {
            source_claim_id: source,
            target_claim_id: target,
            edge_type,
            weight: clamp_weight(entry.weight),
            resolution,
            created_at: now,
        },
    )
}

/// Builds an edge from what a user entered. The names of the edge type and
/// of the resolution may be in upper or lower case.
///
/// The checks come in this order: the source is a claim, the target is a
/// claim, the edge type is known, the resolution is known, and the resolution
/// stands on a tension. The edge that is built carries a resolution if and
/// only if it is a tension.
pub fn new_edge(
    claims: &[Claim],
    source: &str,
    target: &str,
    edge_type: &str,
    weight: i64,
    resolution: Option<&str>,
    now: i64,
) -> (built: Result<CdgEdge, EdgeInputError>)
    ensures
        ({
            let ids = claim_ids(claims@);
            let kind_name = lowercase_of(edge_type@);
            if !ids.contains(source@) {
                built matches Err(EdgeInputError::SourceNotFound(id)) && id@ == source@
            } else if !ids.contains(target@) {
                built matches Err(EdgeInputError::TargetNotFound(id)) && id@ == target@
            } else if edge_type_named(kind_name) is None {
                built matches Err(EdgeInputError::UnknownEdgeType(name)) && name@ == kind_name
            } else if resolution is Some && resolution_named(lowercase_of(resolution.unwrap()@)) is None {
                built matches Err(EdgeInputError::UnknownResolution(name)) && name@ == lowercase_of(
                    resolution.unwrap()@,
                )
            } else if resolution is Some && edge_type_named(kind_name) != Some(EdgeType::Tension) {
                built matches Err(EdgeInputError::ResolutionNotAllowed(kind)) && Some(kind)
                    == edge_type_named(kind_name)
            } else {
                built matches Ok(edge) && edge.source_claim_id@ == source@ && edge.target_claim_id@
                    == target@ && Some(edge.edge_type) == edge_type_named(kind_name) && edge.weight
                    == clamped_weight(weight) && edge.created_at == now && edge.resolution == (
                match resolution {
                    Some(name) => resolution_named(lowercase_of(name@)),
                    None => default_resolution(edge.edge_type),
                })
            }
        }),
        built matches Ok(edge) ==> resolution_fits(edge.edge_type, edge.resolution),
        built matches Ok(edge) ==> (edge.edge_type != EdgeType::Tension ==> edge.resolution is None),
{
    let kind_name = edge_type.to_lowercase();
    match resolution {
        Some(name) => {
            let resolution_name = name.to_lowercase();
            let entry = EdgeEntry {
                source,
                target,
                edge_type: kind_name.as_str(),
                weight,
                resolution: Some(resolution_name.as_str()),
            };
            edge_from_entry(claims, &entry, now)
        },
        None => {
            let entry = EdgeEntry {
                source,
                target,
                edge_type: kind_name.as_str(),
                weight,
                resolution: None,
            };
            edge_from_entry(claims, &entry, now)
        },
    }
}

/// The resolution that a status name in lower case asks for: only `resolved`
/// and `accepted` resolve a tension.
pub open spec fn settling_named(name: Seq<char>) -> Option<ResolutionStatus> {
    if name == "resolved"@ {
        Some(ResolutionStatus::Resolved)
    } else if name == "accepted"@ {
        Some(ResolutionStatus::Accepted)
    } else {
        None
    }
}

/// Sets the resolution of the tension at `edge_index`, given the name of the
/// new status in lower case.
///
/// Fails, and changes nothing, where the index is out of range, where the
/// edge there is no tension, or where the name is neither `resolved` nor
/// `accepted`; the checks are made in this order.
pub fn settle_tension(edges: &mut Vec<CdgEdge>, edge_index: usize, status: &str) -> (settled: Result<
    (),
    ResolveError,
>)
    ensures
        settled is Err ==> final(edges)@ == old(edges)@,
        edge_index >= old(edges).len() ==> (settled matches Err(
            ResolveError::IndexOutOfRange(index, len),
        ) && index == edge_index && len == old(edges).len()),
        edge_index < old(edges).len() && old(edges)[edge_index as int].edge_type != EdgeType::Tension
            ==> (settled matches Err(ResolveError::NotTension(index, edge_type)) && index == edge_index
            && edge_type == old(edges)[edge_index as int].edge_type),
        edge_index < old(edges).len() && old(edges)[edge_index as int].edge_type == EdgeType::Tension
            && settling_named(status@) is None ==> (settled matches Err(
            ResolveError::UnknownStatus(name),
        ) && name@ == status@),
        edge_index < old(edges).len() && old(edges)[edge_index as int].edge_type == EdgeType::Tension
            && settling_named(status@) is Some ==> settled is Ok && final(edges)@.len() == old(edges)@.len()
            && (forall|k: int|
            0 <= k < old(edges)@.len() && k != edge_index ==> final(edges)@[k] == old(edges)@[k]) && ({
            let before = old(edges)@[edge_index as int];
            let after = final(edges)@[edge_index as int];
            &&& after.source_claim_id@ == before.source_claim_id@
            &&& after.target_claim_id@ == before.target_claim_id@
            &&& after.edge_type == before.edge_type
            &&& after.weight == before.weight
            &&& after.created_at == before.created_at
            &&& after.resolution == settling_named(status@)
        }),
{
    if edge_index >= edges.len() {
        return Err(ResolveError::IndexOutOfRange(edge_index, edges.len()));
    }
    let edge_type = edges[edge_index].edge_type;
    match edge_type {
        EdgeType::Tension => {},
        _ => {
            return Err(ResolveError::NotTension(edge_index, edge_type));
        },
    }
    let resolution = if str_eq(status, "resolved") {
        ResolutionStatus::Resolved
    } else if str_eq(status, "accepted") {
        ResolutionStatus::Accepted
    } else {
        return Err(ResolveError::UnknownStatus(status.to_owned()));
    };
    let settled = CdgEdge {
        source_claim_id: edges[edge_index].source_claim_id.clone(),
        target_claim_id: edges[edge_index].target_claim_id.clone(),
        edge_type,
        weight: edges[edge_index].weight,
        resolution: Some(resolution),
        created_at: edges[edge_index].created_at,
    };
    edges.set(edge_index, settled);
    Ok(())
}

/// Sets the resolution of the tension at `edge_index` to the status that a
/// user entered, in upper or lower case.
///
/// Fails, and changes nothing, where the index is out of range, where the
/// edge there is no tension, or where the name is neither `resolved` nor
/// `accepted`; the checks are made in this order. Else the edge at the index
/// gets the resolution and keeps all else, and every other edge stays.
pub fn resolve_tension(edges: &mut Vec<CdgEdge>, edge_index: usize, status: &str) -> (settled: Result<
    (),
    ResolveError,
>)
    ensures
        settled is Err ==> final(edges)@ == old(edges)@,
        settled is Ok <==> edge_index < old(edges).len() && old(edges)[edge_index as int].edge_type
            == EdgeType::Tension && settling_named(lowercase_of(status@)) is Some,
        edge_index >= old(edges).len() ==> (settled matches Err(
            ResolveError::IndexOutOfRange(index, len),
        ) && index == edge_index && len == old(edges).len()),
        edge_index < old(edges).len() && old(edges)[edge_index as int].edge_type != EdgeType::Tension
            ==> (settled matches Err(ResolveError::NotTension(index, edge_type)) && index == edge_index
            && edge_type == old(edges)[edge_index as int].edge_type),
        edge_index < old(edges).len() && old(edges)[edge_index as int].edge_type == EdgeType::Tension
            && settling_named(lowercase_of(status@)) is None ==> (settled matches Err(
            ResolveError::UnknownStatus(name),
        ) && name@ == lowercase_of(status@)),
        settled is Ok ==> final(edges)@.len() == old(edges)@.len() && (forall|k: int|
            0 <= k < old(edges)@.len() && k != edge_index ==> final(edges)@[k] == old(edges)@[k]) && ({
            let before = old(edges)@[edge_index as int];
            let after = final(edges)@[edge_index as int];
            &&& after.source_claim_id@ == before.source_claim_id@
            &&& after.target_claim_id@ == before.target_claim_id@
            &&& after.edge_type == before.edge_type
            &&& after.weight == before.weight
            &&& after.created_at == before.created_at
            &&& after.resolution == settling_named(lowercase_of(status@))
        }),
{
    let name = status.to_lowercase();
    settle_tension(edges, edge_index, name.as_str())
}

} // verus!
