//! Event handling decisions: which runtime events matter, and what a start
//! event for a target container leads to. The subscription stream, retries
//! and the netlink work are driven outside the crate; this module decides.

use vstd::prelude::*;
use crate::classifier::{ClassificationV, ContainerType, DefaultContainerClassifier, TargetContainerInfo};
use crate::container::{ContainerInfo, ContainerInfoV};
use crate::error::{NetworkError, RouteError};
use crate::network::{resolve_container_ip_with_preference, spec_resolve_with_preference, ResolutionV};
use crate::routing::{RouteEntry, RouteEntryV};
use crate::rules::{no_conflicts, opt_str_view, spec_multi_routes, RoutingRuleCalculator};
use crate::text::str_eq;

verus! {

/// A lifecycle event as the runtime adapter reports it: the event type, the
/// action, and the acting container's id, each possibly absent.
#[derive(Debug, Clone)]
pub struct RuntimeEvent {
    pub typ: Option<String>,
    pub action: Option<String>,
    pub actor_id: Option<String>,
}

/// Mathematical view of a runtime event.
pub ghost struct RuntimeEventV {
    pub typ: Option<Seq<char>>,
    pub action: Option<Seq<char>>,
    pub actor_id: Option<Seq<char>>,
}

impl View for RuntimeEvent {
    type V = RuntimeEventV;

    open spec fn view(&self) -> RuntimeEventV {
        RuntimeEventV {
            typ: match self.typ {
                Some(t) => Some(t@),
                None => None,
            },
            action: match self.action {
                Some(a) => Some(a@),
                None => None,
            },
            actor_id: match self.actor_id {
                Some(i) => Some(i@),
                None => None,
            },
        }
    }
}

/// What the loop should do with an event.
#[derive(Debug, Clone, PartialEq)]
pub enum EventDecision {
    /// Handle a container start for this id.
    Start(String),
    /// Handle a container stop for this id.
    Stop(String),
    /// Nothing to do.
    Skip,
}

/// Spec-level event decision.
pub ghost enum EventDecisionV {
    Start(Seq<char>),
    Stop(Seq<char>),
    Skip,
}

impl View for EventDecision {
    type V = EventDecisionV;

    open spec fn view(&self) -> EventDecisionV {
        match self {
            EventDecision::Start(id) => EventDecisionV::Start(id@),
            EventDecision::Stop(id) => EventDecisionV::Stop(id@),
            EventDecision::Skip => EventDecisionV::Skip,
        }
    }
}

/// The decision an event calls for: only container-typed events with a start
/// or stop action and an actor id are handled; everything else is skipped.
/// An event without a type is taken as a container event, since the
/// subscription is already filtered at the source.
pub open spec fn spec_event_decision(e: RuntimeEventV) -> EventDecisionV {
    if e.typ matches Some(t) && t != "container"@ {
        EventDecisionV::Skip
    } else {
        match e.actor_id {
            Option::None => EventDecisionV::Skip,
            Option::Some(id) => {
                if e.action matches Some(a) && a == "start"@ {
                    EventDecisionV::Start(id)
                } else if e.action matches Some(a) && a == "stop"@ {
                    EventDecisionV::Stop(id)
                } else {
                    EventDecisionV::Skip
                }
            },
        }
    }
}

/// Decide what to do with one runtime event, as `spec_event_decision` states.
pub fn process_event_decision(e: &RuntimeEvent) -> (r: EventDecision)
    ensures
        r@ == spec_event_decision(e@),
{
    if let Some(t) = &e.typ {
        if !str_eq(t.as_str(), "container") {
            return EventDecision::Skip;
        }
    }
    let id = match &e.actor_id {
        Some(id) => id.clone(),
        None => {
            return EventDecision::Skip;
        },
    };
    match &e.action {
        Some(a) => {
            if str_eq(a.as_str(), "start") {
                EventDecision::Start(id)
            } else if str_eq(a.as_str(), "stop") {
                EventDecision::Stop(id)
            } else {
                EventDecision::Skip
            }
        },
        None => EventDecision::Skip,
    }
}

/// Why setting up routes for a target container was abandoned.
#[derive(Debug, Clone, PartialEq)]
pub enum TargetSetupError {
    /// No container bears the referenced warp name.
    WarpMissing,
    /// More than one container bears the referenced warp name.
    AmbiguousWarp,
    /// The referenced container does not validate as a warp.
    WarpInvalid,
    /// The warp's gateway address could not be resolved.
    Resolve(NetworkError),
    /// The routes could not be computed from the rules.
    Route(RouteError),
}

/// How many of the containers bear exactly this name.
pub open spec fn count_named(cs: Seq<ContainerInfoV>, name: Seq<char>) -> nat
    decreases cs.len(),
{
    if cs.len() == 0 {
        0
    } else {
        count_named(cs.drop_last(), name) + (if cs.last().name == name {
            1nat
        } else {
            0nat
        })
    }
}

/// Index of the first container with this name, or -1.
pub open spec fn first_named(cs: Seq<ContainerInfoV>, name: Seq<char>) -> int
    decreases cs.len(),
{
    if cs.len() == 0 {
        -1
    } else if cs[0].name == name {
        0
    } else {
        let r = first_named(cs.subrange(1, cs.len() as int), name);
        if r < 0 {
            -1
        } else {
            r + 1
        }
    }
}

proof fn lemma_count_named_step(cs: Seq<ContainerInfoV>, name: Seq<char>, i: int)
    requires
        0 <= i < cs.len(),
    ensures
        count_named(cs.subrange(0, i + 1), name) == count_named(cs.subrange(0, i), name) + (
        if cs[i].name == name {
            1nat
        } else {
            0nat
        }),
{
    assert(cs.subrange(0, i + 1).drop_last() =~= cs.subrange(0, i));
}

proof fn lemma_first_named_at(cs: Seq<ContainerInfoV>, name: Seq<char>, i: int)
    requires
        0 <= i < cs.len(),
        cs[i].name == name,
        forall|j: int| 0 <= j < i ==> cs[j].name != name,
    ensures
        first_named(cs, name) == i,
    decreases cs.len(),
{
    if i > 0 {
        lemma_first_named_at(cs.subrange(1, cs.len() as int), name, i - 1);
    }
}

/// Find how many containers bear the name, and the first one that does.
fn count_and_find_named<'a>(candidates: &'a Vec<ContainerInfo>, name: &str) -> (r: (
    usize,
    Option<&'a ContainerInfo>,
))
    ensures
        ({
            let cs = candidates@.map_values(|c: ContainerInfo| c@);
            &&& r.0 == count_named(cs, name@)
            &&& match r.1 {
                Some(c) => count_named(cs, name@) > 0 && first_named(cs, name@) >= 0 && c@ == cs[
                    first_named(cs, name@)
                ],
                None => count_named(cs, name@) == 0,
            }
        }),
{
    let ghost cs = candidates@.map_values(|c: ContainerInfo| c@);
    let n = candidates.len();
    let mut i: usize = 0;
    let mut cnt: usize = 0;
    let mut first: Option<usize> = None;
    proof {
        assert(cs.subrange(0, 0) =~= Seq::<ContainerInfoV>::empty());
    }
    while i < n
        invariant
            n == candidates@.len(),
            cs == candidates@.map_values(|c: ContainerInfo| c@),
            i <= n,
            cnt <= i,
            cnt == count_named(cs.subrange(0, i as int), name@),
            match first {
                Some(fi) => {
                    &&& fi < i
                    &&& cnt > 0
                    &&& cs[fi as int].name == name@
                    &&& forall|j: int| 0 <= j < fi ==> cs[j].name != name@
                },
                None => cnt == 0 && forall|j: int| 0 <= j < i ==> cs[j].name != name@,
            },
        decreases n - i,
    {
        proof {
            lemma_count_named_step(cs, name@, i as int);
        }
        if str_eq(candidates[i].name.as_str(), name) {
            if first.is_none() {
                first = Some(i);
            }
            cnt = cnt + 1;
        }
        i += 1;
    }
    proof {
        assert(cs.subrange(0, n as int) =~= cs);
    }
    match first {
        Some(fi) => {
            proof {
                lemma_first_named_at(cs, name@, fi as int);
            }
            (cnt, Some(&candidates[fi]))
        },
        None => (cnt, None),
    }
}

/// Plan the routes to install for one target container: find the referenced
/// warp container by exact name among the candidates (it must exist, and be
/// unique), check that it classifies as a warp, resolve its gateway address
/// using the classifier's network preference label, and compute one route per
/// configured destination toward that gateway.
pub fn plan_routes_for_target(
    classifier: &DefaultContainerClassifier,
    calculator: &RoutingRuleCalculator,
    target: &TargetContainerInfo,
    candidates: &Vec<ContainerInfo>,
    destination_cidrs: &Vec<String>,
    interface: Option<String>,
) -> (r: Result<Vec<RouteEntry>, TargetSetupError>)
    requires
        classifier.wf(),
    ensures
        ({
            let cs = candidates@.map_values(|c: ContainerInfo| c@);
            let nm = target.warp_target@;
            let label = classifier.preference_label_view();
            let cidrs = destination_cidrs@.map_values(|s: String| s@);
            match r {
                Err(TargetSetupError::WarpMissing) => count_named(cs, nm) == 0,
                Err(TargetSetupError::AmbiguousWarp) => count_named(cs, nm) >= 2,
                Err(TargetSetupError::WarpInvalid) => count_named(cs, nm) == 1 && !(
                classifier.spec_classify(cs[first_named(cs, nm)]) is Warp),
                Err(TargetSetupError::Resolve(_)) => {
                    &&& count_named(cs, nm) == 1
                    &&& classifier.spec_classify(cs[first_named(cs, nm)]) is Warp
                    &&& !(spec_resolve_with_preference(cs[first_named(cs, nm)], label)
                        is Resolved)
                },
                Err(TargetSetupError::Route(e)) => {
                    &&& count_named(cs, nm) == 1
                    &&& classifier.spec_classify(cs[first_named(cs, nm)]) is Warp
                    &&& spec_resolve_with_preference(cs[first_named(cs, nm)], label)
                        matches ResolutionV::Resolved(gw) && match spec_multi_routes(
                        cidrs,
                        gw,
                        opt_str_view(interface),
                    ) {
                        Option::None => e matches RouteError::InvalidRoute(_),
                        Option::Some(rs) => !no_conflicts(rs) && e
                            matches RouteError::RouteConflict(_),
                    }
                },
                Ok(routes) => {
                    &&& count_named(cs, nm) == 1
                    &&& classifier.spec_classify(cs[first_named(cs, nm)]) is Warp
                    &&& spec_resolve_with_preference(cs[first_named(cs, nm)], label)
                        matches ResolutionV::Resolved(gw) && spec_multi_routes(
                        cidrs,
                        gw,
                        opt_str_view(interface),
                    ) == Some(routes@.map_values(|e: RouteEntry| e@))
                    &&& no_conflicts(routes@.map_values(|e: RouteEntry| e@))
                },
            }
        }),
{
    let (cnt, first) = count_and_find_named(candidates, target.warp_target.as_str());
    if cnt == 0 {
        return Err(TargetSetupError::WarpMissing);
    }
    if cnt > 1 {
        return Err(TargetSetupError::AmbiguousWarp);
    }
    let warp = match first {
        Some(w) => w,
        None => {
            return Err(TargetSetupError::WarpMissing);
        },
    };
    match classifier.classify_container(warp) {
        ContainerType::WarpContainer(_) => (),
        _ => {
            return Err(TargetSetupError::WarpInvalid);
        },
    }
    let gateway = match resolve_container_ip_with_preference(
        warp,
        classifier.preference_label().as_str(),
    ) {
        Ok(ip) => ip,
        Err(e) => {
            return Err(TargetSetupError::Resolve(e));
        },
    };
    match calculator.calculate_multiple_routes(destination_cidrs, gateway, interface) {
        Ok(routes) => Ok(routes),
        Err(e) => Err(TargetSetupError::Route(e)),
    }
}

} // verus!
