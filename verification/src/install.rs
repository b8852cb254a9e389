//! Installing a computed route set into a namespace, with rollback: routes go
//! in one at a time, in order; when one install fails, the routes already
//! installed are removed again, in reverse order, each exactly once, before
//! the failure is reported.
//!
//! The loop that talks to the netlink transport drives an `InstallPlan`: it
//! asks for the next action, performs it, and reports whether it succeeded.

use vstd::prelude::*;
use crate::container::clone_opt_string;
use crate::routing::{RouteEntry, RouteEntryV};

verus! {

/// The next thing the driving loop should do with the transport.
#[derive(Debug, Clone, PartialEq)]
pub enum RouteAction {
    /// Install this route.
    Add(RouteEntry),
    /// Remove this route (rolling back).
    Remove(RouteEntry),
    /// Nothing is left to do; `succeeded` tells whether every route went in.
    Done { succeeded: bool },
}

/// Clone a route entry; the view is preserved.
pub fn clone_route_entry(e: &RouteEntry) -> (r: RouteEntry)
    ensures
        r@ == e@,
{
    RouteEntry {
        destination: e.destination,
        gateway: e.gateway,
        interface: clone_opt_string(&e.interface),
        metric: e.metric,
    }
}

/// The routes of a list in reverse order, for removal on a stop event.
pub fn reverse_routes(routes: &Vec<RouteEntry>) -> (r: Vec<RouteEntry>)
    ensures
        r@.map_values(|e: RouteEntry| e@) == routes@.map_values(|e: RouteEntry| e@).reverse(),
{
    let n = routes.len();
    let mut out: Vec<RouteEntry> = Vec::new();
    let mut i: usize = 0;
    while i < n
        invariant
            n == routes@.len(),
            i <= n,
            out@.len() == i,
            forall|j: int| 0 <= j < i ==> out@[j]@ == routes@[n - 1 - j]@,
        decreases n - i,
    {
        out.push(clone_route_entry(&routes[n - 1 - i]));
        i += 1;
    }
    proof {
        assert(out@.map_values(|e: RouteEntry| e@) =~= routes@.map_values(
            |e: RouteEntry| e@,
        ).reverse());
    }
    out
}

/// One install run over a route set. While no install has failed, the plan
/// asks for each route in order; after a failure it asks for the removal of
/// each already-installed route, last first, and then reports failure.
pub struct InstallPlan {
    routes: Vec<RouteEntry>,
    next: usize,
    installed: Vec<RouteEntry>,
    removed: Vec<RouteEntry>,
    failed: bool,
}

impl InstallPlan {
    /// The routes the plan was built over.
    pub closed spec fn routes_v(self) -> Seq<RouteEntryV> {
        self.routes@.map_values(|e: RouteEntry| e@)
    }

    /// The routes currently installed and not yet rolled back, in install
    /// order.
    pub closed spec fn installed_v(self) -> Seq<RouteEntryV> {
        self.installed@.map_values(|e: RouteEntry| e@)
    }

    /// The removal attempts issued so far, in order.
    pub closed spec fn removed_v(self) -> Seq<RouteEntryV> {
        self.removed@.map_values(|e: RouteEntry| e@)
    }

    /// An install has failed and the plan is rolling back.
    pub closed spec fn is_failed(self) -> bool {
        self.failed
    }

    /// The index of the route whose install failed; meaningful only once
    /// `is_failed` holds.
    pub closed spec fn fail_point(self) -> int {
        self.next as int
    }

    /// Position of the install run: how many routes have been handled.
    pub closed spec fn next_v(self) -> int {
        self.next as int
    }

    /// The plan's invariant. While installing, the installed routes are
    /// exactly the prefix handled so far and nothing was removed. While
    /// rolling back, the installed prefix up to the failure point splits into
    /// the part still installed and the part already removed, in reverse.
    pub closed spec fn wf(self) -> bool {
        &&& self.next <= self.routes@.len()
        &&& if !self.failed {
            &&& self.installed_v() == self.routes_v().take(self.next as int)
            &&& self.removed_v().len() == 0
        } else {
            &&& self.installed@.len() <= self.next
            &&& self.installed_v() == self.routes_v().take(self.installed@.len() as int)
            &&& self.removed_v() == self.routes_v().subrange(
                self.installed@.len() as int,
                self.next as int,
            ).reverse()
        }
    }

    /// Everything is decided: either all routes went in, or the rollback has
    /// removed every installed route.
    pub open spec fn is_done(self) -> bool {
        if self.is_failed() {
            self.installed_v().len() == 0
        } else {
            self.next_v() == self.routes_v().len()
        }
    }

    /// A fresh plan over the given routes.
    pub fn new(routes: Vec<RouteEntry>) -> (r: Self)
        ensures
            r.wf(),
            r.routes_v() == routes@.map_values(|e: RouteEntry| e@),
            !r.is_failed(),
            r.next_v() == 0,
            r.installed_v().len() == 0,
            r.removed_v().len() == 0,
    {
        let r = InstallPlan {
            routes,
            next: 0,
            installed: Vec::new(),
            removed: Vec::new(),
            failed: false,
        };
        proof {
            assert(r.installed_v() =~= r.routes_v().take(0));
        }
        r
    }

    /// What to do next. `Done { succeeded: false }` is only reported after
    /// the rollback issued one removal for each route of the installed
    /// prefix, in reverse install order.
    pub fn current_action(&self) -> (a: RouteAction)
        requires
            self.wf(),
        ensures
            match a {
                RouteAction::Add(e) => {
                    &&& !self.is_failed()
                    &&& self.next_v() < self.routes_v().len()
                    &&& e@ == self.routes_v()[self.next_v()]
                },
                RouteAction::Remove(e) => {
                    &&& self.is_failed()
                    &&& self.installed_v().len() > 0
                    &&& e@ == self.installed_v().last()
                },
                RouteAction::Done { succeeded } => {
                    &&& succeeded == !self.is_failed()
                    &&& self.is_done()
                    &&& (self.is_failed() ==> self.removed_v() == self.routes_v().take(
                        self.fail_point(),
                    ).reverse())
                },
            },
    {
        if !self.failed {
            if self.next < self.routes.len() {
                RouteAction::Add(clone_route_entry(&self.routes[self.next]))
            } else {
                RouteAction::Done { succeeded: true }
            }
        } else {
            if self.installed.len() > 0 {
                RouteAction::Remove(clone_route_entry(&self.installed[self.installed.len() - 1]))
            } else {
                proof {
                    assert(self.removed_v() =~= self.routes_v().subrange(
                        0,
                        self.next as int,
                    ).reverse());
                    assert(self.routes_v().take(self.fail_point()) =~= self.routes_v().subrange(
                        0,
                        self.next as int,
                    ));
                }
                RouteAction::Done { succeeded: false }
            }
        }
    }

    /// Report that the action last asked for succeeded. A successful install
    /// extends the installed prefix; a successful removal retires the last
    /// installed route.
    pub fn note_success(&mut self)
        requires
            old(self).wf(),
            !old(self).is_done(),
        ensures
            final(self).wf(),
            final(self).routes_v() == old(self).routes_v(),
            final(self).is_failed() == old(self).is_failed(),
            !old(self).is_failed() ==> {
                &&& final(self).next_v() == old(self).next_v() + 1
                &&& final(self).installed_v() == old(self).installed_v().push(
                    old(self).routes_v()[old(self).next_v()],
                )
                &&& final(self).removed_v().len() == 0
            },
            old(self).is_failed() ==> {
                &&& final(self).installed_v() == old(self).installed_v().drop_last()
                &&& final(self).removed_v() == old(self).removed_v().push(
                    old(self).installed_v().last(),
                )
                &&& final(self).fail_point() == old(self).fail_point()
            },
    {
        if !self.failed {
            let n = self.routes.len();
            proof {
                assert(self.routes_v().len() == self.routes@.len());
                assert(self.next < n);
            }
            let e = clone_route_entry(&self.routes[self.next]);
            self.installed.push(e);
            self.next = self.next + 1;
            proof {
                assert(self.installed_v() =~= self.routes_v().take(self.next as int));
            }
        } else {
            self.retire_last_installed();
        }
    }

    /// Report that the action last asked for failed. A failed install starts
    /// the rollback; a failed removal still counts as the one removal attempt
    /// owed for that route.
    pub fn note_failure(&mut self)
        requires
            old(self).wf(),
            !old(self).is_done(),
        ensures
            final(self).wf(),
            final(self).routes_v() == old(self).routes_v(),
            final(self).is_failed(),
            !old(self).is_failed() ==> {
                &&& final(self).fail_point() == old(self).next_v()
                &&& final(self).installed_v() == old(self).installed_v()
                &&& final(self).removed_v().len() == 0
            },
            old(self).is_failed() ==> {
                &&& final(self).installed_v() == old(self).installed_v().drop_last()
                &&& final(self).removed_v() == old(self).removed_v().push(
                    old(self).installed_v().last(),
                )
                &&& final(self).fail_point() == old(self).fail_point()
            },
    {
        if !self.failed {
            self.failed = true;
            proof {
                assert(self.removed_v() =~= self.routes_v().subrange(
                    self.installed@.len() as int,
                    self.next as int,
                ).reverse());
            }
        } else {
            self.retire_last_installed();
        }
    }

    /// Move the last installed route to the removal record.
    fn retire_last_installed(&mut self)
        requires
            old(self).wf(),
            old(self).is_failed(),
            old(self).installed_v().len() > 0,
        ensures
            final(self).wf(),
            final(self).routes_v() == old(self).routes_v(),
            final(self).is_failed(),
            final(self).installed_v() == old(self).installed_v().drop_last(),
            final(self).removed_v() == old(self).removed_v().push(old(self).installed_v().last()),
            final(self).fail_point() == old(self).fail_point(),
    {
        let ghost oldself = *self;
        let last = self.installed.pop().unwrap();
        self.removed.push(last);
        proof {
            assert(self.installed_v() =~= oldself.installed_v().drop_last());
            assert(self.removed_v() =~= oldself.removed_v().push(oldself.installed_v().last()));
            let j = self.installed@.len() as int;
            let k = self.next as int;
            assert(self.installed_v() =~= self.routes_v().take(j));
            assert(self.removed_v() =~= self.routes_v().subrange(j, k).reverse()) by {
                assert(oldself.removed_v() == oldself.routes_v().subrange(j + 1, k).reverse());
                assert(oldself.installed_v().last() == oldself.routes_v()[j]);
                assert(self.routes_v().subrange(j, k).reverse() =~= self.routes_v().subrange(
                    j + 1,
                    k,
                ).reverse().push(self.routes_v()[j]));
            }
        }
    }
}

/// Rollback law: when a plan whose install failed at position `k` has
/// finished, its removal record is exactly the routes installed before the
/// failure — positions `0` to `k - 1` — in reverse order, each exactly once.
pub proof fn lemma_rollback(p: InstallPlan)
    requires
        p.wf(),
        p.is_failed(),
        p.is_done(),
    ensures
        p.removed_v() == p.routes_v().take(p.fail_point()).reverse(),
        p.removed_v().len() == p.fail_point(),
{
    assert(p.removed_v() =~= p.routes_v().subrange(0, p.fail_point()).reverse());
    assert(p.routes_v().take(p.fail_point()) =~= p.routes_v().subrange(0, p.fail_point()));
}

} // verus!
