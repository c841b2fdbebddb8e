//! Finding the element under a point by walking an application's tree.
//!
//! A fallback for when the position API returns a shallow container. Among all
//! elements that cover the point the deepest wins; at equal depth the smaller; at
//! equal size what is no plain container.

use crate::capture::{ScreenPoint, ScreenRect};
use crate::text::same;
use std::collections::HashSet;
use vstd::prelude::*;

verus! {

/// How many elements are looked at, so a pathological tree can't stall the pick.
pub const RESOLVE_BUDGET: usize = 20_000;

/// What an application answers, for each element: its role, rectangle and children.
pub struct Shapes {
    pub role: spec_fn(u64) -> Seq<char>,
    pub rect: spec_fn(u64) -> Option<ScreenRect>,
    pub kids: spec_fn(u64) -> Seq<u64>,
}

/// A role that only holds others.
pub open spec fn plain_container(role: Seq<char>) -> bool {
    role == "AXGroup"@ || role == "AXSplitGroup"@ || role == "AXScrollArea"@ || role
        == "AXLayoutArea"@
}

fn is_plain_container(role: &str) -> (r: bool)
    ensures
        r == plain_container(role@),
{
    same(role, "AXGroup") || same(role, "AXSplitGroup") || same(role, "AXScrollArea") || same(
        role,
        "AXLayoutArea",
    )
}

/// An element that covers the point.
#[derive(Debug, Clone, Copy, PartialEq, Eq, Structural)]
pub struct Found {
    pub id: u64,
    pub depth: u32,
    /// In square units.
    pub area: i128,
    pub container: bool,
}

/// `a` is a better answer than `b`.
pub open spec fn better(a: Found, b: Found) -> bool {
    if a.depth != b.depth {
        a.depth > b.depth
    } else if a.area != b.area {
        a.area < b.area
    } else {
        !a.container && b.container
    }
}

/// The answer that an element at a depth is, where it covers the point.
pub open spec fn candidate(g: Shapes, p: ScreenPoint, id: u64, depth: nat) -> Option<Found> {
    match (g.rect)(id) {
        Some(r) if r.covers(p) => Some(
            Found {
                id,
                depth: depth as u32,
                area: r.area_units() as i128,
                container: plain_container((g.role)(id)),
            },
        ),
        _ => None,
    }
}

/// The better of two answers; the first of equally good ones.
pub open spec fn improved(best: Option<Found>, c: Option<Found>) -> Option<Found> {
    match (best, c) {
        (Some(b), Some(x)) => if better(x, b) {
            c
        } else {
            best
        },
        (None, _) => c,
        (_, None) => best,
    }
}

/// The elements at `depth`, as a list of work.
pub open spec fn at_depth(ids: Seq<u64>, depth: nat) -> Seq<(u64, nat)> {
    ids.map_values(|id: u64| (id, depth))
}

/// The elements that are looked at, in order, each with its depth: depth first, no
/// element twice, as long as the budget lasts. Coming across an element a second
/// time costs budget too.
pub open spec fn visits(
    kids: spec_fn(u64) -> Seq<u64>,
    work: Seq<(u64, nat)>,
    budget: nat,
    seen: Set<u64>,
) -> Seq<(u64, nat)>
    decreases budget,
{
    if work.len() == 0 || budget == 0 {
        Seq::empty()
    } else {
        let (id, depth) = work[0];
        if seen.contains(id) {
            visits(kids, work.skip(1), (budget - 1) as nat, seen)
        } else {
            seq![(id, depth)] + visits(
                kids,
                at_depth(kids(id), depth + 1) + work.skip(1),
                (budget - 1) as nat,
                seen.insert(id),
            )
        }
    }
}

/// The best answer among those so far and the elements looked at.
pub open spec fn best_among(
    g: Shapes,
    p: ScreenPoint,
    best: Option<Found>,
    looked: Seq<(u64, nat)>,
) -> Option<Found>
    decreases looked.len(),
{
    if looked.len() == 0 {
        best
    } else {
        best_among(
            g,
            p,
            improved(best, candidate(g, p, looked[0].0, looked[0].1)),
            looked.skip(1),
        )
    }
}

/// The element under a point, given the roots of the application: itself, its
/// windows, its main and its focused window.
pub open spec fn resolved(g: Shapes, p: ScreenPoint, roots: Seq<u64>) -> Option<Found> {
    best_among(
        g,
        p,
        None,
        visits(g.kids, at_depth(roots, 0), RESOLVE_BUDGET as nat, Set::empty()),
    )
}

// ---------------------------------------------------------------------------
// The search, one element at a time
// ---------------------------------------------------------------------------

/// The search for the element under a point.
#[derive(Debug)]
pub struct Resolve {
    point: ScreenPoint,
    /// What is left to look at; the next one at the end.
    stack: Vec<(u64, u32)>,
    budget: usize,
    seen: HashSet<u64>,
    best: Option<Found>,
}

spec fn work_of(stack: Seq<(u64, u32)>) -> Seq<(u64, nat)> {
    Seq::new(
        stack.len(),
        |i: int| (stack[stack.len() - 1 - i].0, stack[stack.len() - 1 - i].1 as nat),
    )
}

impl Resolve {
    /// No element is deeper than elements were looked at, and what is next was not
    /// looked at before.
    pub closed spec fn wf(self) -> bool {
        &&& self.budget <= RESOLVE_BUDGET
        &&& self.shallow()
        &&& self.stack@.len() > 0 && self.budget > 0 ==> !self.seen@.contains(self.stack@.last().0)
    }

    spec fn shallow(self) -> bool {
        forall|i: int|
            0 <= i < self.stack@.len() ==> (#[trigger] self.stack@[i]).1 + self.budget
                <= RESOLVE_BUDGET
    }

    /// The element that is wanted.
    pub closed spec fn pending(self) -> Option<u64> {
        if self.stack@.len() > 0 && self.budget > 0 {
            Some(self.stack@.last().0)
        } else {
            None
        }
    }

    /// How many more elements may be looked at.
    pub closed spec fn budget(self) -> nat {
        self.budget as nat
    }

    /// What the search comes to, given what the application answers.
    pub closed spec fn outcome(self, g: Shapes) -> Option<Found> {
        best_among(
            g,
            self.point,
            self.best,
            visits(g.kids, work_of(self.stack@), self.budget as nat, self.seen@),
        )
    }

    /// Start at the roots of an application.
    pub fn start(point: ScreenPoint, roots: &Vec<u64>) -> (r: Self)
        ensures
            r.wf(),
            r.budget() <= RESOLVE_BUDGET,
            forall|g: Shapes| #[trigger] r.outcome(g) == resolved(g, point, roots@),
    {
        broadcast use vstd::std_specs::hash::group_hash_axioms;

        let mut stack: Vec<(u64, u32)> = Vec::new();
        let mut i: usize = roots.len();
        while i > 0
            invariant
                i <= roots@.len(),
                stack@.len() == roots@.len() - i,
                forall|k: int|
                    0 <= k < stack@.len() ==> #[trigger] stack@[k] == (
                        roots@[roots@.len() - 1 - k],
                        0u32,
                    ),
            decreases i,
        {
            i -= 1;
            stack.push((roots[i], 0));
        }
        assert(work_of(stack@) =~= at_depth(roots@, 0));
        let mut r = Resolve {
            point,
            stack,
            budget: RESOLVE_BUDGET,
            seen: HashSet::new(),
            best: None,
        };
        r.pass_over();
        r
    }

    /// Pass over what was looked at before.
    fn pass_over(&mut self)
        requires
            old(self).budget <= RESOLVE_BUDGET,
            old(self).shallow(),
        ensures
            final(self).wf(),
            final(self).budget <= old(self).budget,
            final(self).point == old(self).point,
            forall|g: Shapes| #[trigger] final(self).outcome(g) == old(self).outcome(g),
    {
        broadcast use vstd::std_specs::hash::group_hash_axioms;

        while self.stack.len() > 0 && self.budget > 0 && self.seen.contains(
            &self.stack[self.stack.len() - 1].0,
        )
            invariant
                self.budget <= old(self).budget <= RESOLVE_BUDGET,
                self.shallow(),
                self.point == old(self).point,
                self.best == old(self).best,
                self.seen == old(self).seen,
                forall|g: Shapes| #[trigger] self.outcome(g) == old(self).outcome(g),
            decreases self.budget,
        {
            let ghost before = *self;
            self.stack.pop();
            self.budget = self.budget - 1;
            proof {
                let work = work_of(before.stack@);
                assert(work.skip(1) =~= work_of(self.stack@));
                assert(work[0].0 == before.stack@.last().0);
                assert(self.shallow()) by {
                    assert forall|i: int| 0 <= i < self.stack@.len() implies (
                    #[trigger] self.stack@[i]).1 + self.budget <= RESOLVE_BUDGET by {
                        assert(self.stack@[i] == before.stack@[i]);
                    }
                }
                assert forall|g: Shapes| #[trigger] self.outcome(g) == old(self).outcome(g) by {
                    assert(before.outcome(g) == old(self).outcome(g));
                    assert(visits(g.kids, work, before.budget as nat, before.seen@) == visits(
                        g.kids,
                        work.skip(1),
                        self.budget as nat,
                        before.seen@,
                    ));
                }
            }
        }
    }

    /// The element that is wanted.
    pub fn wanted(&self) -> (r: Option<u64>)
        requires
            self.wf(),
        ensures
            r == self.pending(),
    {
        if self.stack.len() > 0 && self.budget > 0 {
            Some(self.stack[self.stack.len() - 1].0)
        } else {
            None
        }
    }

    /// Take the answers for the wanted element.
    pub fn supply(&mut self, role: &str, rect: Option<ScreenRect>, kids: &Vec<u64>)
        requires
            old(self).wf(),
            old(self).pending() is Some,
        ensures
            final(self).wf(),
            final(self).budget() < old(self).budget(),
            forall|g: Shapes|
                ({
                    let id = old(self).pending()->0;
                    (g.role)(id) == role@ && (g.rect)(id) == rect && (g.kids)(id) == kids@
                }) ==> #[trigger] final(self).outcome(g) == old(self).outcome(g),
    {
        broadcast use vstd::std_specs::hash::group_hash_axioms;

        let ghost start = *self;
        let (id, depth) = match self.stack.pop() {
            Some(top) => top,
            None => (0, 0),
        };
        assert(start.stack@.last() == (id, depth));
        self.budget = self.budget - 1;
        self.seen.insert(id);
        if let Some(r) = rect {
            if r.contains(self.point) {
                let c = Found {
                    id,
                    depth,
                    area: r.area(),
                    container: is_plain_container(role),
                };
                let take = match &self.best {
                    None => true,
                    Some(b) => {
                        if c.depth != b.depth {
                            c.depth > b.depth
                        } else if c.area != b.area {
                            c.area < b.area
                        } else {
                            !c.container && b.container
                        }
                    },
                };
                if take {
                    self.best = Some(c);
                }
            }
        }
        let ghost rest = self.stack@;
        let ghost mid = *self;
        let mut i: usize = kids.len();
        while i > 0
            invariant
                i <= kids@.len(),
                self.stack@.len() == rest.len() + kids@.len() - i,
                forall|k: int| 0 <= k < rest.len() ==> #[trigger] self.stack@[k] == rest[k],
                forall|k: int|
                    rest.len() <= k < self.stack@.len() ==> #[trigger] self.stack@[k] == (
                        kids@[kids@.len() - 1 - (k - rest.len())],
                        (depth + 1) as u32,
                    ),
                depth < RESOLVE_BUDGET,
                self.best == mid.best,
                self.budget == mid.budget,
                self.seen == mid.seen,
                self.point == mid.point,
            decreases i,
        {
            i -= 1;
            self.stack.push((kids[i], depth + 1));
        }
        proof {
            let work = work_of(start.stack@);
            let next = at_depth(kids@, (depth + 1) as nat) + work.skip(1);
            assert(work.skip(1) =~= work_of(rest));
            assert(work_of(self.stack@) =~= next);
            assert(work[0] == (id, depth as nat));
            assert(self.shallow()) by {
                assert forall|k: int| 0 <= k < self.stack@.len() implies (
                #[trigger] self.stack@[k]).1 + self.budget <= RESOLVE_BUDGET by {
                    if k < rest.len() {
                        assert(self.stack@[k] == rest[k]);
                        assert(rest[k] == start.stack@[k]);
                    } else {
                        assert(start.stack@[start.stack@.len() - 1].1 + start.budget
                            <= RESOLVE_BUDGET);
                    }
                }
            }
            assert forall|g: Shapes|
                (g.role)(id) == role@ && (g.rect)(id) == rect && (g.kids)(id) == kids@ implies
                #[trigger] self.outcome(g) == start.outcome(g) by {
                let before = visits(g.kids, work, start.budget as nat, start.seen@);
                let after = visits(g.kids, next, self.budget as nat, self.seen@);
                assert(self.seen@ =~= start.seen@.insert(id));
                assert(before == seq![(id, depth as nat)] + after);
                assert(before.skip(1) =~= after);
                assert(before[0] == (id, depth as nat));
                if let Some(r) = rect {
                    crate::capture::product_fits(r.w, r.h);
                }
                assert(self.best == improved(
                    start.best,
                    candidate(g, start.point, id, depth as nat),
                ));
            }
        }
        self.pass_over();
    }

    /// The element under the point, once none is wanted.
    pub fn finish(self) -> (r: Option<Found>)
        requires
            self.wf(),
            self.pending() is None,
        ensures
            forall|g: Shapes| #[trigger] self.outcome(g) == r,
    {
        self.best
    }
}

// ---------------------------------------------------------------------------
// What holds of every search
// ---------------------------------------------------------------------------

/// The answer is as good as `c` at least.
pub open spec fn as_good_as(best: Option<Found>, c: Found) -> bool {
    best matches Some(b) && !better(c, b)
}

proof fn best_stays_good(g: Shapes, p: ScreenPoint, best: Option<Found>, looked: Seq<(u64, nat)>, c: Found)
    requires
        as_good_as(best, c),
    ensures
        as_good_as(best_among(g, p, best, looked), c),
    decreases looked.len(),
{
    if looked.len() > 0 {
        let next = improved(best, candidate(g, p, looked[0].0, looked[0].1));
        best_stays_good(g, p, next, looked.skip(1), c);
    }
}

proof fn best_beats_all(g: Shapes, p: ScreenPoint, best: Option<Found>, looked: Seq<(u64, nat)>, i: int)
    requires
        0 <= i < looked.len(),
        candidate(g, p, looked[i].0, looked[i].1) is Some,
    ensures
        as_good_as(
            best_among(g, p, best, looked),
            candidate(g, p, looked[i].0, looked[i].1)->0,
        ),
    decreases looked.len(),
{
    let c = candidate(g, p, looked[i].0, looked[i].1)->0;
    let next = improved(best, candidate(g, p, looked[0].0, looked[0].1));
    if i == 0 {
        best_stays_good(g, p, next, looked.skip(1), c);
    } else {
        assert(looked.skip(1)[i - 1] == looked[i]);
        best_beats_all(g, p, next, looked.skip(1), i - 1);
    }
}

/// No element that was looked at is a better answer than the one that is given:
/// deeper, or as deep and smaller, or as small and no plain container.
pub proof fn resolved_is_best(g: Shapes, p: ScreenPoint, roots: Seq<u64>, i: int)
    requires
        0 <= i < visits(g.kids, at_depth(roots, 0), RESOLVE_BUDGET as nat, Set::empty()).len(),
    ensures
        ({
            let (id, depth) = visits(
                g.kids,
                at_depth(roots, 0),
                RESOLVE_BUDGET as nat,
                Set::empty(),
            )[i];
            candidate(g, p, id, depth) matches Some(c) ==> as_good_as(resolved(g, p, roots), c)
        }),
{
    let looked = visits(g.kids, at_depth(roots, 0), RESOLVE_BUDGET as nat, Set::empty());
    if candidate(g, p, looked[i].0, looked[i].1) is Some {
        best_beats_all(g, p, None, looked, i);
    }
}

proof fn best_covers(g: Shapes, p: ScreenPoint, best: Option<Found>, looked: Seq<(u64, nat)>)
    requires
        best matches Some(b) ==> ((g.rect)(b.id) matches Some(r) && r.covers(p)),
    ensures
        best_among(g, p, best, looked) matches Some(b) ==> ((g.rect)(b.id) matches Some(r)
            && r.covers(p)),
    decreases looked.len(),
{
    if looked.len() > 0 {
        best_covers(
            g,
            p,
            improved(best, candidate(g, p, looked[0].0, looked[0].1)),
            looked.skip(1),
        );
    }
}

/// The element that is found covers the point.
pub proof fn resolved_covers_the_point(g: Shapes, p: ScreenPoint, roots: Seq<u64>)
    ensures
        resolved(g, p, roots) matches Some(b) ==> ((g.rect)(b.id) matches Some(r) && r.covers(p)),
{
    best_covers(
        g,
        p,
        None,
        visits(g.kids, at_depth(roots, 0), RESOLVE_BUDGET as nat, Set::empty()),
    );
}

proof fn visits_keep_the_budget(
    kids: spec_fn(u64) -> Seq<u64>,
    work: Seq<(u64, nat)>,
    budget: nat,
    seen: Set<u64>,
)
    ensures
        visits(kids, work, budget, seen).len() <= budget,
    decreases budget,
{
    if work.len() > 0 && budget > 0 {
        let (id, depth) = work[0];
        if seen.contains(id) {
            visits_keep_the_budget(kids, work.skip(1), (budget - 1) as nat, seen);
        } else {
            visits_keep_the_budget(
                kids,
                at_depth(kids(id), depth + 1) + work.skip(1),
                (budget - 1) as nat,
                seen.insert(id),
            );
        }
    }
}

/// A search looks at no more elements than its budget allows, whatever the
/// application answers.
pub proof fn search_keeps_the_budget(g: Shapes, roots: Seq<u64>)
    ensures
        visits(g.kids, at_depth(roots, 0), RESOLVE_BUDGET as nat, Set::empty()).len()
            <= RESOLVE_BUDGET,
{
    visits_keep_the_budget(g.kids, at_depth(roots, 0), RESOLVE_BUDGET as nat, Set::empty());
}

/// An answer is better where it is deeper; as deep, where it is smaller; as small, where
/// it is no plain container and the other is. No two answers are better than each other.
pub proof fn deeper_then_smaller_then_no_container(a: Found, b: Found)
    ensures
        a.depth > b.depth ==> better(a, b),
        a.depth == b.depth && a.area < b.area ==> better(a, b),
        a.depth == b.depth && a.area == b.area && !a.container && b.container ==> better(a, b),
        better(a, b) ==> !better(b, a),
        better(a, b) ==> a.depth >= b.depth,
{
}

/// The answer that an element is tells its own depth and area, and whether it only holds
/// others.
pub proof fn an_answer_is_its_element(g: Shapes, p: ScreenPoint, id: u64, depth: nat)
    requires
        depth <= u32::MAX,
    ensures
        match (g.rect)(id) {
            Some(r) => r.covers(p) ==> (candidate(g, p, id, depth) matches Some(c) && {
                &&& c.id == id
                &&& c.depth == depth
                &&& c.area == r.w * r.h
                &&& c.container <==> (g.role)(id) == "AXGroup"@ || (g.role)(id) == "AXSplitGroup"@
                    || (g.role)(id) == "AXScrollArea"@ || (g.role)(id) == "AXLayoutArea"@
            }),
            None => candidate(g, p, id, depth) is None,
        },
{
    if let Some(r) = (g.rect)(id) {
        crate::capture::product_fits(r.w, r.h);
    }
}

/// A search starts at the first root and goes down before it goes on: what is looked at
/// next is the root's first child, one level deeper.
pub proof fn a_search_goes_down_first(g: Shapes, root: u64, more: Seq<u64>)
    ensures
        ({
            let looked = visits(
                g.kids,
                at_depth(seq![root] + more, 0),
                RESOLVE_BUDGET as nat,
                Set::empty(),
            );
            &&& looked.len() > 0
            &&& looked[0] == (root, 0nat)
            &&& (g.kids)(root).len() > 0 && (g.kids)(root)[0] != root ==> looked.len() > 1
                && looked[1] == ((g.kids)(root)[0], 1nat)
        }),
{
    let work = at_depth(seq![root] + more, 0);
    assert(work[0] == (root, 0nat));
    reveal_with_fuel(visits, 3);
    let kids = (g.kids)(root);
    let next = at_depth(kids, 1) + work.skip(1);
    if kids.len() > 0 && kids[0] != root {
        assert(next[0] == (kids[0], 1nat));
        assert(!Set::<u64>::empty().insert(root).contains(kids[0]));
    }
}

} // verus!
