//! Which elements are an element's children.
//!
//! The standard relations come first, then the role-specific ones that apps hide
//! structure behind, merged and without repetitions. Merging matters: an AXWindow
//! exposes its content through AXChildren AND a modal sheet only through AXSheets; a
//! table can list columns under AXChildren while the rows live only under AXRows.
//!
//! A [`ChildScan`] says which relation it needs next; the caller asks the
//! application for it.

use crate::text::{
    begins, copy_of, join, joined, joined_holds_each, occurs, opt_view, same, texts,
};
use std::collections::HashSet;
use vstd::prelude::*;

verus! {

/// What an application answers for one element: the elements that a relation holds.
pub type Relations = spec_fn(Seq<char>) -> Seq<u64>;

/// The role lists its content in rows.
pub open spec fn lists_rows(role: Seq<char>) -> bool {
    role == "AXTable"@ || role == "AXOutline"@ || role == "AXGrid"@ || role == "AXBrowser"@ || role
        == "AXList"@
}

/// The further relations of a role: groups, each of alternatives that are tried in
/// order until one contributes. Visible rows and cells come before the potentially
/// huge full lists.
pub open spec fn extra(role: Seq<char>, group: nat, alternative: nat) -> Option<Seq<char>> {
    if role == "AXWindow"@ && group == 0 && alternative == 0 {
        Some("AXSheets"@)
    } else if role == "AXTabGroup"@ && group == 0 && alternative == 0 {
        Some("AXTabs"@)
    } else if role == "AXSplitGroup"@ && group == 0 && alternative == 0 {
        Some("AXSplitters"@)
    } else if role == "AXSplitGroup"@ && group == 1 && alternative == 0 {
        Some("AXContents"@)
    } else if lists_rows(role) && group == 0 && alternative == 0 {
        Some("AXVisibleRows"@)
    } else if lists_rows(role) && group == 0 && alternative == 1 {
        Some("AXRows"@)
    } else if role == "AXRow"@ && group == 0 && alternative == 0 {
        Some("AXVisibleCells"@)
    } else if role == "AXRow"@ && group == 0 && alternative == 1 {
        Some("AXCells"@)
    } else {
        None
    }
}

fn extra_relation(role: &str, group: usize, alternative: usize) -> (r: Option<&'static str>)
    ensures
        match r {
            Some(s) => extra(role@, group as nat, alternative as nat) == Some(s@),
            None => extra(role@, group as nat, alternative as nat) is None,
        },
{
    if group == 0 && alternative == 0 {
        if same(role, "AXWindow") {
            return Some("AXSheets");
        }
        if same(role, "AXTabGroup") {
            return Some("AXTabs");
        }
        if same(role, "AXSplitGroup") {
            return Some("AXSplitters");
        }
    }
    if group == 1 && alternative == 0 && same(role, "AXSplitGroup") {
        return Some("AXContents");
    }
    if group == 0 && alternative <= 1 {
        if same(role, "AXTable") || same(role, "AXOutline") || same(role, "AXGrid") || same(
            role,
            "AXBrowser",
        ) || same(role, "AXList") {
            proof {
                roles_differ();
            }
            return if alternative == 0 {
                Some("AXVisibleRows")
            } else {
                Some("AXRows")
            };
        }
        if same(role, "AXRow") {
            proof {
                roles_differ();
            }
            return if alternative == 0 {
                Some("AXVisibleCells")
            } else {
                Some("AXCells")
            };
        }
    }
    proof {
        roles_differ();
    }
    None
}

proof fn roles_differ()
    ensures
        "AXWindow"@ != "AXTabGroup"@,
        "AXWindow"@ != "AXSplitGroup"@,
        "AXWindow"@ != "AXRow"@,
        "AXTabGroup"@ != "AXSplitGroup"@,
        "AXTabGroup"@ != "AXRow"@,
        "AXSplitGroup"@ != "AXRow"@,
        !lists_rows("AXWindow"@),
        !lists_rows("AXTabGroup"@),
        !lists_rows("AXSplitGroup"@),
        !lists_rows("AXRow"@),
{
    reveal_strlit("AXWindow");
    reveal_strlit("AXTabGroup");
    reveal_strlit("AXSplitGroup");
    reveal_strlit("AXRow");
    reveal_strlit("AXTable");
    reveal_strlit("AXOutline");
    reveal_strlit("AXGrid");
    reveal_strlit("AXBrowser");
    reveal_strlit("AXList");
    assert("AXWindow"@[2] == 'W' && "AXTabGroup"@[2] == 'T' && "AXSplitGroup"@[2] == 'S'
        && "AXRow"@[2] == 'R');
    assert("AXTable"@[2] == 'T' && "AXTable"@[5] == 'l' && "AXTabGroup"@[5] == 'G');
    assert("AXOutline"@[2] == 'O' && "AXGrid"@[2] == 'G' && "AXBrowser"@[2] == 'B'
        && "AXList"@[2] == 'L');
}

/// `kids` and those of `more` that are not among them, each once.
pub open spec fn merged(kids: Seq<u64>, more: Seq<u64>) -> Seq<u64>
    decreases more.len(),
{
    if more.len() == 0 {
        kids
    } else {
        let head = merged(kids, more.drop_last());
        if head.contains(more.last()) {
            head
        } else {
            head.push(more.last())
        }
    }
}

/// The children and where they came from, from an alternative of a group on.
pub open spec fn extra_from(
    role: Seq<char>,
    rel: Relations,
    group: nat,
    alternative: nat,
    kids: Seq<u64>,
    sources: Seq<Seq<char>>,
) -> (Seq<u64>, Seq<Seq<char>>)
    decreases 2 - group, 2 - alternative,
{
    if group >= 2 {
        (kids, sources)
    } else {
        match extra(role, group, alternative) {
            Some(name) => {
                let more = merged(kids, rel(name));
                if more.len() > kids.len() {
                    extra_from(role, rel, group + 1, 0, more, sources.push(name))
                } else {
                    extra_from(role, rel, group, alternative + 1, kids, sources)
                }
            },
            None => extra_from(role, rel, group + 1, 0, kids, sources),
        }
    }
}

/// The relations that some apps use instead of children.
pub open spec fn fallback_name(i: nat) -> Seq<char> {
    if i == 0 {
        "AXContents"@
    } else if i == 1 {
        "AXRows"@
    } else {
        "AXSections"@
    }
}

/// The first of the relations that stand in for children and holds some.
pub open spec fn fallback(rel: Relations, i: nat) -> (Seq<u64>, Option<Seq<char>>)
    decreases 3 - i,
{
    if i >= 3 {
        (Seq::empty(), None)
    } else if rel(fallback_name(i)).len() > 0 {
        (rel(fallback_name(i)), Some(fallback_name(i)))
    } else {
        fallback(rel, i + 1)
    }
}

/// The note on where children came from, beyond the obvious relations.
pub open spec fn source_note(sources: Seq<Seq<char>>) -> Option<Seq<char>> {
    if sources.len() == 0 {
        None
    } else {
        Some("AXChildren+"@ + joined(sources, "+"@))
    }
}

/// The children that were found, or those of a relation that stands in for them.
pub open spec fn settled(found: (Seq<u64>, Seq<Seq<char>>), rel: Relations) -> (
    Seq<u64>,
    Option<Seq<char>>,
) {
    if found.0.len() > 0 {
        (found.0, source_note(found.1))
    } else {
        fallback(rel, 0)
    }
}

/// The children by the obvious relations: the visible ones where there are any.
pub open spec fn standard(rel: Relations) -> Seq<u64> {
    if rel("AXVisibleChildren"@).len() > 0 {
        rel("AXVisibleChildren"@)
    } else {
        rel("AXChildren"@)
    }
}

/// An element's children, with a note where they came from anywhere beyond the
/// obvious relations.
pub open spec fn children_of(role: Seq<char>, rel: Relations) -> (Seq<u64>, Option<Seq<char>>) {
    settled(extra_from(role, rel, 0, 0, standard(rel), Seq::empty()), rel)
}

// ---------------------------------------------------------------------------
// The scan, one relation at a time
// ---------------------------------------------------------------------------

#[derive(Debug)]
enum Stage {
    Visible,
    Standard,
    Extra { group: usize, alternative: usize },
    Fallback { i: usize },
    Done { source: Option<String> },
}

/// The children of one element, being looked for.
#[derive(Debug)]
pub struct ChildScan {
    role: String,
    stage: Stage,
    kids: Vec<u64>,
    seen: HashSet<u64>,
    sources: Vec<String>,
}

impl ChildScan {
    /// The numbers seen are those of the children, and a relation that is asked for
    /// exists.
    pub closed spec fn wf(self) -> bool {
        &&& self.seen@ == self.kids@.to_set()
        &&& match self.stage {
            Stage::Extra { group, alternative } => group < 2 && alternative < 2 && extra(
                self.role@,
                group as nat,
                alternative as nat,
            ) is Some,
            Stage::Fallback { i } => i < 3 && self.kids@.len() == 0,
            Stage::Visible => self.kids@.len() == 0 && self.sources@.len() == 0,
            Stage::Standard => self.kids@.len() == 0 && self.sources@.len() == 0,
            Stage::Done { .. } => true,
        }
    }

    /// The relation that is wanted.
    pub closed spec fn pending(self) -> Option<Seq<char>> {
        match self.stage {
            Stage::Visible => Some("AXVisibleChildren"@),
            Stage::Standard => Some("AXChildren"@),
            Stage::Extra { group, alternative } => extra(
                self.role@,
                group as nat,
                alternative as nat,
            ),
            Stage::Fallback { i } => Some(fallback_name(i as nat)),
            Stage::Done { .. } => None,
        }
    }

    /// An upper bound on how many more relations are asked for.
    pub closed spec fn rank(self) -> nat {
        match self.stage {
            Stage::Visible => 9,
            Stage::Standard => 8,
            Stage::Extra { group, alternative } => (8 - 2 * group - alternative - 1) as nat,
            Stage::Fallback { i } => (3 - i) as nat,
            Stage::Done { .. } => 0,
        }
    }

    /// What the scan comes to, given what the application answers.
    pub closed spec fn outcome(self, rel: Relations) -> (Seq<u64>, Option<Seq<char>>) {
        match self.stage {
            Stage::Visible => children_of(self.role@, rel),
            Stage::Standard => settled(
                extra_from(self.role@, rel, 0, 0, rel("AXChildren"@), Seq::empty()),
                rel,
            ),
            Stage::Extra { group, alternative } => settled(
                extra_from(
                    self.role@,
                    rel,
                    group as nat,
                    alternative as nat,
                    self.kids@,
                    texts(self.sources@),
                ),
                rel,
            ),
            Stage::Fallback { i } => fallback(rel, i as nat),
            Stage::Done { source } => (self.kids@, opt_view(source)),
        }
    }

    /// Start looking for the children of an element with the given role.
    pub fn new(role: &str) -> (r: Self)
        ensures
            r.wf(),
            r.pending() == Some("AXVisibleChildren"@),
            forall|rel: Relations| #[trigger] r.outcome(rel) == children_of(role@, rel),
    {
        broadcast use vstd::std_specs::hash::group_hash_axioms;

        let r = ChildScan {
            role: copy_of(role),
            stage: Stage::Visible,
            kids: Vec::new(),
            seen: HashSet::new(),
            sources: Vec::new(),
        };
        assert(r.seen@ =~= r.kids@.to_set());
        r
    }

    /// The relation that is wanted.
    pub fn wanted(&self) -> (r: Option<&'static str>)
        requires
            self.wf(),
        ensures
            match r {
                Some(s) => self.pending() == Some(s@),
                None => self.pending() is None,
            },
    {
        match &self.stage {
            Stage::Visible => Some("AXVisibleChildren"),
            Stage::Standard => Some("AXChildren"),
            Stage::Extra { group, alternative } => extra_relation(
                self.role.as_str(),
                *group,
                *alternative,
            ),
            Stage::Fallback { i } => {
                if *i == 0 {
                    Some("AXContents")
                } else if *i == 1 {
                    Some("AXRows")
                } else {
                    Some("AXSections")
                }
            },
            Stage::Done { .. } => None,
        }
    }

    /// Add what is new; says whether anything was.
    fn add(&mut self, more: &Vec<u64>) -> (r: bool)
        requires
            old(self).seen@ == old(self).kids@.to_set(),
        ensures
            final(self).seen@ == final(self).kids@.to_set(),
            final(self).kids@ == merged(old(self).kids@, more@),
            r == (final(self).kids@.len() > old(self).kids@.len()),
            final(self).role == old(self).role,
            final(self).stage == old(self).stage,
            final(self).sources == old(self).sources,
    {
        broadcast use vstd::std_specs::hash::group_hash_axioms;

        let ghost before = self.kids@;
        let mut added = false;
        assert(more@.take(0) =~= Seq::empty());
        for i in 0..more.len()
            invariant
                self.seen@ == self.kids@.to_set(),
                self.kids@ == merged(before, more@.take(i as int)),
                self.kids@.len() >= before.len(),
                added == (self.kids@.len() > before.len()),
                self.role == old(self).role,
                self.stage == old(self).stage,
                self.sources == old(self).sources,
        {
            broadcast use vstd::std_specs::hash::group_hash_axioms;

            assert(more@.take(i + 1).drop_last() =~= more@.take(i as int));
            let k = more[i];
            let ghost kids0 = self.kids@;
            if self.seen.insert(k) {
                assert(!kids0.contains(k)) by {
                    if kids0.contains(k) {
                        assert(kids0.to_set().contains(k));
                    }
                }
                self.kids.push(k);
                added = true;
                assert(self.kids@.to_set() =~= kids0.to_set().insert(k)) by {
                    assert(self.kids@.drop_last() =~= kids0);
                    assert forall|x: u64| self.kids@.to_set().contains(x) == kids0.to_set().insert(
                        k,
                    ).contains(x) by {
                        if kids0.contains(x) {
                            let j = choose|j: int| 0 <= j < kids0.len() && kids0[j] == x;
                            assert(self.kids@[j] == x);
                        }
                        assert(self.kids@[kids0.len() as int] == k);
                    }
                }
            } else {
                assert(kids0.to_set().contains(k));
                assert(self.seen@ =~= kids0.to_set());
            }
        }
        assert(more@.take(more@.len() as int) =~= more@);
        added
    }

    /// Go to the next relation of the role from `group` and `alternative` on, or
    /// settle.
    fn look_further(&mut self, group: usize, alternative: usize)
        requires
            old(self).seen@ == old(self).kids@.to_set(),
            group <= 2,
            alternative <= 2,
        ensures
            final(self).wf(),
            final(self).rank() <= 7 - 2 * group - alternative || final(self).rank() <= 3,
            forall|rel: Relations|
                #[trigger] final(self).outcome(rel) == settled(
                    extra_from(
                        old(self).role@,
                        rel,
                        group as nat,
                        alternative as nat,
                        old(self).kids@,
                        texts(old(self).sources@),
                    ),
                    rel,
                ),
    {
        let mut g: usize = group;
        let mut a: usize = alternative;
        while g < 2
            invariant
                g <= 2,
                a <= 2,
                *self == *old(self),
                self.seen@ == self.kids@.to_set(),
                alternative <= 2,
                g >= group,
                g == group ==> a == alternative,
                g > group ==> a == 0,
                forall|rel: Relations|
                    #[trigger] extra_from(
                        self.role@,
                        rel,
                        group as nat,
                        alternative as nat,
                        self.kids@,
                        texts(self.sources@),
                    ) == extra_from(
                        self.role@,
                        rel,
                        g as nat,
                        a as nat,
                        self.kids@,
                        texts(self.sources@),
                    ),
            decreases 2 - g,
        {
            if a < 2 && extra_relation(self.role.as_str(), g, a).is_some() {
                self.stage = Stage::Extra { group: g, alternative: a };
                return;
            }
            g = g + 1;
            a = 0;
        }
        if self.kids.len() > 0 {
            let source = if self.sources.len() == 0 {
                None
            } else {
                let mut note = copy_of("AXChildren+");
                note.push_str(join(&self.sources, "+").as_str());
                Some(note)
            };
            assert(texts(self.sources@).len() == self.sources@.len());
            self.stage = Stage::Done { source };
        } else {
            self.stage = Stage::Fallback { i: 0 };
        }
    }

    /// Take the elements that the wanted relation holds.
    pub fn supply(&mut self, ids: Vec<u64>)
        requires
            old(self).wf(),
            old(self).pending() is Some,
        ensures
            final(self).wf(),
            final(self).rank() < old(self).rank(),
            forall|rel: Relations|
                rel(old(self).pending()->0) == ids@ ==> #[trigger] final(self).outcome(rel)
                    == old(self).outcome(rel),
    {
        let ghost start = *self;
        match &self.stage {
            Stage::Visible => {
                if ids.len() == 0 {
                    self.stage = Stage::Standard;
                } else {
                    self.start_with(ids);
                }
            },
            Stage::Standard => {
                self.start_with(ids);
            },
            Stage::Extra { group, alternative } => {
                let g = *group;
                let a = *alternative;
                let name = match extra_relation(self.role.as_str(), g, a) {
                    Some(n) => n,
                    None => "",
                };
                let added = self.add(&ids);
                if added {
                    let ghost before = self.sources@;
                    self.sources.push(copy_of(name));
                    assert(texts(self.sources@) =~= texts(before).push(name@));
                    self.look_further(g + 1, 0);
                } else {
                    proof {
                        merged_keeps(start.kids@, ids@);
                        assert(self.kids@ =~= start.kids@);
                    }
                    self.look_further(g, a + 1);
                }
            },
            Stage::Fallback { i } => {
                let i = *i;
                if ids.len() > 0 {
                    let name = if i == 0 {
                        "AXContents"
                    } else if i == 1 {
                        "AXRows"
                    } else {
                        "AXSections"
                    };
                    self.kids = ids;
                    self.seen = HashSet::new();
                    self.refill();
                    self.stage = Stage::Done { source: Some(copy_of(name)) };
                } else if i < 2 {
                    self.stage = Stage::Fallback { i: i + 1 };
                } else {
                    proof {
                        assert(start.kids@ =~= Seq::empty());
                        assert forall|rel: Relations| rel("AXSections"@).len() == 0 implies (
                        #[trigger] fallback(rel, 2)) == (Seq::<u64>::empty(), None::<Seq<char>>) by {
                            reveal_with_fuel(fallback, 2);
                        }
                    }
                    self.stage = Stage::Done { source: None };
                }
            },
            Stage::Done { .. } => {},
        }
    }

    /// Start from the children by the obvious relations.
    fn start_with(&mut self, ids: Vec<u64>)
        requires
            old(self).kids@.len() == 0,
            old(self).sources@.len() == 0,
        ensures
            final(self).wf(),
            final(self).rank() <= 7,
            forall|rel: Relations|
                #[trigger] final(self).outcome(rel) == settled(
                    extra_from(old(self).role@, rel, 0, 0, ids@, Seq::empty()),
                    rel,
                ),
    {
        assert(texts(self.sources@) =~= Seq::empty());
        self.kids = ids;
        self.seen = HashSet::new();
        self.refill();
        self.look_further(0, 0);
    }

    /// Make the numbers seen those of the children.
    fn refill(&mut self)
        requires
            old(self).seen@ == Set::<u64>::empty(),
        ensures
            final(self).seen@ == final(self).kids@.to_set(),
            final(self).kids == old(self).kids,
            final(self).role == old(self).role,
            final(self).stage == old(self).stage,
            final(self).sources == old(self).sources,
    {
        broadcast use vstd::std_specs::hash::group_hash_axioms;

        assert(self.kids@.take(0).to_set() =~= Set::<u64>::empty());
        let n = self.kids.len();
        for i in 0..n
            invariant
                n == self.kids@.len(),
                self.kids == old(self).kids,
                self.role == old(self).role,
                self.stage == old(self).stage,
                self.sources == old(self).sources,
                self.seen@ == self.kids@.take(i as int).to_set(),
        {
            broadcast use vstd::std_specs::hash::group_hash_axioms;

            let k = self.kids[i];
            let ghost head = self.kids@.take(i as int);
            let ghost next = self.kids@.take(i + 1);
            self.seen.insert(k);
            assert(next.to_set() =~= head.to_set().insert(k)) by {
                assert forall|x: u64| next.to_set().contains(x) == head.to_set().insert(
                    k,
                ).contains(x) by {
                    if head.contains(x) {
                        let j = choose|j: int| 0 <= j < head.len() && head[j] == x;
                        assert(next[j] == x);
                    }
                    assert(next[i as int] == k);
                    if next.contains(x) && x != k {
                        let j = choose|j: int| 0 <= j < next.len() && next[j] == x;
                        assert(head[j] == x);
                    }
                }
            }
        }
        assert(self.kids@.take(self.kids@.len() as int) =~= self.kids@);
    }

    /// The children with the note on where they came from, once no relation is
    /// wanted.
    pub fn finish(self) -> (r: (Vec<u64>, Option<String>))
        requires
            self.wf(),
            self.pending() is None,
        ensures
            forall|rel: Relations| #[trigger]
                self.outcome(rel) == (r.0@, opt_view(r.1)),
    {
        match self.stage {
            Stage::Done { source } => (self.kids, source),
            _ => (self.kids, None),
        }
    }
}

proof fn merged_keeps(kids: Seq<u64>, more: Seq<u64>)
    ensures
        merged(kids, more).len() >= kids.len(),
        merged(kids, more).take(kids.len() as int) == kids,
    decreases more.len(),
{
    if more.len() == 0 {
        assert(kids.take(kids.len() as int) =~= kids);
    } else {
        merged_keeps(kids, more.drop_last());
        let head = merged(kids, more.drop_last());
        assert(head.push(more.last()).take(kids.len() as int) =~= head.take(kids.len() as int));
    }
}

proof fn merged_repeats_nothing(kids: Seq<u64>, more: Seq<u64>)
    requires
        kids.no_duplicates(),
    ensures
        merged(kids, more).no_duplicates(),
    decreases more.len(),
{
    if more.len() > 0 {
        merged_repeats_nothing(kids, more.drop_last());
    }
}

proof fn extra_keeps(
    role: Seq<char>,
    rel: Relations,
    group: nat,
    alternative: nat,
    kids: Seq<u64>,
    sources: Seq<Seq<char>>,
)
    ensures
        ({
            let found = extra_from(role, rel, group, alternative, kids, sources).0;
            &&& found.len() >= kids.len()
            &&& found.take(kids.len() as int) == kids
            &&& kids.no_duplicates() ==> found.no_duplicates()
        }),
    decreases 2 - group, 2 - alternative,
{
    let found = extra_from(role, rel, group, alternative, kids, sources).0;
    if group >= 2 {
        assert(kids.take(kids.len() as int) =~= kids);
    } else {
        match extra(role, group, alternative) {
            Some(name) => {
                let more = merged(kids, rel(name));
                merged_keeps(kids, rel(name));
                if kids.no_duplicates() {
                    merged_repeats_nothing(kids, rel(name));
                }
                if more.len() > kids.len() {
                    extra_keeps(role, rel, group + 1, 0, more, sources.push(name));
                    assert(found.take(more.len() as int).take(kids.len() as int) =~= found.take(
                        kids.len() as int,
                    ));
                } else {
                    extra_keeps(role, rel, group, alternative + 1, kids, sources);
                }
            },
            None => {
                extra_keeps(role, rel, group + 1, 0, kids, sources);
            },
        }
    }
}

/// The children by the obvious relations come first, in their order: what the other
/// relations add stands after them.
pub proof fn standard_children_come_first(role: Seq<char>, rel: Relations)
    requires
        standard(rel).len() > 0,
    ensures
        children_of(role, rel).0.len() >= standard(rel).len(),
        children_of(role, rel).0.take(standard(rel).len() as int) == standard(rel),
{
    extra_keeps(role, rel, 0, 0, standard(rel), Seq::empty());
}

/// Merging relations repeats no child, where the obvious relations do not: those
/// that a role adds, to some or to none, add each element once. Where none of them
/// holds a child, the relation that stands in for them is taken as it is.
pub proof fn merging_repeats_no_child(role: Seq<char>, rel: Relations)
    requires
        standard(rel).no_duplicates(),
        extra_from(role, rel, 0, 0, standard(rel), Seq::empty()).0.len() == 0 ==> fallback(
            rel,
            0,
        ).0.no_duplicates(),
    ensures
        children_of(role, rel).0.no_duplicates(),
{
    extra_keeps(role, rel, 0, 0, standard(rel), Seq::empty());
}

/// A window's sheets are among its children, though only AXSheets names them.
pub proof fn sheets_are_children(rel: Relations, id: u64)
    requires
        rel("AXSheets"@).contains(id),
    ensures
        children_of("AXWindow"@, rel).0.contains(id),
{
    roles_differ();
    let kids = standard(rel);
    let more = merged(kids, rel("AXSheets"@));
    merged_holds(kids, rel("AXSheets"@), id);
    merged_keeps(kids, rel("AXSheets"@));
    reveal_with_fuel(extra_from, 4);
    if more.len() == kids.len() {
        assert(more =~= kids);
    }
}

proof fn merged_holds(kids: Seq<u64>, more: Seq<u64>, id: u64)
    requires
        more.contains(id),
    ensures
        merged(kids, more).contains(id),
    decreases more.len(),
{
    let head = merged(kids, more.drop_last());
    if more.last() == id {
        if !head.contains(id) {
            assert(merged(kids, more).last() == id);
        }
    } else {
        let j = choose|j: int| 0 <= j < more.len() && more[j] == id;
        assert(more.drop_last()[j] == id);
        merged_holds(kids, more.drop_last(), id);
        let k = choose|k: int| 0 <= k < head.len() && head[k] == id;
        assert(merged(kids, more)[k] == id);
    }
}

// ---------------------------------------------------------------------------
// Which relations count
// ---------------------------------------------------------------------------

/// A role keeps elements in a relation of its own.
pub open spec fn keeps(role: Seq<char>, name: Seq<char>) -> bool {
    ||| role == "AXWindow"@ && name == "AXSheets"@
    ||| role == "AXTabGroup"@ && name == "AXTabs"@
    ||| role == "AXSplitGroup"@ && (name == "AXSplitters"@ || name == "AXContents"@)
    ||| (role == "AXTable"@ || role == "AXOutline"@ || role == "AXGrid"@ || role == "AXBrowser"@
        || role == "AXList"@) && name == "AXVisibleRows"@
    ||| role == "AXRow"@ && name == "AXVisibleCells"@
}

/// A role keeps all elements in `name`, and those in sight in `sight`.
pub open spec fn keeps_all(role: Seq<char>, sight: Seq<char>, name: Seq<char>) -> bool {
    ||| (role == "AXTable"@ || role == "AXOutline"@ || role == "AXGrid"@ || role == "AXBrowser"@
        || role == "AXList"@) && sight == "AXVisibleRows"@ && name == "AXRows"@
    ||| role == "AXRow"@ && sight == "AXVisibleCells"@ && name == "AXCells"@
}

proof fn held_by_longer(found: Seq<u64>, kids: Seq<u64>, id: u64)
    requires
        kids.contains(id),
        found.len() >= kids.len(),
        found.take(kids.len() as int) == kids,
    ensures
        found.contains(id),
{
    let k = choose|k: int| 0 <= k < kids.len() && kids[k] == id;
    assert(found[k] == found.take(kids.len() as int)[k]);
}

proof fn merged_adds_nothing(kids: Seq<u64>, more: Seq<u64>)
    requires
        forall|i: int| 0 <= i < more.len() ==> kids.contains(#[trigger] more[i]),
    ensures
        merged(kids, more) == kids,
    decreases more.len(),
{
    if more.len() > 0 {
        merged_adds_nothing(kids, more.drop_last());
        assert(kids.contains(more[more.len() - 1]));
    }
}

proof fn merged_holds_only(kids: Seq<u64>, more: Seq<u64>, id: u64)
    requires
        merged(kids, more).contains(id),
    ensures
        kids.contains(id) || more.contains(id),
    decreases more.len(),
{
    if more.len() > 0 {
        let head = merged(kids, more.drop_last());
        let all = merged(kids, more);
        let k = choose|k: int| 0 <= k < all.len() && all[k] == id;
        assert(more[more.len() - 1] == more.last());
        if k < head.len() {
            assert(head[k] == id);
            merged_holds_only(kids, more.drop_last(), id);
            if more.drop_last().contains(id) {
                let j = choose|j: int|
                    0 <= j < more.drop_last().len() && more.drop_last()[j] == id;
                assert(more[j] == id);
            }
        }
    }
}

/// Whatever the obvious relations hold is among the children: the children in sight,
/// and all of them where none is said to be in sight.
pub proof fn obvious_children_count(role: Seq<char>, rel: Relations, id: u64)
    ensures
        rel("AXVisibleChildren"@).contains(id) ==> children_of(role, rel).0.contains(id),
        rel("AXVisibleChildren"@).len() == 0 && rel("AXChildren"@).contains(id) ==> children_of(
            role,
            rel,
        ).0.contains(id),
{
    if standard(rel).len() > 0 {
        standard_children_come_first(role, rel);
        if standard(rel).contains(id) {
            held_by_longer(children_of(role, rel).0, standard(rel), id);
        }
    }
}

/// What a role keeps in a relation of its own is among the children, though no other
/// relation names it.
pub proof fn what_a_role_keeps_is_among_the_children(
    role: Seq<char>,
    rel: Relations,
    name: Seq<char>,
    id: u64,
)
    requires
        keeps(role, name),
        rel(name).contains(id),
    ensures
        children_of(role, rel).0.contains(id),
{
    roles_differ();
    let kids = standard(rel);
    let first = extra(role, 0, 0)->0;
    let more = merged(kids, rel(first));
    merged_keeps(kids, rel(first));
    if more.len() == kids.len() {
        assert(more =~= more.take(kids.len() as int));
    }
    let found = extra_from(role, rel, 0, 0, kids, Seq::empty()).0;
    if name == first {
        merged_holds(kids, rel(name), id);
        if more.len() > kids.len() {
            extra_keeps(role, rel, 1, 0, more, Seq::empty().push(first));
        } else {
            extra_keeps(role, rel, 0, 0, kids, Seq::empty());
        }
        held_by_longer(found, more, id);
    } else {
        assert(role == "AXSplitGroup"@ && name == "AXContents"@ && extra(role, 1, 0) == Some(name));
        reveal_with_fuel(extra_from, 4);
        let last = merged(more, rel(name));
        merged_keeps(more, rel(name));
        merged_holds(more, rel(name), id);
        if last.len() == more.len() {
            assert(last =~= last.take(more.len() as int));
        }
        assert(extra(role, 0, 1) is None && extra(role, 1, 1) is None);
        let sources = if more.len() > kids.len() {
            Seq::empty().push(first)
        } else {
            Seq::empty()
        };
        assert(found == extra_from(role, rel, 1, 0, more, sources).0);
        assert(extra_from(role, rel, 1, 0, more, sources).0 == last);
    }
}

/// The rows or cells of a role are all among the children where those in sight add
/// nothing; where they do, the others stay out.
pub proof fn those_in_sight_come_before_the_rest(
    role: Seq<char>,
    rel: Relations,
    sight: Seq<char>,
    name: Seq<char>,
    id: u64,
)
    requires
        keeps_all(role, sight, name),
    ensures
        (forall|i: int|
            0 <= i < rel(sight).len() ==> standard(rel).contains(#[trigger] rel(sight)[i]))
            && rel(name).contains(id) ==> children_of(role, rel).0.contains(id),
        (exists|i: int|
            0 <= i < rel(sight).len() && !standard(rel).contains(#[trigger] rel(sight)[i]))
            && children_of(role, rel).0.contains(id) ==> standard(rel).contains(id) || rel(
            sight,
        ).contains(id),
{
    roles_differ();
    let kids = standard(rel);
    let more = merged(kids, rel(sight));
    merged_keeps(kids, rel(sight));
    let all = merged(kids, rel(name));
    merged_keeps(kids, rel(name));
    if all.len() == kids.len() {
        assert(all =~= all.take(kids.len() as int));
    }
    if more.len() == kids.len() {
        assert(more =~= more.take(kids.len() as int));
    }
    reveal_with_fuel(extra_from, 4);
    if forall|i: int| 0 <= i < rel(sight).len() ==> kids.contains(#[trigger] rel(sight)[i]) {
        merged_adds_nothing(kids, rel(sight));
        if rel(name).contains(id) {
            merged_holds(kids, rel(name), id);
            assert(extra(role, 0, 1) == Some(name) && extra(role, 0, 2) is None && extra(
                role,
                1,
                0,
            ) is None);
            assert(extra_from(role, rel, 0, 0, kids, Seq::empty()) == extra_from(
                role,
                rel,
                0,
                1,
                kids,
                Seq::empty(),
            ));
            assert(extra_from(role, rel, 0, 1, kids, Seq::empty()).0 == all);
            assert(all.len() > 0);
            assert(children_of(role, rel).0 == all);
        }
    } else {
        let i = choose|i: int|
            0 <= i < rel(sight).len() && !kids.contains(#[trigger] rel(sight)[i]);
        merged_holds(kids, rel(sight), rel(sight)[i]);
        assert(children_of(role, rel).0 == more);
        if more.contains(id) {
            merged_holds_only(kids, rel(sight), id);
        }
    }
}

/// Where the obvious relations and those of the role hold nothing, the first of
/// AXContents, AXRows and AXSections that holds some elements stands in for them, as it
/// is, and is named.
pub proof fn another_relation_stands_in_for_none(role: Seq<char>, rel: Relations)
    requires
        rel("AXVisibleChildren"@).len() == 0,
        rel("AXChildren"@).len() == 0,
        forall|name: Seq<char>| keeps(role, name) ==> #[trigger] rel(name).len() == 0,
        forall|sight: Seq<char>, name: Seq<char>|
            #![trigger keeps_all(role, sight, name)]
            keeps_all(role, sight, name) ==> rel(name).len() == 0,
    ensures
        ({
            let r = children_of(role, rel);
            &&& rel("AXContents"@).len() > 0 ==> r == (rel("AXContents"@), Some("AXContents"@))
            &&& rel("AXContents"@).len() == 0 && rel("AXRows"@).len() > 0 ==> r == (
                rel("AXRows"@),
                Some("AXRows"@),
            )
            &&& rel("AXContents"@).len() == 0 && rel("AXRows"@).len() == 0 ==> r.0 == rel(
                "AXSections"@,
            )
            &&& rel("AXContents"@).len() == 0 && rel("AXRows"@).len() == 0 && rel(
                "AXSections"@,
            ).len() > 0 ==> r.1 == Some("AXSections"@)
        }),
{
    roles_differ();
    reveal_with_fuel(extra_from, 6);
    reveal_with_fuel(fallback, 5);
    assert forall|g: nat| g < 2 && extra(role, g, 0) is Some implies #[trigger] rel(
        extra(role, g, 0)->0,
    ).len() == 0 by {
        assert(keeps(role, extra(role, g, 0)->0));
    }
    if let Some(name) = extra(role, 0, 1) {
        assert(keeps_all(role, extra(role, 0, 0)->0, name));
    }
    assert(extra(role, 1, 1) is None && extra(role, 0, 2) is None);
    assert(rel(extra(role, 0, 0)->0).len() == 0 || extra(role, 0, 0) is None);
    assert(rel(extra(role, 1, 0)->0).len() == 0 || extra(role, 1, 0) is None);
    let kids = standard(rel);
    assert(kids.len() == 0);
    assert(extra_from(role, rel, 0, 0, kids, Seq::empty()).0.len() == 0);
    if rel("AXSections"@).len() == 0 {
        assert(rel("AXSections"@) =~= Seq::empty());
    }
}

/// Nothing is a child that no relation holds: every child is in one of the obvious
/// relations, in one that its role keeps, or in one that stands in for them.
pub proof fn every_child_comes_from_a_relation(role: Seq<char>, rel: Relations, id: u64)
    requires
        children_of(role, rel).0.contains(id),
    ensures
        rel("AXVisibleChildren"@).contains(id) || rel("AXChildren"@).contains(id) || (exists|
            name: Seq<char>,
        |
            keeps(role, name) && #[trigger] rel(name).contains(id)) || (exists|
            sight: Seq<char>,
            name: Seq<char>,
        |
            #![trigger keeps_all(role, sight, name)]
            keeps_all(role, sight, name) && rel(name).contains(id)) || rel("AXContents"@).contains(
            id,
        ) || rel("AXRows"@).contains(id) || rel("AXSections"@).contains(id),
{
    roles_differ();
    reveal_with_fuel(extra_from, 6);
    reveal_with_fuel(fallback, 5);
    let kids = standard(rel);
    let found = extra_from(role, rel, 0, 0, kids, Seq::empty()).0;
    if found.len() > 0 {
        only_from_extra(role, rel, 0, 0, kids, Seq::empty(), id);
    }
}

proof fn only_from_extra(
    role: Seq<char>,
    rel: Relations,
    group: nat,
    alternative: nat,
    kids: Seq<u64>,
    sources: Seq<Seq<char>>,
    id: u64,
)
    requires
        extra_from(role, rel, group, alternative, kids, sources).0.contains(id),
    ensures
        kids.contains(id) || (exists|name: Seq<char>|
            keeps(role, name) && #[trigger] rel(name).contains(id)) || (exists|
            sight: Seq<char>,
            name: Seq<char>,
        |
            #![trigger keeps_all(role, sight, name)]
            keeps_all(role, sight, name) && rel(name).contains(id)),
    decreases 2 - group, 2 - alternative,
{
    roles_differ();
    if group < 2 {
        match extra(role, group, alternative) {
            Some(name) => {
                let more = merged(kids, rel(name));
                if more.len() > kids.len() {
                    only_from_extra(role, rel, group + 1, 0, more, sources.push(name), id);
                    if more.contains(id) {
                        merged_holds_only(kids, rel(name), id);
                    }
                } else {
                    only_from_extra(role, rel, group, alternative + 1, kids, sources, id);
                }
                if rel(name).contains(id) {
                    if alternative == 0 {
                        assert(keeps(role, name));
                    } else {
                        assert(keeps_all(role, extra(role, group, 0)->0, name));
                    }
                }
            },
            None => {
                only_from_extra(role, rel, group + 1, 0, kids, sources, id);
            },
        }
    }
}

/// The note on where children came from names AXChildren first and every relation that
/// added some.
pub proof fn the_note_names_every_source(sources: Seq<Seq<char>>, i: int)
    requires
        0 <= i < sources.len(),
    ensures
        source_note(sources) matches Some(note) && begins(note, "AXChildren+"@) && occurs(
            note,
            sources[i],
        ),
{
    broadcast use crate::text::group_parts;

    joined_holds_each(sources, "+"@, i);
    let names = joined(sources, "+"@);
    assert(occurs("AXChildren+"@ + names, sources[i]));
}

} // verus!
