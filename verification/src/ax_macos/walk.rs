//! Walking an accessibility tree.
//!
//! A [`Walk`] says which element it needs next; the caller asks the application for
//! it and hands over the answer. Elements are known by a number that is equal for
//! two references to the same element. Each element is emitted once, however many
//! relations name it, and however the relations loop.

use crate::ax_macos::attrs::{bare_node, fetched_role, Fetched};
use crate::ax_macos::{node_views, node_views_pointwise, size, size_all, Node, NodeView};
use crate::text::{copy_of, opt_view, same};
use std::collections::HashSet;
use vstd::prelude::*;

verus! {

/// Hard ceiling on nodes per walk: a runaway-tree backstop far above any real
/// window. When hit, the node where the budget ran out is flagged `truncated`
/// instead of silently flattening.
pub const WALK_NODE_BUDGET: usize = 100_000;

/// How many children of one node are walked.
pub open spec fn cap_of(role: Seq<char>) -> nat {
    if role == "AXOutline"@ || role == "AXTable"@ || role == "AXGrid"@ || role == "AXBrowser"@ {
        10_000
    } else if role == "AXRow"@ || role == "AXColumn"@ {
        5_000
    } else if role == "AXList"@ {
        2_000
    } else if role == "AXMenu"@ || role == "AXMenuBar"@ || role == "AXMenuBarItem"@ {
        500
    } else if role == "AXButton"@ || role == "AXMenuButton"@ || role == "AXStaticText"@ || role
        == "AXTextField"@ || role == "AXCheckBox"@ || role == "AXRadioButton"@ || role
        == "AXImage"@ {
        50
    } else {
        1_000
    }
}

/// Per-role cap on how many children of one node are walked. Data containers get
/// generous caps (a year calendar really has 365+ cells); leaf-ish roles get tight
/// ones (an AXButton with 500 "children" is a broken tree, not UI).
pub fn child_cap(role: &str) -> (r: usize)
    ensures
        r == cap_of(role@),
{
    if same(role, "AXOutline") || same(role, "AXTable") || same(role, "AXGrid") || same(
        role,
        "AXBrowser",
    ) {
        10_000
    } else if same(role, "AXRow") || same(role, "AXColumn") {
        5_000
    } else if same(role, "AXList") {
        2_000
    } else if same(role, "AXMenu") || same(role, "AXMenuBar") || same(role, "AXMenuBarItem") {
        500
    } else if same(role, "AXButton") || same(role, "AXMenuButton") || same(role, "AXStaticText")
        || same(role, "AXTextField") || same(role, "AXCheckBox") || same(role, "AXRadioButton")
        || same(role, "AXImage") {
        50
    } else {
        1_000
    }
}

/// What an application answers, for each element: its attributes, and its children
/// with the relation they came from.
pub struct Answers {
    pub attrs: spec_fn(u64) -> Fetched,
    pub kids: spec_fn(u64) -> (Seq<u64>, Option<Seq<char>>),
}

/// The mark of a web surface that exposes nothing: what is in it can only be had
/// through its debug port.
pub const OPAQUE_WEB: &'static str = "empty:web-content-opaque-to-AX (needs CDP)";

/// The children that are walked: as many as the role allows.
pub open spec fn walked_kids(kids: Seq<u64>, role: Seq<char>) -> Seq<u64> {
    if kids.len() > cap_of(role) {
        kids.take(cap_of(role) as int)
    } else {
        kids
    }
}

/// A node with further children. `dropped` says that some were left out.
pub open spec fn grown(node: NodeView, more: Seq<NodeView>, dropped: bool) -> NodeView {
    let children = node.children + more;
    NodeView {
        children,
        truncated: node.truncated || dropped,
        child_source: if children.len() == 0 && node.role == "AXWebArea"@ {
            Some(OPAQUE_WEB@)
        } else {
            node.child_source
        },
        ..node
    }
}

/// A node that is about to get its children.
pub open spec fn opened(f: Fetched, kids: Seq<u64>, source: Option<Seq<char>>) -> NodeView {
    NodeView {
        truncated: kids.len() > cap_of(fetched_role(f)),
        child_source: source,
        ..bare_node(f)
    }
}

/// The tree from an element at `depth` down to `max`, given which elements were
/// emitted before and how many more may be: the tree, and the same after it.
pub open spec fn walk(
    g: Answers,
    id: u64,
    depth: nat,
    max: nat,
    seen: Set<u64>,
    left: nat,
) -> (NodeView, Set<u64>, nat)
    decreases max - depth, 1nat, 0nat,
{
    let f = (g.attrs)(id);
    if depth < max {
        let (kids, source) = (g.kids)(id);
        let (children, seen2, left2, dropped) = walk_kids(
            g,
            walked_kids(kids, fetched_role(f)),
            0,
            depth,
            max,
            seen,
            left,
        );
        (grown(opened(f, kids, source), children, dropped), seen2, left2)
    } else {
        (bare_node(f), seen, left)
    }
}

/// The trees of the children from the `i`th on, and whether the budget ran out.
pub open spec fn walk_kids(
    g: Answers,
    kids: Seq<u64>,
    i: int,
    depth: nat,
    max: nat,
    seen: Set<u64>,
    left: nat,
) -> (Seq<NodeView>, Set<u64>, nat, bool)
    decreases max - depth, 0nat, kids.len() - i,
{
    if i < 0 || i >= kids.len() || depth >= max {
        (Seq::empty(), seen, left, false)
    } else if left == 0 {
        (Seq::empty(), seen, left, true)
    } else if seen.contains(kids[i]) {
        walk_kids(g, kids, i + 1, depth, max, seen, left)
    } else {
        let (node, seen2, left2) = walk(
            g,
            kids[i],
            depth + 1,
            max,
            seen.insert(kids[i]),
            (left - 1) as nat,
        );
        let (rest, seen3, left3, dropped) = walk_kids(g, kids, i + 1, depth, max, seen2, left2);
        (seq![node] + rest, seen3, left3, dropped)
    }
}

/// A walk from a root.
pub open spec fn walked(g: Answers, root: u64, max: nat) -> NodeView {
    walk(g, root, 0, max, set![root], (WALK_NODE_BUDGET - 1) as nat).0
}

/// The elements that a walk from a root emits.
pub open spec fn emitted(g: Answers, root: u64, max: nat) -> Set<u64> {
    walk(g, root, 0, max, set![root], (WALK_NODE_BUDGET - 1) as nat).1
}

// ---------------------------------------------------------------------------
// The walk, one element at a time
// ---------------------------------------------------------------------------

/// An element whose children are being walked.
#[derive(Debug)]
struct Frame {
    node: Node,
    kids: Vec<u64>,
    next: usize,
}

/// What a frame holds.
struct FrameView {
    node: NodeView,
    kids: Seq<u64>,
    next: int,
}

spec fn frame_view(f: Frame) -> FrameView {
    FrameView { node: f.node@, kids: f.kids@, next: f.next as int }
}

spec fn frame_views(s: Seq<Frame>) -> Seq<FrameView> {
    s.map_values(|f: Frame| frame_view(f))
}

/// What comes of the frames once the child of the innermost is complete.
spec fn resumed(
    g: Answers,
    frames: Seq<FrameView>,
    node: NodeView,
    max: nat,
    seen: Set<u64>,
    left: nat,
) -> NodeView
    decreases frames.len(),
{
    if frames.len() == 0 {
        node
    } else {
        let f = frames.last();
        let with_child = NodeView { children: f.node.children.push(node), ..f.node };
        let (rest, seen2, left2, dropped) = walk_kids(
            g,
            f.kids,
            f.next,
            (frames.len() - 1) as nat,
            max,
            seen,
            left,
        );
        resumed(g, frames.drop_last(), grown(with_child, rest, dropped), max, seen2, left2)
    }
}

/// What comes of the frames when the innermost goes on with its next child.
spec fn continued(g: Answers, frames: Seq<FrameView>, max: nat, seen: Set<u64>, left: nat) -> NodeView {
    let f = frames.last();
    let (rest, seen2, left2, dropped) = walk_kids(
        g,
        f.kids,
        f.next,
        (frames.len() - 1) as nat,
        max,
        seen,
        left,
    );
    resumed(g, frames.drop_last(), grown(f.node, rest, dropped), max, seen2, left2)
}

/// A walk in progress.
#[derive(Debug)]
pub struct Walk {
    frames: Vec<Frame>,
    seen: HashSet<u64>,
    left: usize,
    max: u32,
    pending: Option<u64>,
    done: Option<Node>,
}

impl Walk {
    /// Either an element is wanted, or the walk is complete. Elements wanted are never
    /// deeper than the walk goes.
    pub closed spec fn wf(self) -> bool {
        &&& (self.pending is Some) != (self.done is Some)
        &&& self.pending is Some ==> self.frames@.len() <= self.max
        &&& self.seen@.finite()
        &&& forall|i: int|
            0 <= i < self.frames@.len() ==> (#[trigger] self.frames@[i]).next
                <= self.frames@[i].kids@.len()
    }

    /// The element that is wanted.
    pub closed spec fn pending(self) -> Option<u64> {
        self.pending
    }

    /// How deep below the root the wanted element is.
    pub closed spec fn depth(self) -> nat {
        self.frames@.len()
    }

    /// How deep the walk goes.
    pub closed spec fn max(self) -> nat {
        self.max as nat
    }

    /// How many more elements may be emitted.
    pub closed spec fn left(self) -> nat {
        self.left as nat
    }

    /// What the walk comes to, given what the application answers.
    pub closed spec fn outcome(self, g: Answers) -> NodeView {
        match self.pending {
            Some(id) => {
                let (node, seen, left) = walk(
                    g,
                    id,
                    self.frames@.len(),
                    self.max as nat,
                    self.seen@,
                    self.left as nat,
                );
                resumed(g, frame_views(self.frames@), node, self.max as nat, seen, left)
            },
            None => self.done->0@,
        }
    }

    /// The wanted element's answers are those of `g`.
    pub open spec fn answered(
        self,
        g: Answers,
        attrs: Fetched,
        kids: Seq<u64>,
        source: Option<Seq<char>>,
    ) -> bool {
        self.pending() matches Some(id) && (g.attrs)(id) == attrs && (self.depth() < self.max()
            ==> (g.kids)(id) == (kids, source))
    }

    /// Start a walk at `root`, to `max_depth` below it.
    pub fn start(root: u64, max_depth: u32) -> (r: Self)
        ensures
            r.wf(),
            r.pending() == Some(root),
            r.depth() == 0,
            r.max() == max_depth,
            r.left() == WALK_NODE_BUDGET - 1,
            forall|g: Answers| #[trigger] r.outcome(g) == walked(g, root, max_depth as nat),
    {
        broadcast use vstd::std_specs::hash::group_hash_axioms;

        let mut seen: HashSet<u64> = HashSet::new();
        seen.insert(root);
        let r = Walk {
            frames: Vec::new(),
            seen,
            left: WALK_NODE_BUDGET - 1,
            max: max_depth,
            pending: Some(root),
            done: None,
        };
        proof {
            assert(r.seen@ =~= set![root]);
            assert(frame_views(r.frames@) =~= Seq::empty());
        }
        r
    }

    /// The element that is wanted, and whether its children are wanted too.
    pub fn wanted(&self) -> (r: Option<(u64, bool)>)
        requires
            self.wf(),
        ensures
            match r {
                Some((id, kids)) => self.pending() == Some(id) && kids == (self.depth()
                    < self.max()),
                None => self.pending() is None,
            },
    {
        match self.pending {
            Some(id) => Some((id, self.frames.len() < self.max as usize)),
            None => None,
        }
    }

    /// Take the answers for the wanted element. `kids` and `source` count only where
    /// its children are wanted.
    pub fn supply(&mut self, attrs: Fetched, kids: Vec<u64>, source: Option<String>)
        requires
            old(self).wf(),
            old(self).pending() is Some,
        ensures
            final(self).wf(),
            final(self).max() == old(self).max(),
            final(self).pending() is Some ==> final(self).left() + 1 == old(self).left(),
            forall|g: Answers|
                old(self).answered(g, attrs, kids@, opt_view(source))
                    ==> #[trigger] final(self).outcome(g) == old(self).outcome(g),
    {
        let ghost start = *self;
        let role = attrs.role();
        let mut node = attrs.node();
        self.pending = None;
        if self.frames.len() < self.max as usize {
            let cap = child_cap(role.as_str());
            node.truncated = kids.len() > cap;
            node.child_source = source;
            let mut kids = kids;
            let ghost all = kids@;
            if kids.len() > cap {
                kids.truncate(cap);
            }
            proof {
                assert(kids@ =~= walked_kids(all, role@));
                node_views_pointwise(node.children@);
                assert(node@ =~= opened(attrs, all, opt_view(source)));
            }
            let ghost frames0 = self.frames@;
            self.frames.push(Frame { node, kids, next: 0 });
            proof {
                let views = frame_views(self.frames@);
                assert(views.drop_last() =~= frame_views(frames0));
                assert forall|g: Answers|
                    start.answered(g, attrs, all, opt_view(source)) implies #[trigger] continued(
                    g,
                    views,
                    self.max as nat,
                    self.seen@,
                    self.left as nat,
                ) == start.outcome(g) by {
                    assert(views.last() == frame_view(self.frames@.last()));
                }
            }
            self.go_on();
        } else {
            self.complete(node);
        }
    }

    /// The node of the innermost child is complete.
    fn complete(&mut self, node: Node)
        requires
            old(self).pending is None,
            old(self).done is None,
            old(self).frames@.len() <= old(self).max,
            old(self).seen@.finite(),
            forall|i: int|
                0 <= i < old(self).frames@.len() ==> (#[trigger] old(self).frames@[i]).next
                    <= old(self).frames@[i].kids@.len(),
        ensures
            final(self).wf(),
            final(self).max == old(self).max,
            final(self).pending is Some ==> final(self).left + 1 == old(self).left,
            forall|g: Answers|
                #[trigger] final(self).outcome(g) == resumed(
                    g,
                    frame_views(old(self).frames@),
                    node@,
                    old(self).max as nat,
                    old(self).seen@,
                    old(self).left as nat,
                ),
        decreases old(self).frames@.len(), 1nat,
    {
        let ghost start = *self;
        match self.frames.pop() {
            None => {
                assert(frame_views(start.frames@) =~= Seq::empty());
                self.done = Some(node);
            },
            Some(frame) => {
                let mut frame = frame;
                let ghost before = frame;
                frame.node.children.push(node);
                proof {
                    assert(frame.node.children@.drop_last() =~= before.node.children@);
                    assert(frame.node@ =~= (NodeView {
                        children: before.node@.children.push(node@),
                        ..before.node@
                    }));
                }
                self.frames.push(frame);
                proof {
                    let views = frame_views(self.frames@);
                    let views0 = frame_views(start.frames@);
                    assert(start.frames@.last() == before);
                    assert(views0.last() == frame_view(before));
                    assert(views.last() == frame_view(frame));
                    assert(views.drop_last() =~= views0.drop_last());
                    assert forall|i: int| 0 <= i < self.frames@.len() implies (
                    #[trigger] self.frames@[i]).next <= self.frames@[i].kids@.len() by {
                        if i < self.frames@.len() - 1 {
                            assert(self.frames@[i] == start.frames@[i]);
                        } else {
                            assert(start.frames@[i].next <= start.frames@[i].kids@.len());
                        }
                    }
                }
                self.go_on();
            },
        }
    }

    /// The innermost frame goes on with its next child.
    fn go_on(&mut self)
        requires
            old(self).pending is None,
            old(self).done is None,
            0 < old(self).frames@.len() <= old(self).max,
            old(self).seen@.finite(),
            forall|i: int|
                0 <= i < old(self).frames@.len() ==> (#[trigger] old(self).frames@[i]).next
                    <= old(self).frames@[i].kids@.len(),
        ensures
            final(self).wf(),
            final(self).max == old(self).max,
            final(self).pending is Some ==> final(self).left + 1 == old(self).left,
            forall|g: Answers|
                #[trigger] final(self).outcome(g) == continued(
                    g,
                    frame_views(old(self).frames@),
                    old(self).max as nat,
                    old(self).seen@,
                    old(self).left as nat,
                ),
        decreases old(self).frames@.len(), 0nat,
    {
        broadcast use vstd::std_specs::hash::group_hash_axioms;

        let ghost start = *self;
        let ghost views0 = frame_views(start.frames@);
        let ghost depth = (start.frames@.len() - 1) as nat;
        let mut frame = match self.frames.pop() {
            Some(f) => f,
            None => {
                return;
            },
        };
        let ghost first = frame;
        let mut dropped = false;
        let mut chosen: Option<u64> = None;
        assert(views0.last() == frame_view(first));
        while frame.next < frame.kids.len()
            invariant_except_break
                chosen is None,
                !dropped,
                frame.next <= frame.kids@.len(),
                frame.node == first.node,
                frame.kids == first.kids,
                forall|g: Answers|
                    #[trigger] walk_kids(
                        g,
                        first.kids@,
                        first.next as int,
                        depth,
                        self.max as nat,
                        self.seen@,
                        self.left as nat,
                    ) == walk_kids(
                        g,
                        first.kids@,
                        frame.next as int,
                        depth,
                        self.max as nat,
                        self.seen@,
                        self.left as nat,
                    ),
            invariant
                depth < self.max,
                self.max == start.max,
                self.seen@ == start.seen@,
                self.left == start.left,
                self.frames@ == start.frames@.drop_last(),
                self.pending is None,
                self.done is None,
            ensures
                frame.next <= frame.kids@.len(),
                frame.node == first.node,
                frame.kids == first.kids,
                match chosen {
                    Some(k) => {
                        &&& !dropped
                        &&& self.left > 0
                        &&& !self.seen@.contains(k)
                        &&& 0 < frame.next
                        &&& k == first.kids@[frame.next - 1]
                        &&& forall|g: Answers|
                            #[trigger] walk_kids(
                                g,
                                first.kids@,
                                first.next as int,
                                depth,
                                self.max as nat,
                                self.seen@,
                                self.left as nat,
                            ) == walk_kids(
                                g,
                                first.kids@,
                                frame.next - 1,
                                depth,
                                self.max as nat,
                                self.seen@,
                                self.left as nat,
                            )
                    },
                    None => forall|g: Answers|
                        #[trigger] walk_kids(
                            g,
                            first.kids@,
                            first.next as int,
                            depth,
                            self.max as nat,
                            self.seen@,
                            self.left as nat,
                        ) == (Seq::<NodeView>::empty(), self.seen@, self.left as nat, dropped),
                },
            decreases frame.kids.len() - frame.next,
        {
            if self.left == 0 {
                dropped = true;
                break;
            }
            let k = frame.kids[frame.next];
            frame.next = frame.next + 1;
            if !self.seen.contains(&k) {
                chosen = Some(k);
                break;
            }
        }
        match chosen {
            Some(k) => {
                self.seen.insert(k);
                self.left = self.left - 1;
                self.frames.push(frame);
                self.pending = Some(k);
                proof {
                    let views = frame_views(self.frames@);
                    assert(views.drop_last() =~= views0.drop_last());
                    assert(views.last() == frame_view(frame));
                    assert(self.frames@.len() == depth + 1);
                    assert(self.seen@ =~= start.seen@.insert(k));
                    assert forall|i: int| 0 <= i < self.frames@.len() implies (
                    #[trigger] self.frames@[i]).next <= self.frames@[i].kids@.len() by {
                        if i < self.frames@.len() - 1 {
                            assert(self.frames@[i] == start.frames@[i]);
                        }
                    }
                    assert forall|g: Answers| #[trigger] self.outcome(g) == continued(
                        g,
                        views0,
                        start.max as nat,
                        start.seen@,
                        start.left as nat,
                    ) by {
                        let max = start.max as nat;
                        let (node, seen2, left2) = walk(
                            g,
                            k,
                            depth + 1,
                            max,
                            start.seen@.insert(k),
                            (start.left - 1) as nat,
                        );
                        let (rest, seen3, left3, more) = walk_kids(
                            g,
                            first.kids@,
                            frame.next as int,
                            depth,
                            max,
                            seen2,
                            left2,
                        );
                        assert(walk_kids(
                            g,
                            first.kids@,
                            first.next as int,
                            depth,
                            max,
                            start.seen@,
                            start.left as nat,
                        ) == (seq![node] + rest, seen3, left3, more));
                        let with_child = NodeView {
                            children: first.node@.children.push(node),
                            ..first.node@
                        };
                        assert(with_child.children + rest =~= first.node@.children + (seq![node]
                            + rest));
                        assert(grown(with_child, rest, more) == grown(
                            first.node@,
                            seq![node] + rest,
                            more,
                        ));
                    }
                }
            },
            None => {
                let mut node = frame.node;
                let ghost bare = node@;
                if dropped {
                    node.truncated = true;
                }
                if node.children.len() == 0 && same(node.role.as_str(), "AXWebArea") {
                    node.child_source = Some(copy_of(OPAQUE_WEB));
                }
                proof {
                    node_views_pointwise(node.children@);
                    assert(bare.children + Seq::<NodeView>::empty() =~= bare.children);
                    assert(node@ =~= grown(bare, Seq::empty(), dropped));
                    assert(frame_views(self.frames@) =~= views0.drop_last());
                    assert forall|i: int| 0 <= i < self.frames@.len() implies (
                    #[trigger] self.frames@[i]).next <= self.frames@[i].kids@.len() by {
                        assert(self.frames@[i] == start.frames@[i]);
                    }
                }
                self.complete(node);
            },
        }
    }

    /// The tree, once no element is wanted.
    pub fn finish(self) -> (r: Option<Node>)
        requires
            self.wf(),
        ensures
            r is Some == self.pending() is None,
            forall|g: Answers| r matches Some(n) ==> n@ == #[trigger] self.outcome(g),
    {
        self.done
    }
}

// ---------------------------------------------------------------------------
// What holds of every walk
// ---------------------------------------------------------------------------

proof fn size_all_front(node: NodeView, rest: Seq<NodeView>)
    ensures
        size_all(seq![node] + rest) == size(node) + size_all(rest),
    decreases rest.len(),
{
    let all = seq![node] + rest;
    if rest.len() == 0 {
        assert(all.drop_last() =~= Seq::<NodeView>::empty());
        assert(size_all(all.drop_last()) == 0);
        assert(all.last() == node);
    } else {
        assert(all.last() == rest.last());
        size_all_front(node, rest.drop_last());
        assert(all.drop_last() =~= seq![node] + rest.drop_last());
    }
}

proof fn walk_counts(g: Answers, id: u64, depth: nat, max: nat, seen: Set<u64>, left: nat)
    requires
        seen.finite(),
    ensures
        ({
            let (node, seen2, left2) = walk(g, id, depth, max, seen, left);
            &&& left2 <= left
            &&& size(node) == 1 + left - left2
            &&& seen2.finite()
            &&& seen.subset_of(seen2)
            &&& seen2.len() == seen.len() + left - left2
        }),
    decreases max - depth, 1nat, 0nat,
{
    let f = (g.attrs)(id);
    if depth < max {
        let (kids, source) = (g.kids)(id);
        let taken = walked_kids(kids, fetched_role(f));
        walk_kids_counts(g, taken, 0, depth, max, seen, left);
        let children = walk_kids(g, taken, 0, depth, max, seen, left).0;
        assert(opened(f, kids, source).children + children =~= children);
    } else {
        assert(bare_node(f).children =~= Seq::<NodeView>::empty());
    }
}

proof fn walk_kids_counts(
    g: Answers,
    kids: Seq<u64>,
    i: int,
    depth: nat,
    max: nat,
    seen: Set<u64>,
    left: nat,
)
    requires
        seen.finite(),
    ensures
        ({
            let (children, seen2, left2, dropped) = walk_kids(g, kids, i, depth, max, seen, left);
            &&& left2 <= left
            &&& size_all(children) == left - left2
            &&& seen2.finite()
            &&& seen.subset_of(seen2)
            &&& seen2.len() == seen.len() + left - left2
        }),
    decreases max - depth, 0nat, kids.len() - i,
{
    if i < 0 || i >= kids.len() || depth >= max || left == 0 {
    } else if seen.contains(kids[i]) {
        walk_kids_counts(g, kids, i + 1, depth, max, seen, left);
    } else {
        let seen1 = seen.insert(kids[i]);
        walk_counts(g, kids[i], depth + 1, max, seen1, (left - 1) as nat);
        let (node, seen2, left2) = walk(g, kids[i], depth + 1, max, seen1, (left - 1) as nat);
        walk_kids_counts(g, kids, i + 1, depth, max, seen2, left2);
        let (rest, seen3, left3, dropped) = walk_kids(g, kids, i + 1, depth, max, seen2, left2);
        size_all_front(node, rest);
    }
}

/// A walk emits no more nodes than the budget allows, its root counted, whatever
/// the application answers.
pub proof fn walk_keeps_the_budget(g: Answers, root: u64, max: nat)
    ensures
        size(walked(g, root, max)) <= WALK_NODE_BUDGET,
{
    walk_counts(g, root, 0, max, set![root], (WALK_NODE_BUDGET - 1) as nat);
}

/// A walk emits each element that it comes to exactly once, whatever loops and
/// repetitions the relations hold: it emits as many nodes as it has seen elements.
pub proof fn walk_emits_each_element_once(g: Answers, root: u64, max: nat)
    ensures
        size(walked(g, root, max)) == emitted(g, root, max).len(),
{
    walk_counts(g, root, 0, max, set![root], (WALK_NODE_BUDGET - 1) as nat);
    assert(set![root].len() == 1);
}

/// How many levels a tree has.
pub open spec fn levels(n: NodeView) -> nat
    decreases n,
{
    1 + levels_all(n.children)
}

/// How many levels the deepest of the trees has.
pub open spec fn levels_all(s: Seq<NodeView>) -> nat
    decreases s,
{
    if s.len() == 0 {
        0
    } else {
        let head = levels_all(s.drop_last());
        let last = levels(s.last());
        if head > last {
            head
        } else {
            last
        }
    }
}

proof fn levels_all_front(node: NodeView, rest: Seq<NodeView>)
    ensures
        levels_all(seq![node] + rest) <= levels(node) || levels_all(seq![node] + rest)
            <= levels_all(rest),
    decreases rest.len(),
{
    let all = seq![node] + rest;
    if rest.len() == 0 {
        assert(all.drop_last() =~= Seq::<NodeView>::empty());
        assert(levels_all(all.drop_last()) == 0);
        assert(all.last() == node);
    } else {
        assert(all.last() == rest.last());
        levels_all_front(node, rest.drop_last());
        assert(all.drop_last() =~= seq![node] + rest.drop_last());
    }
}

proof fn walk_levels(g: Answers, id: u64, depth: nat, max: nat, seen: Set<u64>, left: nat)
    requires
        depth <= max,
    ensures
        levels(walk(g, id, depth, max, seen, left).0) <= max - depth + 1,
    decreases max - depth, 1nat, 0nat,
{
    let f = (g.attrs)(id);
    if depth < max {
        let (kids, source) = (g.kids)(id);
        let taken = walked_kids(kids, fetched_role(f));
        walk_kids_levels(g, taken, 0, depth, max, seen, left);
        let children = walk_kids(g, taken, 0, depth, max, seen, left).0;
        assert(opened(f, kids, source).children + children =~= children);
    } else {
        assert(bare_node(f).children =~= Seq::<NodeView>::empty());
    }
}

proof fn walk_kids_levels(
    g: Answers,
    kids: Seq<u64>,
    i: int,
    depth: nat,
    max: nat,
    seen: Set<u64>,
    left: nat,
)
    requires
        depth < max,
    ensures
        levels_all(walk_kids(g, kids, i, depth, max, seen, left).0) <= max - depth,
    decreases max - depth, 0nat, kids.len() - i,
{
    if i < 0 || i >= kids.len() || left == 0 {
    } else if seen.contains(kids[i]) {
        walk_kids_levels(g, kids, i + 1, depth, max, seen, left);
    } else {
        let seen1 = seen.insert(kids[i]);
        walk_levels(g, kids[i], depth + 1, max, seen1, (left - 1) as nat);
        let (node, seen2, left2) = walk(g, kids[i], depth + 1, max, seen1, (left - 1) as nat);
        walk_kids_levels(g, kids, i + 1, depth, max, seen2, left2);
        let (rest, seen3, left3, dropped) = walk_kids(g, kids, i + 1, depth, max, seen2, left2);
        levels_all_front(node, rest);
    }
}

/// A walk goes no deeper below its root than it was asked to.
pub proof fn walk_keeps_the_depth(g: Answers, root: u64, max: nat)
    ensures
        levels(walked(g, root, max)) <= max + 1,
{
    walk_levels(g, root, 0, max, set![root], (WALK_NODE_BUDGET - 1) as nat);
}

/// A tree says of each of its nodes whether children were left out: `n` stands for
/// `id`, holds no more children than its role allows, each a child of `id` and
/// itself such a tree, and is marked unless every child of `id` was emitted.
pub open spec fn accounts_for(
    g: Answers,
    n: NodeView,
    id: u64,
    depth: nat,
    max: nat,
    out: Set<u64>,
) -> bool
    decreases n,
{
    let kids = (g.kids)(id).0;
    &&& n.role == fetched_role((g.attrs)(id))
    &&& n.children.len() <= cap_of(n.role)
    &&& depth < max && kids.len() > cap_of(n.role) ==> n.truncated
    &&& depth < max && !n.truncated ==> forall|i: int|
        0 <= i < kids.len() ==> out.contains(#[trigger] kids[i])
    &&& accounts_for_all(g, n.children, kids, depth + 1, max, out)
}

/// Each of the trees stands for one of `kids` and accounts for it.
pub open spec fn accounts_for_all(
    g: Answers,
    s: Seq<NodeView>,
    kids: Seq<u64>,
    depth: nat,
    max: nat,
    out: Set<u64>,
) -> bool
    decreases s,
{
    s.len() == 0 || {
        &&& accounts_for_all(g, s.drop_last(), kids, depth, max, out)
        &&& exists|i: int|
            0 <= i < kids.len() && accounts_for(g, s.last(), #[trigger] kids[i], depth, max, out)
    }
}

proof fn accounts_for_front(
    g: Answers,
    node: NodeView,
    rest: Seq<NodeView>,
    kids: Seq<u64>,
    i: int,
    depth: nat,
    max: nat,
    out: Set<u64>,
)
    requires
        0 <= i < kids.len(),
        accounts_for(g, node, kids[i], depth, max, out),
        accounts_for_all(g, rest, kids, depth, max, out),
    ensures
        accounts_for_all(g, seq![node] + rest, kids, depth, max, out),
    decreases rest.len(),
{
    let all = seq![node] + rest;
    if rest.len() == 0 {
        assert(all.drop_last() =~= Seq::<NodeView>::empty());
        assert(accounts_for_all(g, all.drop_last(), kids, depth, max, out));
        assert(all.last() == node);
    } else {
        assert(all.last() == rest.last());
        accounts_for_front(g, node, rest.drop_last(), kids, i, depth, max, out);
        assert(all.drop_last() =~= seq![node] + rest.drop_last());
    }
}

proof fn walk_accounts(
    g: Answers,
    id: u64,
    depth: nat,
    max: nat,
    seen: Set<u64>,
    left: nat,
    out: Set<u64>,
)
    requires
        depth <= max,
        seen.finite(),
        walk(g, id, depth, max, seen, left).1.subset_of(out),
    ensures
        accounts_for(g, walk(g, id, depth, max, seen, left).0, id, depth, max, out),
    decreases max - depth, 1nat, 0nat,
{
    let f = (g.attrs)(id);
    if depth < max {
        let (kids, source) = (g.kids)(id);
        let taken = walked_kids(kids, fetched_role(f));
        let (children, seen2, left2, dropped) = walk_kids(g, taken, 0, depth, max, seen, left);
        assert forall|j: int| 0 <= j < taken.len() implies taken[j] == #[trigger] kids[j] by {}
        walk_kids_accounts(g, taken, kids, 0, depth, max, seen, left, out);
        assert(opened(f, kids, source).children + children =~= children);
    } else {
        assert(bare_node(f).children =~= Seq::<NodeView>::empty());
    }
}

proof fn walk_kids_accounts(
    g: Answers,
    taken: Seq<u64>,
    kids: Seq<u64>,
    i: int,
    depth: nat,
    max: nat,
    seen: Set<u64>,
    left: nat,
    out: Set<u64>,
)
    requires
        depth < max,
        0 <= i <= taken.len() <= kids.len(),
        forall|j: int| 0 <= j < taken.len() ==> taken[j] == #[trigger] kids[j],
        seen.finite(),
        walk_kids(g, taken, i, depth, max, seen, left).1.subset_of(out),
    ensures
        ({
            let (children, seen2, left2, dropped) = walk_kids(g, taken, i, depth, max, seen, left);
            &&& children.len() <= taken.len() - i
            &&& accounts_for_all(g, children, kids, depth + 1, max, out)
            &&& !dropped ==> forall|j: int|
                i <= j < taken.len() ==> out.contains(#[trigger] taken[j])
        }),
    decreases max - depth, 0nat, taken.len() - i,
{
    if i == taken.len() || left == 0 {
    } else if seen.contains(taken[i]) {
        walk_kids_accounts(g, taken, kids, i + 1, depth, max, seen, left, out);
        walk_kids_counts(g, taken, i + 1, depth, max, seen, left);
    } else {
        let seen1 = seen.insert(taken[i]);
        let (node, seen2, left2) = walk(g, taken[i], depth + 1, max, seen1, (left - 1) as nat);
        let (rest, seen3, left3, dropped) = walk_kids(g, taken, i + 1, depth, max, seen2, left2);
        walk_counts(g, taken[i], depth + 1, max, seen1, (left - 1) as nat);
        walk_kids_counts(g, taken, i + 1, depth, max, seen2, left2);
        walk_accounts(g, taken[i], depth + 1, max, seen1, (left - 1) as nat, out);
        walk_kids_accounts(g, taken, kids, i + 1, depth, max, seen2, left2, out);
        assert(kids[i] == taken[i]);
        accounts_for_front(g, node, rest, kids, i, depth + 1, max, out);
    }
}

/// No node of a walk holds more children than its role allows, and each node whose
/// children were left out, by that cap or by the spent budget, is marked: of a
/// node above the depth limit that is not marked, every child was emitted.
pub proof fn left_out_children_are_marked(g: Answers, root: u64, max: nat)
    ensures
        accounts_for(g, walked(g, root, max), root, 0, max, emitted(g, root, max)),
{
    walk_accounts(
        g,
        root,
        0,
        max,
        set![root],
        (WALK_NODE_BUDGET - 1) as nat,
        emitted(g, root, max),
    );
}

/// A web surface that exposes nothing is marked as such.
pub proof fn opaque_web_content_is_marked(g: Answers, root: u64, max: nat)
    requires
        max > 0,
        fetched_role((g.attrs)(root)) == "AXWebArea"@,
        (g.kids)(root).0.len() == 0,
    ensures
        walked(g, root, max).child_source == Some(OPAQUE_WEB@),
{
    let f = (g.attrs)(root);
    let (kids, source) = (g.kids)(root);
    let taken = walked_kids(kids, fetched_role(f));
    let children = walk_kids(g, taken, 0, 0, max, set![root], (WALK_NODE_BUDGET - 1) as nat).0;
    assert(children =~= Seq::<NodeView>::empty());
    assert(opened(f, kids, source).children + children =~= Seq::<NodeView>::empty());
}

// ---------------------------------------------------------------------------
// Whole trees
// ---------------------------------------------------------------------------

/// Nothing was left out of a tree that was walked to `depth`: no node is marked, and
/// none stands where the walk had to stop.
pub open spec fn whole(n: NodeView, depth: nat) -> bool
    decreases n,
{
    depth > 0 && !n.truncated && whole_all(n.children, (depth - 1) as nat)
}

/// Nothing was left out of any of the trees.
pub open spec fn whole_all(s: Seq<NodeView>, depth: nat) -> bool
    decreases s,
{
    s.len() == 0 || (whole_all(s.drop_last(), depth) && whole(s.last(), depth))
}

proof fn whole_all_prefix(s: Seq<NodeView>, i: int, depth: nat)
    requires
        0 <= i <= s.len(),
        !whole_all(s.take(i), depth),
    ensures
        !whole_all(s, depth),
    decreases s.len(),
{
    if i < s.len() {
        assert(s.drop_last().take(i) =~= s.take(i));
        whole_all_prefix(s.drop_last(), i, depth);
    } else {
        assert(s.take(i) =~= s);
    }
}

/// Nothing was left out of a tree that was walked to `depth`.
pub fn is_whole(n: &Node, depth: u32) -> (r: bool)
    ensures
        r == whole(n@, depth as nat),
    decreases n,
{
    if depth == 0 || n.truncated {
        return false;
    }
    let ghost kids = n@.children;
    for i in 0..n.children.len()
        invariant
            depth > 0,
            !n@.truncated,
            kids == node_views(n.children@),
            kids == n@.children,
            whole_all(kids.take(i as int), (depth - 1) as nat),
    {
        proof {
            node_views_pointwise(n.children@);
            assert(kids.take(i + 1).drop_last() =~= kids.take(i as int));
            assert(kids.take(i + 1).last() == n.children@[i as int]@);
        }
        if !is_whole(&n.children[i], depth - 1) {
            proof {
                whole_all_prefix(kids, i + 1, (depth - 1) as nat);
            }
            return false;
        }
    }
    proof {
        node_views_pointwise(n.children@);
        assert(kids.take(kids.len() as int) =~= kids);
    }
    true
}

proof fn whole_all_front(node: NodeView, rest: Seq<NodeView>, depth: nat)
    requires
        whole_all(seq![node] + rest, depth),
    ensures
        whole(node, depth),
        whole_all(rest, depth),
    decreases rest.len(),
{
    let all = seq![node] + rest;
    if rest.len() == 0 {
        assert(all.last() == node);
    } else {
        assert(all.last() == rest.last());
        assert(all.drop_last() =~= seq![node] + rest.drop_last());
        whole_all_front(node, rest.drop_last(), depth);
    }
}

/// Every child of `id` was emitted.
pub open spec fn kids_are_out(g: Answers, id: u64, out: Set<u64>) -> bool {
    forall|i: int| 0 <= i < (g.kids)(id).0.len() ==> out.contains(#[trigger] (g.kids)(id).0[i])
}

proof fn whole_walk_is_closed(
    g: Answers,
    id: u64,
    depth: nat,
    max: nat,
    seen: Set<u64>,
    left: nat,
    out: Set<u64>,
)
    requires
        depth <= max,
        seen.finite(),
        walk(g, id, depth, max, seen, left).1.subset_of(out),
        whole(walk(g, id, depth, max, seen, left).0, (max - depth) as nat),
    ensures
        kids_are_out(g, id, out),
        forall|x: u64|
            #![trigger kids_are_out(g, x, out)]
            walk(g, id, depth, max, seen, left).1.contains(x) && !seen.contains(x) ==> kids_are_out(
                g,
                x,
                out,
            ),
    decreases max - depth, 1nat, 0nat,
{
    let f = (g.attrs)(id);
    let (kids, source) = (g.kids)(id);
    let taken = walked_kids(kids, fetched_role(f));
    let (children, seen2, left2, dropped) = walk_kids(g, taken, 0, depth, max, seen, left);
    assert(opened(f, kids, source).children + children =~= children);
    whole_kids_are_closed(g, taken, 0, depth, max, seen, left, out);
    assert(taken == kids);
}

proof fn whole_kids_are_closed(
    g: Answers,
    kids: Seq<u64>,
    i: int,
    depth: nat,
    max: nat,
    seen: Set<u64>,
    left: nat,
    out: Set<u64>,
)
    requires
        depth < max,
        0 <= i <= kids.len(),
        seen.finite(),
        walk_kids(g, kids, i, depth, max, seen, left).1.subset_of(out),
        whole_all(
            walk_kids(g, kids, i, depth, max, seen, left).0,
            (max - depth - 1) as nat,
        ),
    ensures
        ({
            let (children, seen2, left2, dropped) = walk_kids(g, kids, i, depth, max, seen, left);
            &&& !dropped ==> forall|j: int|
                i <= j < kids.len() ==> out.contains(#[trigger] kids[j])
            &&& forall|x: u64|
                #![trigger kids_are_out(g, x, out)]
                seen2.contains(x) && !seen.contains(x) ==> kids_are_out(g, x, out)
        }),
    decreases max - depth, 0nat, kids.len() - i,
{
    if i == kids.len() || left == 0 {
    } else if seen.contains(kids[i]) {
        whole_kids_are_closed(g, kids, i + 1, depth, max, seen, left, out);
        walk_kids_counts(g, kids, i + 1, depth, max, seen, left);
    } else {
        let seen1 = seen.insert(kids[i]);
        let (node, seen2, left2) = walk(g, kids[i], depth + 1, max, seen1, (left - 1) as nat);
        let (rest, seen3, left3, dropped) = walk_kids(g, kids, i + 1, depth, max, seen2, left2);
        walk_counts(g, kids[i], depth + 1, max, seen1, (left - 1) as nat);
        walk_kids_counts(g, kids, i + 1, depth, max, seen2, left2);
        whole_all_front(node, rest, (max - depth - 1) as nat);
        whole_walk_is_closed(g, kids[i], depth + 1, max, seen1, (left - 1) as nat, out);
        whole_kids_are_closed(g, kids, i + 1, depth, max, seen2, left2, out);
        assert forall|x: u64|
            #![trigger kids_are_out(g, x, out)]
            seen3.contains(x) && !seen.contains(x) implies kids_are_out(g, x, out) by {
            if x != kids[i] && !seen2.contains(x) {
                assert(!seen2.contains(x));
            } else if x != kids[i] {
                assert(!seen1.contains(x));
            }
        }
    }
}

/// A whole tree is the full one: every child of every element in it is in it.
pub proof fn a_whole_tree_is_full(g: Answers, root: u64, max: nat)
    requires
        whole(walked(g, root, max), max),
    ensures
        forall|id: u64|
            #![trigger emitted(g, root, max).contains(id)]
            emitted(g, root, max).contains(id) ==> kids_are_out(g, id, emitted(g, root, max)),
{
    let out = emitted(g, root, max);
    whole_walk_is_closed(g, root, 0, max, set![root], (WALK_NODE_BUDGET - 1) as nat, out);
    assert forall|id: u64|
        #![trigger out.contains(id)]
        out.contains(id) implies kids_are_out(g, id, out) by {
        if id != root {
            assert(!set![root].contains(id));
        }
    }
}

// ---------------------------------------------------------------------------
// What a walked tree shows
// ---------------------------------------------------------------------------

/// A tree shows what the application answers: `n` is the node of `id` in all but its
/// children and what is said of them, and its children show children of `id`, in their
/// order.
pub open spec fn shows(g: Answers, n: NodeView, id: u64) -> bool
    decreases n,
{
    let own = bare_node((g.attrs)(id));
    &&& own == (NodeView {
        children: own.children,
        truncated: own.truncated,
        child_source: own.child_source,
        ..n
    })
    &&& shows_all(g, n.children, (g.kids)(id).0, (g.kids)(id).0.len() as int)
}

/// Each of the trees shows one of the first `end` elements, a later tree a later one.
pub open spec fn shows_all(g: Answers, s: Seq<NodeView>, kids: Seq<u64>, end: int) -> bool
    decreases s,
{
    s.len() == 0 || exists|i: int|
        0 <= i < end && shows(g, s.last(), #[trigger] kids[i]) && shows_all(
            g,
            s.drop_last(),
            kids,
            i,
        )
}

/// As [`shows_all`], with no element before `start`.
spec fn shows_from(g: Answers, s: Seq<NodeView>, kids: Seq<u64>, start: int, end: int) -> bool
    decreases s,
{
    s.len() == 0 || exists|i: int|
        start <= i < end && shows(g, s.last(), #[trigger] kids[i]) && shows_from(
            g,
            s.drop_last(),
            kids,
            start,
            i,
        )
}

proof fn shows_one_before(
    g: Answers,
    n: NodeView,
    rest: Seq<NodeView>,
    kids: Seq<u64>,
    k: int,
    end: int,
)
    requires
        0 <= k < end,
        shows(g, n, kids[k]),
        shows_from(g, rest, kids, k + 1, end),
    ensures
        shows_from(g, seq![n] + rest, kids, k, end),
    decreases rest.len(),
{
    let all = seq![n] + rest;
    if rest.len() == 0 {
        assert(all =~= seq![n]);
        assert(all.last() == n);
        assert(all.drop_last() =~= Seq::<NodeView>::empty());
        assert(shows_from(g, all.drop_last(), kids, k, k));
        assert(shows(g, all.last(), kids[k]));
    } else {
        let i = choose|i: int|
            k + 1 <= i < end && shows(g, rest.last(), #[trigger] kids[i]) && shows_from(
                g,
                rest.drop_last(),
                kids,
                k + 1,
                i,
            );
        shows_one_before(g, n, rest.drop_last(), kids, k, i);
        assert(all.drop_last() =~= seq![n] + rest.drop_last());
        assert(all.last() == rest.last());
        assert(shows(g, all.last(), kids[i]));
    }
}

proof fn shows_from_earlier(
    g: Answers,
    s: Seq<NodeView>,
    kids: Seq<u64>,
    start: int,
    end: int,
    earlier: int,
)
    requires
        shows_from(g, s, kids, start, end),
        earlier <= start,
    ensures
        shows_from(g, s, kids, earlier, end),
    decreases s.len(),
{
    if s.len() > 0 {
        let i = choose|i: int|
            start <= i < end && shows(g, s.last(), #[trigger] kids[i]) && shows_from(
                g,
                s.drop_last(),
                kids,
                start,
                i,
            );
        shows_from_earlier(g, s.drop_last(), kids, start, i, earlier);
        assert(shows(g, s.last(), kids[i]));
    }
}

proof fn shows_among_more(
    g: Answers,
    s: Seq<NodeView>,
    taken: Seq<u64>,
    kids: Seq<u64>,
    end: int,
    more: int,
)
    requires
        shows_from(g, s, taken, 0, end),
        end <= taken.len() <= kids.len(),
        end <= more,
        forall|i: int| 0 <= i < taken.len() ==> #[trigger] taken[i] == kids[i],
    ensures
        shows_all(g, s, kids, more),
    decreases s.len(),
{
    if s.len() > 0 {
        let i = choose|i: int|
            0 <= i < end && shows(g, s.last(), #[trigger] taken[i]) && shows_from(
                g,
                s.drop_last(),
                taken,
                0,
                i,
            );
        shows_among_more(g, s.drop_last(), taken, kids, i, i);
        assert(taken[i] == kids[i]);
        assert(shows(g, s.last(), kids[i]));
    }
}

proof fn walk_shows(g: Answers, id: u64, depth: nat, max: nat, seen: Set<u64>, left: nat)
    ensures
        shows(g, walk(g, id, depth, max, seen, left).0, id),
    decreases max - depth, 1nat, 0nat,
{
    let n = walk(g, id, depth, max, seen, left).0;
    let f = (g.attrs)(id);
    let own = bare_node(f);
    if depth < max {
        let (kids, source) = (g.kids)(id);
        let taken = walked_kids(kids, fetched_role(f));
        walk_kids_shows(g, taken, 0, depth, max, seen, left);
        let children = walk_kids(g, taken, 0, depth, max, seen, left).0;
        shows_among_more(g, children, taken, kids, taken.len() as int, kids.len() as int);
        assert(own.children.len() == 0);
        assert(own.children + children =~= children);
    } else {
        assert(own.children.len() == 0);
    }
}

proof fn walk_kids_shows(
    g: Answers,
    kids: Seq<u64>,
    i: int,
    depth: nat,
    max: nat,
    seen: Set<u64>,
    left: nat,
)
    requires
        0 <= i,
    ensures
        shows_from(g, walk_kids(g, kids, i, depth, max, seen, left).0, kids, i, kids.len() as int),
    decreases max - depth, 0nat, kids.len() - i,
{
    if i >= kids.len() || depth >= max || left == 0 {
    } else if seen.contains(kids[i]) {
        walk_kids_shows(g, kids, i + 1, depth, max, seen, left);
        let s = walk_kids(g, kids, i + 1, depth, max, seen, left).0;
        shows_from_earlier(g, s, kids, i + 1, kids.len() as int, i);
    } else {
        let inner = seen.insert(kids[i]);
        let rest_left = (left - 1) as nat;
        walk_shows(g, kids[i], depth + 1, max, inner, rest_left);
        let (node, seen2, left2) = walk(g, kids[i], depth + 1, max, inner, rest_left);
        walk_kids_shows(g, kids, i + 1, depth, max, seen2, left2);
        let rest = walk_kids(g, kids, i + 1, depth, max, seen2, left2).0;
        shows_one_before(g, node, rest, kids, i, kids.len() as int);
    }
}

/// A walked tree shows what the application answers, node by node: each with its own
/// attributes, and its children in the order of the element's.
pub proof fn a_walk_shows_what_is_answered(g: Answers, root: u64, max: nat)
    ensures
        shows(g, walked(g, root, max), root),
{
    walk_shows(g, root, 0, max, set![root], (WALK_NODE_BUDGET - 1) as nat);
}

/// A node tells where its children came from as the application said it, but for a web
/// surface without any.
pub proof fn a_node_tells_where_its_children_came_from(g: Answers, root: u64, max: nat)
    requires
        max > 0,
    ensures
        ({
            let n = walked(g, root, max);
            n.role != "AXWebArea"@ || n.children.len() > 0 ==> n.child_source == (g.kids)(root).1
        }),
{
}

/// No node of a tree is marked.
pub open spec fn unmarked(n: NodeView) -> bool
    decreases n,
{
    !n.truncated && unmarked_all(n.children)
}

/// No node of the trees is marked.
pub open spec fn unmarked_all(s: Seq<NodeView>) -> bool
    decreases s,
{
    s.len() == 0 || (unmarked_all(s.drop_last()) && unmarked(s.last()))
}

/// A tree that was walked to `depth` is whole exactly where none of its nodes is marked
/// and it has no more levels than that.
pub proof fn a_whole_tree_is_unmarked_and_ends_in_time(n: NodeView, depth: nat)
    ensures
        whole(n, depth) <==> unmarked(n) && levels(n) <= depth,
    decreases n,
{
    if depth > 0 {
        whole_all_means_unmarked(n.children, (depth - 1) as nat);
    }
}

proof fn whole_all_means_unmarked(s: Seq<NodeView>, depth: nat)
    ensures
        whole_all(s, depth) <==> unmarked_all(s) && levels_all(s) <= depth,
    decreases s,
{
    if s.len() > 0 {
        whole_all_means_unmarked(s.drop_last(), depth);
        assert(s.last() == s[s.len() - 1]);
        a_whole_tree_is_unmarked_and_ends_in_time(s.last(), depth);
    }
}

/// How many children of a node are walked goes by its role: of what holds data ten
/// thousand, of a row or column half as many, of a list two thousand, of a menu five
/// hundred, of what is hardly ever a parent fifty, and of anything else a thousand.
pub proof fn caps_go_by_the_role(role: Seq<char>)
    ensures
        seq!["AXOutline"@, "AXTable"@, "AXGrid"@, "AXBrowser"@].contains(role) ==> cap_of(role)
            == 10_000,
        seq!["AXRow"@, "AXColumn"@].contains(role) ==> cap_of(role) == 5_000,
        role == "AXList"@ ==> cap_of(role) == 2_000,
        seq!["AXMenu"@, "AXMenuBar"@, "AXMenuBarItem"@].contains(role) ==> cap_of(role) == 500,
        seq![
            "AXButton"@,
            "AXMenuButton"@,
            "AXStaticText"@,
            "AXTextField"@,
            "AXCheckBox"@,
            "AXRadioButton"@,
            "AXImage"@,
        ].contains(role) ==> cap_of(role) == 50,
        cap_of(role) == 1_000 || cap_of(role) == 10_000 || cap_of(role) == 5_000 || cap_of(role)
            == 2_000 || cap_of(role) == 500 || cap_of(role) == 50,
        role == "AXGroup"@ || role == "AXWindow"@ ==> cap_of(role) == 1_000,
{
    reveal_strlit("AXOutline");
    reveal_strlit("AXTable");
    reveal_strlit("AXGrid");
    reveal_strlit("AXBrowser");
    reveal_strlit("AXRow");
    reveal_strlit("AXColumn");
    reveal_strlit("AXList");
    reveal_strlit("AXMenu");
    reveal_strlit("AXMenuBar");
    reveal_strlit("AXMenuBarItem");
    reveal_strlit("AXButton");
    reveal_strlit("AXMenuButton");
    reveal_strlit("AXStaticText");
    reveal_strlit("AXTextField");
    reveal_strlit("AXCheckBox");
    reveal_strlit("AXRadioButton");
    reveal_strlit("AXImage");
    reveal_strlit("AXGroup");
    reveal_strlit("AXWindow");
    assert("AXOutline"@.len() == 9 && "AXTable"@.len() == 7 && "AXGrid"@.len() == 6
        && "AXBrowser"@.len() == 9 && "AXRow"@.len() == 5 && "AXColumn"@.len() == 8
        && "AXList"@.len() == 6 && "AXMenu"@.len() == 6 && "AXMenuBar"@.len() == 9
        && "AXMenuBarItem"@.len() == 13 && "AXButton"@.len() == 8 && "AXMenuButton"@.len() == 12
        && "AXStaticText"@.len() == 12 && "AXTextField"@.len() == 11 && "AXCheckBox"@.len() == 10
        && "AXRadioButton"@.len() == 13 && "AXImage"@.len() == 7 && "AXGroup"@.len() == 7
        && "AXWindow"@.len() == 8);
    assert("AXOutline"@[2] == 'O' && "AXTable"@[2] == 'T' && "AXGrid"@[2] == 'G'
        && "AXBrowser"@[2] == 'B' && "AXColumn"@[2] == 'C' && "AXList"@[2] == 'L' && "AXMenu"@[2]
        == 'M' && "AXMenuBar"@[2] == 'M' && "AXMenuBarItem"@[2] == 'M' && "AXButton"@[2] == 'B'
        && "AXMenuButton"@[2] == 'M' && "AXStaticText"@[2] == 'S' && "AXRadioButton"@[2] == 'R'
        && "AXImage"@[2] == 'I' && "AXGroup"@[2] == 'G' && "AXWindow"@[2] == 'W');
}

/// A walk emits its root, and no more than a hundred thousand nodes in all.
pub proof fn a_walk_ends(g: Answers, root: u64, max: nat)
    ensures
        size(walked(g, root, max)) <= 100_000,
        size(walked(g, root, max)) >= 1,
{
    walk_keeps_the_budget(g, root, max);
}

} // verus!
