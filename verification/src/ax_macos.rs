//! The macOS accessibility tree: what a captured element holds, and the rules by
//! which a pick is judged.
//!
//! - [`walk`] turns the answers of a live application into a [`Node`] tree.
//! - [`children`] decides which relations of an element hold its children.
//! - [`resolve`] finds the element under a point.

use crate::capture::ScreenRect;
use crate::text::{copy_all, copy_of, copy_of_opt, opt_view, texts};
use vstd::prelude::*;

pub mod attrs;
pub mod band;
pub mod children;
pub mod pick;
pub mod resolve;
pub mod walk;

pub use crate::ax_macos::attrs::NodeAttrs;
pub use crate::ax_macos::band::sibling_band;
pub use crate::ax_macos::pick::{is_shallow_pick, topmost_window_owner_at, WindowSelector};

verus! {

/// One captured element with what was captured below it.
#[derive(Debug)]
pub struct Node {
    pub role: String,
    pub subrole: Option<String>,
    pub name: String,
    pub identifier: Option<String>,
    pub value: Option<String>,
    pub role_description: Option<String>,
    pub bounds: Option<ScreenRect>,
    /// Filled in by the sampling pass.
    pub bg: Option<(u8, u8, u8)>,
    /// UI-state flags currently TRUE on the element: "focused", "selected",
    /// "expanded", plus "disabled" when AXEnabled is explicitly false. An
    /// absent flag means "not reported", not "false".
    pub state: Vec<String>,
    /// Range endpoints for value-bearing roles (sliders, progress bars, scroll
    /// bars, steppers), each as the bits of the double that the app reported.
    pub min_value: Option<u64>,
    pub max_value: Option<u64>,
    /// True when children were dropped here (per-role child cap or the global
    /// node budget): there is more under this node.
    pub truncated: bool,
    /// Which relation produced this node's children when it wasn't the obvious
    /// AXChildren/AXVisibleChildren, or an "empty:…" marker for a web surface
    /// that exposes nothing. `None` for the common case.
    pub child_source: Option<String>,
    pub children: Vec<Node>,
}

/// What a [`Node`] holds, as values.
#[verifier::ext_equal]
pub struct NodeView {
    pub role: Seq<char>,
    pub subrole: Option<Seq<char>>,
    pub name: Seq<char>,
    pub identifier: Option<Seq<char>>,
    pub value: Option<Seq<char>>,
    pub role_description: Option<Seq<char>>,
    pub bounds: Option<ScreenRect>,
    pub bg: Option<(u8, u8, u8)>,
    pub state: Seq<Seq<char>>,
    pub min_value: Option<u64>,
    pub max_value: Option<u64>,
    pub truncated: bool,
    pub child_source: Option<Seq<char>>,
    pub children: Seq<NodeView>,
}

impl View for Node {
    type V = NodeView;

    open spec fn view(&self) -> NodeView {
        node_view(*self)
    }
}

/// What a node holds.
pub open spec fn node_view(n: Node) -> NodeView
    decreases n,
{
    NodeView {
        role: n.role@,
        subrole: opt_view(n.subrole),
        name: n.name@,
        identifier: opt_view(n.identifier),
        value: opt_view(n.value),
        role_description: opt_view(n.role_description),
        bounds: n.bounds,
        bg: n.bg,
        state: texts(n.state@),
        min_value: n.min_value,
        max_value: n.max_value,
        truncated: n.truncated,
        child_source: opt_view(n.child_source),
        children: node_views(n.children@),
    }
}

/// What each node of a list holds.
pub open spec fn node_views(s: Seq<Node>) -> Seq<NodeView>
    decreases s,
{
    if s.len() == 0 {
        Seq::empty()
    } else {
        node_views(s.drop_last()).push(node_view(s.last()))
    }
}

/// A list of nodes and the list of what they hold correspond one to one.
pub proof fn node_views_pointwise(s: Seq<Node>)
    ensures
        node_views(s).len() == s.len(),
        forall|i: int| 0 <= i < s.len() ==> #[trigger] node_views(s)[i] == s[i]@,
    decreases s.len(),
{
    if s.len() > 0 {
        node_views_pointwise(s.drop_last());
        assert forall|i: int| 0 <= i < s.len() implies #[trigger] node_views(s)[i] == s[i]@ by {
            if i < s.len() - 1 {
                assert(node_views(s.drop_last())[i] == s.drop_last()[i]@);
            }
        }
    }
}

impl Clone for Node {
    fn clone(&self) -> (r: Self)
        ensures
            r@ == self@,
        decreases self,
    {
        let mut children: Vec<Node> = Vec::new();
        for i in 0..self.children.len()
            invariant
                children@.len() == i,
                forall|k: int| 0 <= k < i ==> #[trigger] children@[k]@ == self.children@[k]@,
        {
            let kid = self.children[i].clone();
            children.push(kid);
        }
        let r = Node {
            role: copy_of(self.role.as_str()),
            subrole: copy_of_opt(&self.subrole),
            name: copy_of(self.name.as_str()),
            identifier: copy_of_opt(&self.identifier),
            value: copy_of_opt(&self.value),
            role_description: copy_of_opt(&self.role_description),
            bounds: self.bounds,
            bg: self.bg,
            state: copy_all(&self.state),
            min_value: self.min_value,
            max_value: self.max_value,
            truncated: self.truncated,
            child_source: copy_of_opt(&self.child_source),
            children,
        };
        proof {
            node_views_pointwise(r.children@);
            node_views_pointwise(self.children@);
            assert(r@.children =~= self@.children);
            assert(r@ =~= self@);
        }
        r
    }
}

/// How many nodes a tree holds.
pub open spec fn size(n: NodeView) -> nat
    decreases n,
{
    1 + size_all(n.children)
}

/// How many nodes a list of trees holds.
pub open spec fn size_all(s: Seq<NodeView>) -> nat
    decreases s,
{
    if s.len() == 0 {
        0
    } else {
        size_all(s.drop_last()) + size(s.last())
    }
}

/// A prefix of a list of trees holds no more nodes than the list.
pub proof fn size_all_monotone(s: Seq<NodeView>, k: int)
    requires
        0 <= k <= s.len(),
    ensures
        size_all(s.take(k)) <= size_all(s),
    decreases s.len(),
{
    if k == s.len() {
        assert(s.take(k) =~= s);
    } else {
        size_all_monotone(s.drop_last(), k);
        assert(s.drop_last().take(k) =~= s.take(k));
    }
}

/// How many nodes the tree under `n` holds, itself counted.
pub fn count_nodes(n: &Node) -> (r: usize)
    requires
        size(n@) <= usize::MAX,
    ensures
        r == size(n@),
    decreases n,
{
    let mut total: usize = 1;
    let ghost kids = n@.children;
    for i in 0..n.children.len()
        invariant
            kids == node_views(n.children@),
            kids == n@.children,
            total == 1 + size_all(kids.take(i as int)),
            size(n@) <= usize::MAX,
    {
        proof {
            node_views_pointwise(n.children@);
            assert(kids.take(i + 1).drop_last() =~= kids.take(i as int));
            assert(kids.take(i + 1).last() == n.children@[i as int]@);
            size_all_monotone(kids, i + 1);
        }
        total += count_nodes(&n.children[i]);
    }
    proof {
        node_views_pointwise(n.children@);
        assert(kids.take(kids.len() as int) =~= kids);
    }
    total
}

} // verus!
