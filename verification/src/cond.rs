//! Boolean condition trees for WHERE clauses and their renderer.

use vstd::prelude::*;

use crate::text::join_strings;
use crate::text::join_with;

verus! {

/// A logical condition or a group of conditions for a WHERE clause.
/// The enum allows building a tree of logical operations.
#[derive(Debug)]
pub enum Condition {
    /// A simple, raw condition string (e.g. `price > 50`).
    Simple(String),
    /// Conditions joined by ` AND `, wrapped in parentheses.
    And(Vec<Condition>),
    /// Conditions joined by ` OR `, wrapped in parentheses.
    Or(Vec<Condition>),
}

/// The mathematical shape of a [`Condition`]: the same tree with every
/// string replaced by its character sequence.
pub enum CondTree {
    Leaf(Seq<char>),
    AndGroup(Seq<CondTree>),
    OrGroup(Seq<CondTree>),
}

/// The view of one condition as a [`CondTree`].
pub open spec fn cond_view(c: Condition) -> CondTree
    decreases c,
{
    match c {
        Condition::Simple(s) => CondTree::Leaf(s@),
        Condition::And(cs) => CondTree::AndGroup(conds_view(cs@)),
        Condition::Or(cs) => CondTree::OrGroup(conds_view(cs@)),
    }
}

/// The views of a sequence of conditions, in order.
pub open spec fn conds_view(cs: Seq<Condition>) -> Seq<CondTree>
    decreases cs,
{
    Seq::new(
        cs.len(),
        |i: int|
            if 0 <= i < cs.len() {
                cond_view(cs[i])
            } else {
                CondTree::Leaf(Seq::empty())
            },
    )
}

impl View for Condition {
    type V = CondTree;

    open spec fn view(&self) -> CondTree {
        cond_view(*self)
    }
}

/// What a condition tree renders to: a leaf renders verbatim, a group
/// renders its children joined by the group's connective, in parentheses.
pub open spec fn render_tree(t: CondTree) -> Seq<char>
    decreases t,
{
    match t {
        CondTree::Leaf(s) => s,
        CondTree::AndGroup(ts) => "("@ + render_list(ts, " AND "@) + ")"@,
        CondTree::OrGroup(ts) => "("@ + render_list(ts, " OR "@) + ")"@,
    }
}

/// The renderings of the trees of `ts`, joined by `sep`.
pub open spec fn render_list(ts: Seq<CondTree>, sep: Seq<char>) -> Seq<char>
    decreases ts,
{
    if ts.len() == 0 {
        Seq::empty()
    } else if ts.len() == 1 {
        render_tree(ts[0])
    } else {
        render_list(ts.drop_last(), sep) + sep + render_tree(ts.last())
    }
}

/// Rendering a list of trees is joining the rendering of each tree.
pub proof fn lemma_render_list_is_join(ts: Seq<CondTree>, rendered: Seq<Seq<char>>, sep: Seq<char>)
    requires
        rendered.len() == ts.len(),
        forall|i: int| 0 <= i < ts.len() ==> rendered[i] == render_tree(ts[i]),
    ensures
        join_with(rendered, sep) == render_list(ts, sep),
    decreases ts.len(),
{
    if ts.len() > 1 {
        assert(rendered.drop_last().len() == ts.drop_last().len());
        lemma_render_list_is_join(ts.drop_last(), rendered.drop_last(), sep);
    }
}

/// Rendering is deterministic and pure: the rendered string is a function
/// of the tree alone, so two renderings of one tree are identical; and the
/// renderer takes the tree immutably, so it never changes the tree.
pub proof fn lemma_render_deterministic(t: CondTree, first: Seq<char>, second: Seq<char>)
    requires
        first == render_tree(t),
        second == render_tree(t),
    ensures
        first == second,
{
}

/// Renders one condition tree into its string form.
///
/// The result is a pure function of the tree's view: rendering neither
/// mutates the tree nor depends on anything besides it, so two calls on
/// the same tree return identical strings.
pub fn render_condition(c: &Condition) -> (r: String)
    ensures
        r@ == render_tree(c@),
    decreases *c, 1nat,
{
    match c {
        Condition::Simple(s) => s.clone(),
        Condition::And(cs) => render_group(cs, " AND ", Ghost(*c)),
        Condition::Or(cs) => render_group(cs, " OR ", Ghost(*c)),
    }
}

/// Renders the children of one composite node, joined by `sep` and wrapped
/// in parentheses.
fn render_group(cs: &Vec<Condition>, sep: &str, whole: Ghost<Condition>) -> (r: String)
    requires
        whole@ == Condition::And(*cs) || whole@ == Condition::Or(*cs),
    ensures
        r@ == "("@ + render_list(conds_view(cs@), sep@) + ")"@,
    decreases whole@, 0nat,
{
    let mut rendered: Vec<String> = Vec::new();
    let mut i: usize = 0;
    while i < cs.len()
        invariant
            i <= cs@.len(),
            whole@ == Condition::And(*cs) || whole@ == Condition::Or(*cs),
            rendered@.len() == i,
            forall|j: int| 0 <= j < i ==> rendered@[j]@ == render_tree(cond_view(cs@[j])),
        decreases cs@.len() - i,
    {
        proof {
            let w = whole@;
            if w == Condition::And(*cs) {
                assert(decreases_to!(w => w->And_0));
            } else {
                assert(decreases_to!(w => w->Or_0));
            }
            assert(decreases_to!(*cs => cs@));
            assert(decreases_to!(cs@ => cs@[i as int]));
            assert(decreases_to!(w => cs@[i as int]));
        }
        let s = render_condition(&cs[i]);
        rendered.push(s);
        i += 1;
    }
    let inner = join_strings(&rendered, sep);
    proof {
        assert(rendered.deep_view().len() == conds_view(cs@).len());
        assert forall|j: int| 0 <= j < cs@.len() implies rendered.deep_view()[j] == render_tree(
            conds_view(cs@)[j],
        ) by {
            assert(rendered.deep_view()[j] == rendered@[j]@);
        }
        lemma_render_list_is_join(conds_view(cs@), rendered.deep_view(), sep@);
    }
    let mut out = String::from_str("(");
    out.append(inner.as_str());
    out.append(")");
    out
}

} // verus!
