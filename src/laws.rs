//! Properties of the state engine that hold across operations, proved
//! over the models the operations' contracts speak of.

use crate::app::{
    first_with_id, lemma_first_with_id, CommentUpdate,
    cache_key, is_stale, next_sibling_moved, page_applied, pages_of, parent_moved, rebuilt,
    thread_collapsed, toggled, App, ChildFetch, HNCLIItem, StoryType,
};
use crate::tree::{
    entries_of, fits, flatten_list, flatten_node, is_open_at, is_parent_path, is_sibling_path,
    node_at, node_below, nodes_of, paths_of, projection, with_state_at, with_state_below, Node,
    NodeState,
};
use crate::control::children_applied;
use vstd::prelude::*;
use vstd::view::View as _;

verus! {

/// Replacing the state of the node below `n` at `q` leaves a node there
/// that differs from the old one in its state alone.
pub proof fn lemma_node_below_with_state(n: Node, q: Seq<usize>, st: NodeState)
    ensures
        node_below(with_state_below(n, q, st), q) == match node_below(n, q) {
            Some(m) => Some(Node { state: st, ..m }),
            None => None,
        },
    decreases q.len(),
{
    if q.len() > 0 {
        match n.state {
            NodeState::Expanded(ch) => {
                if q[0] < ch.len() {
                    lemma_node_below_with_state(ch[q[0] as int], q.drop_first(), st);
                }
            },
            _ => {},
        }
    }
}

/// Replacing the state of the node at `path` leaves a node there that
/// differs from the old one in its state alone.
pub proof fn lemma_node_at_with_state(ns: Seq<Node>, path: Seq<usize>, st: NodeState)
    ensures
        node_at(with_state_at(ns, path, st), path) == match node_at(ns, path) {
            Some(m) => Some(Node { state: st, ..m }),
            None => None,
        },
{
    if path.len() > 0 && path[0] < ns.len() {
        lemma_node_below_with_state(ns[path[0] as int], path.drop_first(), st);
    }
}

/// Whether a comment, before and after a change, is expanded both times
/// with the same id and child ids.
pub open spec fn kept_open(before: Option<Node>, after: Option<Node>) -> bool {
    match (before, after) {
        (Some(b), Some(a)) => b.state is Expanded && a.state is Expanded && a.id == b.id
            && a.child_ids == b.child_ids,
        _ => false,
    }
}

/// Replacing the state of the node below `n` at `q` keeps every node on
/// the way there expanded, with its id and child ids.
pub proof fn lemma_with_state_keeps_ancestors_below(n: Node, q: Seq<usize>, st: NodeState, m: int)
    requires
        0 <= m < q.len(),
        node_below(n, q) is Some,
    ensures
        kept_open(node_below(n, q.take(m)), node_below(with_state_below(n, q, st), q.take(m))),
    decreases m,
{
    assert(q.take(0) =~= Seq::<usize>::empty());
    if m > 0 {
        if let NodeState::Expanded(ch) = n.state {
            assert(q.take(m).drop_first() =~= q.drop_first().take(m - 1));
            lemma_with_state_keeps_ancestors_below(ch[q[0] as int], q.drop_first(), st, m - 1);
        }
    }
}

/// Replacing the state of the node at `path` keeps every comment above it
/// expanded, with its id and child ids.
pub proof fn lemma_with_state_keeps_ancestors(ns: Seq<Node>, path: Seq<usize>, st: NodeState, m: int)
    requires
        1 <= m < path.len(),
        node_at(ns, path) is Some,
    ensures
        kept_open(node_at(ns, path.take(m)), node_at(with_state_at(ns, path, st), path.take(m))),
{
    assert(path.take(m).drop_first() =~= path.drop_first().take(m - 1));
    lemma_with_state_keeps_ancestors_below(ns[path[0] as int], path.drop_first(), st, m - 1);
}

/// Expanding a comment with any children, rebuilding the projection and
/// collapsing the comment again leaves the comment as it was but for its
/// state: in particular its child ids are the same before and after.
pub proof fn lemma_expand_collapse_round_trip(
    a0: App,
    a1: App,
    a2: App,
    a3: App,
    path: Seq<usize>,
    children: Seq<Node>,
)
    requires
        node_at(nodes_of(a0.comments@), path) is Some,
        nodes_of(a1.comments@) == with_state_at(
            nodes_of(a0.comments@),
            path,
            NodeState::Expanded(children),
        ),
        rebuilt(a1, a2),
        nodes_of(a3.comments@) == with_state_at(nodes_of(a2.comments@), path, NodeState::Collapsed),
    ensures
        node_at(nodes_of(a3.comments@), path) == Some(
            Node { state: NodeState::Collapsed, ..node_at(nodes_of(a0.comments@), path)->0 },
        ),
        node_at(nodes_of(a3.comments@), path)->0.child_ids == node_at(
            nodes_of(a0.comments@),
            path,
        )->0.child_ids,
{
    let ns0 = nodes_of(a0.comments@);
    lemma_node_at_with_state(ns0, path, NodeState::Expanded(children));
    lemma_node_at_with_state(nodes_of(a2.comments@), path, NodeState::Collapsed);
}

/// Every path in the flattening of a node placed at `p` extends `p`, the
/// first entry is the node itself, and every deeper entry has its parent
/// path on an earlier entry.
pub proof fn lemma_flatten_node_parents(n: Node, p: Seq<usize>)
    ensures
        flatten_node(n, p).len() >= 1,
        flatten_node(n, p)[0].0 == p,
        forall|k: int|
            0 <= k < flatten_node(n, p).len() ==> {
                let q = #[trigger] flatten_node(n, p)[k].0;
                &&& q.len() >= p.len()
                &&& q.take(p.len() as int) == p
                &&& (q.len() == p.len() || exists|j: int|
                    0 <= j < k && flatten_node(n, p)[j].0 == q.take(q.len() - 1))
            },
    decreases n,
{
    let children = match n.state {
        NodeState::Expanded(ch) => ch,
        _ => Seq::empty(),
    };
    let rest = match n.state {
        NodeState::Expanded(ch) => flatten_list(ch, p),
        _ => Seq::empty(),
    };
    let f = flatten_node(n, p);
    assert(f == seq![(p, n)] + rest);
    if n.state is Expanded {
        lemma_flatten_list_parents(children, p);
    }
    assert forall|k: int| 0 <= k < f.len() implies {
        let q = #[trigger] f[k].0;
        &&& q.len() >= p.len()
        &&& q.take(p.len() as int) == p
        &&& (q.len() == p.len() || exists|j: int| 0 <= j < k && f[j].0 == q.take(q.len() - 1))
    } by {
        let q = f[k].0;
        if k == 0 {
            assert(q == p);
            assert(q.take(p.len() as int) =~= p);
        } else {
            assert(f[k] == rest[k - 1]);
            assert(q == rest[k - 1].0);
            if q.len() == p.len() + 1 {
                assert(q.take(q.len() - 1) == q.take(p.len() as int));
                assert(f[0].0 == q.take(q.len() - 1));
            } else {
                let j0 = choose|j: int| 0 <= j < k - 1 && rest[j].0 == q.take(q.len() - 1);
                assert(f[j0 + 1] == rest[j0]);
            }
        }
    }
}

/// Every path in the flattening of the children `ns` of the node at
/// `pre` is longer than `pre` and extends it, and every path more than one
/// level below `pre` has its parent path on an earlier entry.
pub proof fn lemma_flatten_list_parents(ns: Seq<Node>, pre: Seq<usize>)
    ensures
        forall|k: int|
            0 <= k < flatten_list(ns, pre).len() ==> {
                let q = #[trigger] flatten_list(ns, pre)[k].0;
                &&& q.len() > pre.len()
                &&& q.take(pre.len() as int) == pre
                &&& (q.len() == pre.len() + 1 || exists|j: int|
                    0 <= j < k && flatten_list(ns, pre)[j].0 == q.take(q.len() - 1))
            },
    decreases ns,
{
    if ns.len() > 0 {
        let init = flatten_list(ns.drop_last(), pre);
        let p2 = pre.push((ns.len() - 1) as usize);
        let tail = flatten_node(ns.last(), p2);
        let f = flatten_list(ns, pre);
        assert(f == init + tail);
        lemma_flatten_list_parents(ns.drop_last(), pre);
        lemma_flatten_node_parents(ns.last(), p2);
        assert forall|k: int| 0 <= k < f.len() implies {
            let q = #[trigger] f[k].0;
            &&& q.len() > pre.len()
            &&& q.take(pre.len() as int) == pre
            &&& (q.len() == pre.len() + 1 || exists|j: int|
                0 <= j < k && f[j].0 == q.take(q.len() - 1))
        } by {
            let q = f[k].0;
            if k < init.len() {
                assert(f[k] == init[k]);
                assert(q == init[k].0);
                if q.len() != pre.len() + 1 {
                    let j0 = choose|j: int| 0 <= j < k && init[j].0 == q.take(q.len() - 1);
                    assert(f[j0] == init[j0]);
                }
            } else {
                let k2 = k - init.len();
                assert(f[k] == tail[k2]);
                assert(q == tail[k2].0);
                assert(q.take(p2.len() as int) == p2);
                assert(q.take(pre.len() as int) =~= p2.take(pre.len() as int));
                assert(p2.take(pre.len() as int) =~= pre);
                if q.len() != pre.len() + 1 {
                    assert(q.len() != p2.len());
                    let j0 = choose|j: int| 0 <= j < k2 && tail[j].0 == q.take(q.len() - 1);
                    assert(f[j0 + init.len()] == tail[j0]);
                }
            }
        }
    }
}

/// Every entry of the flattening of a node placed at `p` holds the node
/// that its path, read below `p`, leads to.
pub proof fn lemma_flatten_node_locates(n: Node, p: Seq<usize>)
    requires
        fits(n),
    ensures
        forall|k: int|
            0 <= k < flatten_node(n, p).len() ==> {
                let e = #[trigger] flatten_node(n, p)[k];
                &&& e.0.len() >= p.len()
                &&& e.0.take(p.len() as int) == p
                &&& node_below(n, e.0.skip(p.len() as int)) == Some(e.1)
            },
    decreases n,
{
    let rest = match n.state {
        NodeState::Expanded(ch) => flatten_list(ch, p),
        _ => Seq::empty(),
    };
    let f = flatten_node(n, p);
    assert(f == seq![(p, n)] + rest);
    if let NodeState::Expanded(ch) = n.state {
        crate::tree::lemma_all_fit(ch);
        lemma_flatten_list_locates(ch, p);
    }
    assert forall|k: int| 0 <= k < f.len() implies {
        let e = #[trigger] f[k];
        &&& e.0.len() >= p.len()
        &&& e.0.take(p.len() as int) == p
        &&& node_below(n, e.0.skip(p.len() as int)) == Some(e.1)
    } by {
        let q = f[k].0;
        if k == 0 {
            assert(q.take(p.len() as int) =~= p);
            assert(q.skip(p.len() as int) =~= Seq::<usize>::empty());
        } else {
            assert(f[k] == rest[k - 1]);
            let sq = q.skip(p.len() as int);
            assert(sq.drop_first() =~= q.skip(p.len() as int + 1));
            assert(sq[0] == q[p.len() as int]);
        }
    }
}

/// Every entry of the flattening of the children `ns` of the node at
/// `pre` holds the node that its path, read below `pre`, leads to.
pub proof fn lemma_flatten_list_locates(ns: Seq<Node>, pre: Seq<usize>)
    requires
        ns.len() <= usize::MAX,
        forall|i: int| 0 <= i < ns.len() ==> #[trigger] fits(ns[i]),
    ensures
        forall|k: int|
            0 <= k < flatten_list(ns, pre).len() ==> {
                let e = #[trigger] flatten_list(ns, pre)[k];
                &&& e.0.len() > pre.len()
                &&& e.0.take(pre.len() as int) == pre
                &&& e.0[pre.len() as int] < ns.len()
                &&& node_below(ns[e.0[pre.len() as int] as int], e.0.skip(pre.len() as int + 1)) == Some(e.1)
            },
    decreases ns,
{
    if ns.len() > 0 {
        let init = flatten_list(ns.drop_last(), pre);
        let p2 = pre.push((ns.len() - 1) as usize);
        let tail = flatten_node(ns.last(), p2);
        let f = flatten_list(ns, pre);
        assert(f == init + tail);
        assert forall|i: int| 0 <= i < ns.drop_last().len() implies #[trigger] fits(ns.drop_last()[i]) by {
            assert(ns.drop_last()[i] == ns[i]);
        }
        lemma_flatten_list_locates(ns.drop_last(), pre);
        assert(fits(ns[ns.len() - 1]));
        lemma_flatten_node_locates(ns.last(), p2);
        assert forall|k: int| 0 <= k < f.len() implies {
            let e = #[trigger] f[k];
            &&& e.0.len() > pre.len()
            &&& e.0.take(pre.len() as int) == pre
            &&& e.0[pre.len() as int] < ns.len()
            &&& node_below(ns[e.0[pre.len() as int] as int], e.0.skip(pre.len() as int + 1)) == Some(e.1)
        } by {
            if k < init.len() {
                assert(f[k] == init[k]);
                let i = init[k].0[pre.len() as int] as int;
                assert(ns.drop_last()[i] == ns[i]);
            } else {
                let k2 = k - init.len();
                assert(f[k] == tail[k2]);
                let q = tail[k2].0;
                assert(node_below(ns.last(), q.skip(p2.len() as int)) == Some(tail[k2].1));
                assert(q[pre.len() as int] == p2[pre.len() as int]);
                assert(p2[pre.len() as int] == ns.len() - 1);
                assert(q.take(p2.len() as int) == p2);
                assert(q[pre.len() as int] == q.take(p2.len() as int)[pre.len() as int]);
                assert(q.take(pre.len() as int) =~= p2.take(pre.len() as int));
                assert(p2.take(pre.len() as int) =~= pre);
                assert(q.skip(pre.len() as int + 1) =~= q.skip(p2.len() as int));
            }
        }
    }
}

/// In a rebuilt projection every entry holds a copy of the comment that
/// its path leads to in the comment forest.
pub proof fn lemma_projection_locates(comments: Seq<crate::tree::Comment>)
    requires
        comments.len() <= usize::MAX,
    ensures
        forall|k: int|
            0 <= k < projection(comments).len() ==> node_at(
                nodes_of(comments),
                (#[trigger] projection(comments)[k]).0,
            ) == Some(projection(comments)[k].1),
{
    let ns = nodes_of(comments);
    let empty = Seq::<usize>::empty();
    crate::tree::lemma_nodes_of_len(comments);
    assert forall|i: int| 0 <= i < ns.len() implies #[trigger] fits(ns[i]) by {
        crate::tree::lemma_nodes_of_index(comments, i);
        crate::tree::lemma_comment_fits(comments[i]);
    }
    lemma_flatten_list_locates(ns, empty);
    assert forall|k: int| 0 <= k < projection(comments).len() implies node_at(
        ns,
        (#[trigger] projection(comments)[k]).0,
    ) == Some(projection(comments)[k].1) by {
        let q = projection(comments)[k].0;
        assert(q.skip(1) =~= q.drop_first());
    }
}

/// In a rebuilt projection, moving to the parent from an entry one level
/// deep lands on the entry of its top-level ancestor, and from a
/// top-level entry does nothing.
pub proof fn lemma_parent_of_reply(old: App, new: App)
    requires
        entries_of(old.visible_comments@) == projection(old.comments@),
        old.comment_cursor < old.visible_comments@.len(),
        parent_moved(old, new),
    ensures
        ({
            let ps = paths_of(old.visible_comments@);
            let c = old.comment_cursor as int;
            &&& ps[c].len() == 2 ==> ps[new.comment_cursor as int] == seq![ps[c][0]]
                && ps[c][0] < old.comments@.len()
                && entries_of(old.visible_comments@)[new.comment_cursor as int].1
                    == old.comments@[ps[c][0] as int].node()
            &&& ps[c].len() == 1 ==> new.comment_cursor == old.comment_cursor
        }),
{
    let ps = paths_of(old.visible_comments@);
    let es = entries_of(old.visible_comments@);
    let c = old.comment_cursor as int;
    assert(ps.len() == es.len());
    assert forall|k: int| 0 <= k < ps.len() implies ps[k] == #[trigger] es[k].0 by {}
    lemma_flatten_list_parents(nodes_of(old.comments@), Seq::empty());
    let q = es[c].0;
    assert(q.take(0) =~= Seq::<usize>::empty());
    if q.len() == 2 {
        let j0 = choose|j: int| 0 <= j < c && es[j].0 == q.take(q.len() - 1);
        assert(is_parent_path(ps[j0], ps[c]));
        assert(q.take(1) =~= seq![q[0]]);
        let n = new.comment_cursor as int;
        assert(old.comments@.len() == old.comments.len());
        lemma_projection_locates(old.comments@);
        assert(node_at(nodes_of(old.comments@), es[n].0) == Some(es[n].1));
        assert(es[n].0 == seq![q[0]]);
        assert(seq![q[0]].drop_first() =~= Seq::<usize>::empty());
        crate::tree::lemma_nodes_of_len(old.comments@);
        crate::tree::lemma_nodes_of_index(old.comments@, q[0] as int);
    }
}

/// Toggling a collapsed comment without child ids changes nothing: it
/// never leaves the collapsed state and asks for no fetch.
pub proof fn lemma_childless_toggle_stays_collapsed(old: App, new: App, r: Option<ChildFetch>)
    requires
        toggled(old, new, r),
        old.comment_cursor < old.visible_comments@.len(),
        node_at(nodes_of(old.comments@), paths_of(old.visible_comments@)[old.comment_cursor as int]) matches Some(n)
            && n.child_ids.len() == 0 && n.state is Collapsed,
    ensures
        r is None,
        new == old,
        node_at(nodes_of(new.comments@), paths_of(old.visible_comments@)[old.comment_cursor as int])->0.state
            is Collapsed,
{
}

/// Rebuilding the projection twice in a row gives the same entries as
/// rebuilding it once, and changes nothing else.
pub proof fn lemma_rebuild_idempotent(a0: App, a1: App, a2: App)
    requires
        rebuilt(a0, a1),
        rebuilt(a1, a2),
    ensures
        entries_of(a2.visible_comments@) == entries_of(a1.visible_comments@),
        a2 == (App { visible_comments: a2.visible_comments, ..a1 }),
{
    assert(entries_of(a1.visible_comments@).len() == a1.visible_comments@.len());
    assert(entries_of(a2.visible_comments@).len() == a2.visible_comments@.len());
}

/// Moving to the next sibling from the last entry of its sibling group
/// leaves the cursor where it is; from any other entry it lands on the
/// nearest following entry with the same parent path and depth.
pub proof fn lemma_next_sibling(old: App, new: App)
    requires
        next_sibling_moved(old, new),
        old.comment_cursor < old.visible_comments@.len(),
    ensures
        ({
            let ps = paths_of(old.visible_comments@);
            let c = old.comment_cursor as int;
            let n = new.comment_cursor as int;
            &&& (forall|j: int| c < j < ps.len() ==> !is_sibling_path(ps[j], ps[c])) ==> n == c
            &&& (exists|j: int| c < j < ps.len() && is_sibling_path(ps[j], ps[c])) ==> {
                &&& c < n < ps.len()
                &&& ps[n].len() == ps[c].len()
                &&& ps[n].take(ps[c].len() - 1) == ps[c].take(ps[c].len() - 1)
                &&& forall|k: int| c < k < n ==> !is_sibling_path(ps[k], ps[c])
            }
        }),
{
}

/// A page that arrives for a kind and page other than the selected ones
/// is cached but not shown: the displayed stories, the load in flight and
/// the staleness of the display stay as they were.
pub proof fn lemma_off_target_page_only_cached(
    old: App,
    new: App,
    story_type: StoryType,
    page: u32,
    stories: Vec<HNCLIItem>,
)
    requires
        page_applied(old, new, story_type, page, stories),
        !(old.story_type == story_type && old.current_page == page),
    ensures
        pages_of(new.story_cache@).contains_key(cache_key(story_type, page)),
        pages_of(new.story_cache@)[cache_key(story_type, page)] == stories@,
        new.stories == old.stories,
        new.loading == old.loading,
        new.loading_since == old.loading_since,
        new.stories_for == old.stories_for,
        new.story_type == old.story_type && new.current_page == old.current_page,
        is_stale(new) == is_stale(old),
{
}

/// Collapsing the current thread turns the nearest expanded or loading
/// ancestor of the cursor's entry (the entry itself included) into a
/// collapsed comment that is otherwise unchanged, keeps the comments above
/// it expanded with their ids and child ids, and leaves the cursor inside
/// the new projection.
pub proof fn lemma_collapse_thread(old: App, new: App)
    requires
        thread_collapsed(old, new),
        old.comment_cursor < old.visible_comments@.len(),
        exists|d: int| is_open_at(nodes_of(old.comments@), paths_of(old.visible_comments@)[old.comment_cursor as int], d),
    ensures
        ({
            let ns = nodes_of(old.comments@);
            let path = paths_of(old.visible_comments@)[old.comment_cursor as int];
            exists|d: int|
                {
                    &&& is_open_at(ns, path, d)
                    &&& forall|e: int| d < e < path.len() ==> !is_open_at(ns, path, e)
                    &&& node_at(nodes_of(new.comments@), path.take(d + 1)) == Some(
                        Node { state: NodeState::Collapsed, ..node_at(ns, path.take(d + 1))->0 },
                    )
                    &&& forall|m: int|
                        1 <= m <= d ==> kept_open(
                            node_at(ns, #[trigger] path.take(m)),
                            node_at(nodes_of(new.comments@), path.take(m)),
                        )
                }
        }),
        new.visible_comments@.len() == 0 || new.comment_cursor < new.visible_comments@.len(),
        entries_of(new.visible_comments@) == projection(new.comments@),
{
    let ns = nodes_of(old.comments@);
    let path = paths_of(old.visible_comments@)[old.comment_cursor as int];
    let d = choose|d: int|
        {
            &&& is_open_at(ns, path, d)
            &&& forall|e: int| d < e < path.len() ==> !is_open_at(ns, path, e)
            &&& nodes_of(new.comments@) == with_state_at(ns, path.take(d + 1), NodeState::Collapsed)
        };
    lemma_node_at_with_state(ns, path.take(d + 1), NodeState::Collapsed);
    assert forall|m: int| 1 <= m <= d implies kept_open(
        node_at(ns, #[trigger] path.take(m)),
        node_at(nodes_of(new.comments@), path.take(m)),
    ) by {
        assert(path.take(d + 1).take(m) =~= path.take(m));
        lemma_with_state_keeps_ancestors(ns, path.take(d + 1), NodeState::Collapsed, m);
    }
}

/// When fetching the children of a loading comment fails, that comment
/// returns to the collapsed state with its child ids unchanged, provided it
/// is the first comment in projection order with its id (as it is when ids
/// are unique); the projection is rebuilt.
pub proof fn lemma_failed_children_revert(old: App, new: App, path: Seq<usize>)
    requires
        node_at(nodes_of(old.comments@), path) is Some,
        node_at(nodes_of(old.comments@), path)->0.state is Loading,
        children_applied(
            old,
            new,
            node_at(nodes_of(old.comments@), path)->0.id,
            CommentUpdate::RevertLoading,
        ),
        first_with_id(
            projection(old.comments@),
            node_at(nodes_of(old.comments@), path)->0.id,
        ) matches Some(j) && projection(old.comments@)[j].0 == path,
    ensures
        node_at(nodes_of(new.comments@), path) == Some(
            Node { state: NodeState::Collapsed, ..node_at(nodes_of(old.comments@), path)->0 },
        ),
        node_at(nodes_of(new.comments@), path)->0.child_ids == node_at(
            nodes_of(old.comments@),
            path,
        )->0.child_ids,
        entries_of(new.visible_comments@) == projection(new.comments@),
{
    let ns = nodes_of(old.comments@);
    let n = node_at(ns, path)->0;
    let es = projection(old.comments@);
    let j = first_with_id(es, n.id)->0;
    lemma_first_with_id(es, n.id);
    assert(old.comments@.len() == old.comments.len());
    lemma_projection_locates(old.comments@);
    assert(node_at(ns, es[j].0) == Some(es[j].1));
    lemma_node_at_with_state(ns, path, NodeState::Collapsed);
}

/// Number of entries a node contributes to a projection: itself and, when
/// expanded, its children's entries.
pub open spec fn size(n: Node) -> nat
    decreases n,
{
    1 + match n.state {
        NodeState::Expanded(ch) => sizes(ch),
        _ => 0,
    }
}

/// Number of entries the nodes `ns` contribute to a projection.
pub open spec fn sizes(ns: Seq<Node>) -> nat
    decreases ns,
{
    if ns.len() == 0 {
        0
    } else {
        sizes(ns.drop_last()) + size(ns.last())
    }
}

/// The flattening of a node has `size(n)` entries, wherever it is placed.
pub proof fn lemma_flatten_node_len(n: Node, p: Seq<usize>)
    ensures
        flatten_node(n, p).len() == size(n),
    decreases n,
{
    if let NodeState::Expanded(ch) = n.state {
        lemma_flatten_list_len(ch, p);
    }
}

/// The flattening of `ns` has `sizes(ns)` entries, wherever it is placed.
pub proof fn lemma_flatten_list_len(ns: Seq<Node>, pre: Seq<usize>)
    ensures
        flatten_list(ns, pre).len() == sizes(ns),
    decreases ns,
{
    if ns.len() > 0 {
        lemma_flatten_list_len(ns.drop_last(), pre);
        lemma_flatten_node_len(ns.last(), pre.push((ns.len() - 1) as usize));
    }
}

/// Replacing one node changes the entry count by the difference of sizes.
pub proof fn lemma_sizes_update(ns: Seq<Node>, i: int, x: Node)
    requires
        0 <= i < ns.len(),
    ensures
        sizes(ns.update(i, x)) + size(ns[i]) == sizes(ns) + size(x),
    decreases ns.len(),
{
    let u = ns.update(i, x);
    if i == ns.len() - 1 {
        assert(u.drop_last() =~= ns.drop_last());
    } else {
        assert(u.drop_last() =~= ns.drop_last().update(i, x));
        lemma_sizes_update(ns.drop_last(), i, x);
    }
}

/// A non-empty list of nodes contributes at least one entry.
pub proof fn lemma_sizes_positive(ns: Seq<Node>)
    requires
        ns.len() > 0,
    ensures
        sizes(ns) >= 1,
{
    assert(size(ns.last()) >= 1);
}

/// Collapsing the node below `n` at `q` never adds entries, and removes
/// some when that node had materialized children.
pub proof fn lemma_collapse_below_size(n: Node, q: Seq<usize>)
    ensures
        size(with_state_below(n, q, NodeState::Collapsed)) <= size(n),
        (node_below(n, q) matches Some(m) && m.state matches NodeState::Expanded(ch) && ch.len() > 0)
            ==> size(with_state_below(n, q, NodeState::Collapsed)) < size(n),
    decreases q.len(),
{
    if q.len() == 0 {
        if let NodeState::Expanded(ch) = n.state {
            if ch.len() > 0 {
                lemma_sizes_positive(ch);
            }
        }
    } else {
        if let NodeState::Expanded(ch) = n.state {
            if q[0] < ch.len() {
                let x = with_state_below(ch[q[0] as int], q.drop_first(), NodeState::Collapsed);
                lemma_collapse_below_size(ch[q[0] as int], q.drop_first());
                lemma_sizes_update(ch, q[0] as int, x);
            }
        }
    }
}

/// Collapsing the node at `path` never adds entries to the projection,
/// and removes some when that node had materialized children.
pub proof fn lemma_collapse_size(ns: Seq<Node>, path: Seq<usize>)
    ensures
        sizes(with_state_at(ns, path, NodeState::Collapsed)) <= sizes(ns),
        (node_at(ns, path) matches Some(m) && m.state matches NodeState::Expanded(ch) && ch.len() > 0)
            ==> sizes(with_state_at(ns, path, NodeState::Collapsed)) < sizes(ns),
{
    if path.len() > 0 && path[0] < ns.len() {
        let x = with_state_below(ns[path[0] as int], path.drop_first(), NodeState::Collapsed);
        lemma_collapse_below_size(ns[path[0] as int], path.drop_first());
        lemma_sizes_update(ns, path[0] as int, x);
    }
}

/// Collapsing the current thread of a rebuilt projection never makes the
/// projection longer, and makes it shorter when the collapsed comment had
/// materialized children.
pub proof fn lemma_collapse_thread_shortens(old: App, new: App)
    requires
        thread_collapsed(old, new),
        entries_of(old.visible_comments@) == projection(old.comments@),
        old.comment_cursor < old.visible_comments@.len(),
        exists|d: int| is_open_at(nodes_of(old.comments@), paths_of(old.visible_comments@)[old.comment_cursor as int], d),
    ensures
        new.visible_comments@.len() <= old.visible_comments@.len(),
        ({
            let ns = nodes_of(old.comments@);
            let path = paths_of(old.visible_comments@)[old.comment_cursor as int];
            forall|d: int|
                #![trigger is_open_at(ns, path, d)]
                is_open_at(ns, path, d) && (forall|e: int| d < e < path.len() ==> !is_open_at(ns, path, e))
                    && (node_at(ns, path.take(d + 1))->0.state matches NodeState::Expanded(ch) && ch.len() > 0)
                    ==> new.visible_comments@.len() < old.visible_comments@.len()
        }),
{
    let ns = nodes_of(old.comments@);
    let path = paths_of(old.visible_comments@)[old.comment_cursor as int];
    let d0 = choose|d: int|
        {
            &&& is_open_at(ns, path, d)
            &&& forall|e: int| d < e < path.len() ==> !is_open_at(ns, path, e)
            &&& nodes_of(new.comments@) == with_state_at(ns, path.take(d + 1), NodeState::Collapsed)
        };
    assert(entries_of(old.visible_comments@).len() == old.visible_comments@.len());
    assert(entries_of(new.visible_comments@).len() == new.visible_comments@.len());
    lemma_flatten_list_len(ns, Seq::empty());
    lemma_flatten_list_len(nodes_of(new.comments@), Seq::empty());
    lemma_collapse_size(ns, path.take(d0 + 1));
    assert forall|d: int|
        #![trigger is_open_at(ns, path, d)]
        is_open_at(ns, path, d) && (forall|e: int| d < e < path.len() ==> !is_open_at(ns, path, e))
            && (node_at(ns, path.take(d + 1))->0.state matches NodeState::Expanded(ch) && ch.len() > 0)
            implies new.visible_comments@.len() < old.visible_comments@.len() by {
        if d < d0 {
            assert(!is_open_at(ns, path, d0));
        } else if d > d0 {
            assert(!is_open_at(ns, path, d));
        }
    }
}

} // verus!
