//! Comment trees: the model of a comment and its lazily fetched
//! children, paths into a forest of comments, and the pre-order
//! projection that the cursor moves over.

use vstd::prelude::*;

verus! {

/// Expansion state of a comment's subtree.
#[derive(Debug)]
pub enum CommentState {
    /// Children not fetched
    Collapsed,
    /// Children being fetched
    Loading,
    /// Children fetched and materialized
    Expanded { children: Vec<Comment> },
}

/// A comment of a discussion thread.
#[derive(Debug)]
pub struct Comment {
    pub id: i32,
    pub author: String,
    pub text: String,
    pub time_ago: String,
    pub state: CommentState,
    pub depth: usize,
    pub deleted: bool,
    /// Ids of the child comments, kept across expand and collapse
    pub child_ids: Vec<i32>,
}

/// Mathematical model of a comment's expansion state.
pub ghost enum NodeState {
    Collapsed,
    Loading,
    Expanded(Seq<Node>),
}

/// Mathematical model of a comment.
pub ghost struct Node {
    pub id: i32,
    pub author: Seq<char>,
    pub text: Seq<char>,
    pub time_ago: Seq<char>,
    pub state: NodeState,
    pub depth: usize,
    pub deleted: bool,
    pub child_ids: Seq<i32>,
}

impl Comment {
    /// The model of the comment, with its materialized subtree.
    pub open spec fn node(&self) -> Node
        decreases self,
    {
        Node {
            id: self.id,
            author: self.author@,
            text: self.text@,
            time_ago: self.time_ago@,
            state: match self.state {
                CommentState::Collapsed => NodeState::Collapsed,
                CommentState::Loading => NodeState::Loading,
                CommentState::Expanded { children } => NodeState::Expanded(nodes_of(children@)),
            },
            depth: self.depth,
            deleted: self.deleted,
            child_ids: self.child_ids@,
        }
    }
}

/// Whether every list of children in the model of `n` has a length that a
/// `usize` holds, as it does for any comment.
pub open spec fn fits(n: Node) -> bool
    decreases n,
{
    match n.state {
        NodeState::Expanded(ch) => ch.len() <= usize::MAX && all_fit(ch),
        _ => true,
    }
}

/// Whether each of `ns` fits.
pub open spec fn all_fit(ns: Seq<Node>) -> bool
    decreases ns,
{
    if ns.len() == 0 {
        true
    } else {
        all_fit(ns.drop_last()) && fits(ns.last())
    }
}

/// `all_fit` says that each node fits.
pub proof fn lemma_all_fit(ns: Seq<Node>)
    ensures
        all_fit(ns) <==> forall|i: int| 0 <= i < ns.len() ==> #[trigger] fits(ns[i]),
    decreases ns.len(),
{
    if ns.len() > 0 {
        lemma_all_fit(ns.drop_last());
        if forall|i: int| 0 <= i < ns.len() ==> #[trigger] fits(ns[i]) {
            assert forall|i: int| 0 <= i < ns.drop_last().len() implies #[trigger] fits(ns.drop_last()[i]) by {
                assert(ns.drop_last()[i] == ns[i]);
            }
            assert(fits(ns[ns.len() - 1]));
        }
        if all_fit(ns) {
            assert forall|i: int| 0 <= i < ns.len() implies #[trigger] fits(ns[i]) by {
                if i < ns.len() - 1 {
                    assert(ns.drop_last()[i] == ns[i]);
                }
            }
        }
    }
}

/// The model of a comment fits in machine-sized indices.
pub proof fn lemma_comment_fits(c: Comment)
    ensures
        fits(c.node()),
    decreases c,
{
    if let CommentState::Expanded { children } = c.state {
        lemma_nodes_of_len(children@);
        assert(children@.len() == children.len());
        assert(c.node().state == NodeState::Expanded(nodes_of(children@)));
        lemma_all_fit(nodes_of(children@));
        assert forall|i: int| 0 <= i < nodes_of(children@).len() implies #[trigger] fits(
            nodes_of(children@)[i],
        ) by {
            lemma_nodes_of_index(children@, i);
            assert(decreases_to!(c => c.state));
            assert(decreases_to!(c.state => children));
            assert(decreases_to!(children => children@));
            assert(decreases_to!(children@ => children@[i]));
            lemma_comment_fits(children@[i]);
        }
    }
}

/// The models of a sequence of comments.
pub open spec fn nodes_of(cs: Seq<Comment>) -> Seq<Node>
    decreases cs,
{
    if cs.len() == 0 {
        Seq::empty()
    } else {
        nodes_of(cs.drop_last()).push(cs.last().node())
    }
}

/// The paths of the stored visible entries.
pub open spec fn paths_of(v: Seq<(Vec<usize>, Comment)>) -> Seq<Seq<usize>> {
    v.map_values(|e: (Vec<usize>, Comment)| e.0@)
}

/// Whether `cand` names a sibling of the node at `path` (or that node):
/// the same length and the same parent path.
pub open spec fn is_sibling_path(cand: Seq<usize>, path: Seq<usize>) -> bool {
    path.len() >= 1 && cand.len() == path.len() && cand.take(path.len() - 1) == path.take(
        path.len() - 1,
    )
}

/// Whether `cand` is the parent path of a nested `path`.
pub open spec fn is_parent_path(cand: Seq<usize>, path: Seq<usize>) -> bool {
    path.len() >= 2 && cand == path.take(path.len() - 1)
}

/// Whether the ancestor of depth `d` on `path` (the node at `path[..=d]`)
/// is expanded or loading.
pub open spec fn is_open_at(ns: Seq<Node>, path: Seq<usize>, d: int) -> bool {
    0 <= d < path.len() && match node_at(ns, path.take(d + 1)) {
        Some(n) => n.state is Expanded || n.state is Loading,
        None => false,
    }
}

/// A copy of a string with the same characters.
fn copy_string(s: &String) -> (r: String)
    ensures
        r@ == s@,
{
    s.clone()
}

/// A copy of a list of ids.
pub fn copy_ids(v: &Vec<i32>) -> (r: Vec<i32>)
    ensures
        r@ == v@,
{
    let mut r: Vec<i32> = Vec::new();
    let mut i: usize = 0;
    while i < v.len()
        invariant
            i <= v.len(),
            r@ == v@.take(i as int),
        decreases v.len() - i,
    {
        r.push(v[i]);
        i += 1;
        assert(r@ =~= v@.take(i as int));
    }
    assert(r@ =~= v@);
    r
}

impl Comment {
    /// Whether the comment has children, fetched or not.
    pub fn has_children(&self) -> (r: bool)
        ensures
            r == (self.child_ids@.len() > 0),
    {
        !self.child_ids.is_empty()
    }

    /// Number of children, fetched or not.
    pub fn child_count(&self) -> (r: usize)
        ensures
            r == self.child_ids@.len(),
    {
        self.child_ids.len()
    }

    /// Whether the children are materialized.
    pub fn is_expanded(&self) -> (r: bool)
        ensures
            r == (self.state is Expanded),
    {
        match self.state {
            CommentState::Expanded { .. } => true,
            _ => false,
        }
    }

    /// Whether the children are being fetched.
    pub fn is_loading(&self) -> (r: bool)
        ensures
            r == (self.state is Loading),
    {
        match self.state {
            CommentState::Loading => true,
            _ => false,
        }
    }

    /// A deep copy of the comment and its materialized subtree.
    pub fn deep_copy(&self) -> (r: Comment)
        ensures
            r.node() == self.node(),
        decreases self,
    {
        let state = match &self.state {
            CommentState::Collapsed => CommentState::Collapsed,
            CommentState::Loading => CommentState::Loading,
            CommentState::Expanded { children } => {
                let mut copies: Vec<Comment> = Vec::new();
                let mut i: usize = 0;
                while i < children.len()
                    invariant
                        i <= children.len(),
                        nodes_of(copies@) == nodes_of(children@.take(i as int)),
                        copies@.len() == i,
                        self.state is Expanded,
                        self.state->children == *children,
                    decreases children.len() - i,
                {
                    proof {
                        let st = self.state;
                        let ch = st->children;
                        assert(decreases_to!(*self => st));
                        assert(decreases_to!(st => ch));
                        assert(decreases_to!(ch => ch@));
                        assert(decreases_to!(ch@ => ch@[i as int]));
                    }
                    let c = children[i].deep_copy();
                    let ghost prev = copies@;
                    copies.push(c);
                    proof {
                        assert(copies@.drop_last() =~= prev);
                        assert(children@.take(i + 1).drop_last() =~= children@.take(i as int));
                    }
                    i += 1;
                }
                assert(children@.take(children.len() as int) =~= children@);
                CommentState::Expanded { children: copies }
            },
        };
        Comment {
            id: self.id,
            author: copy_string(&self.author),
            text: copy_string(&self.text),
            time_ago: copy_string(&self.time_ago),
            state,
            depth: self.depth,
            deleted: self.deleted,
            child_ids: copy_ids(&self.child_ids),
        }
    }
}

impl Clone for Comment {
    fn clone(&self) -> (r: Self)
        ensures
            r.node() == self.node(),
    {
        self.deep_copy()
    }
}

/// One entry of the visible projection: a path and the node found there.
pub type Entry = (Seq<usize>, Node);

/// Pre-order flattening of a node placed at `path`: the node, then, only
/// when it is expanded, each child with the path extended by its index.
pub open spec fn flatten_node(n: Node, path: Seq<usize>) -> Seq<Entry>
    decreases n,
{
    seq![(path, n)] + match n.state {
        NodeState::Expanded(children) => flatten_list(children, path),
        _ => Seq::empty(),
    }
}

/// Pre-order flattening of the nodes `ns`, children of the node at `prefix`.
pub open spec fn flatten_list(ns: Seq<Node>, prefix: Seq<usize>) -> Seq<Entry>
    decreases ns,
{
    if ns.len() == 0 {
        Seq::empty()
    } else {
        flatten_list(ns.drop_last(), prefix) + flatten_node(
            ns.last(),
            prefix.push((ns.len() - 1) as usize),
        )
    }
}

/// The projection of a whole comment forest.
pub open spec fn projection(comments: Seq<Comment>) -> Seq<Entry> {
    flatten_list(nodes_of(comments), Seq::empty())
}

/// The model of the stored visible entries.
pub open spec fn entries_of(v: Seq<(Vec<usize>, Comment)>) -> Seq<Entry> {
    v.map_values(|e: (Vec<usize>, Comment)| (e.0@, e.1.node()))
}

proof fn lemma_nodes_of_take(cs: Seq<Comment>, i: int)
    requires
        0 <= i < cs.len(),
    ensures
        nodes_of(cs.take(i + 1)) == nodes_of(cs.take(i)).push(cs[i].node()),
        nodes_of(cs.take(i + 1)).len() == i + 1,
{
    assert(cs.take(i + 1).drop_last() =~= cs.take(i));
    lemma_nodes_of_len(cs.take(i + 1));
}

pub proof fn lemma_nodes_of_len(cs: Seq<Comment>)
    ensures
        nodes_of(cs).len() == cs.len(),
    decreases cs.len(),
{
    if cs.len() > 0 {
        lemma_nodes_of_len(cs.drop_last());
    }
}

/// The model of the `i`-th comment is the `i`-th model.
pub proof fn lemma_nodes_of_index(cs: Seq<Comment>, i: int)
    requires
        0 <= i < cs.len(),
    ensures
        nodes_of(cs).len() == cs.len(),
        nodes_of(cs)[i] == cs[i].node(),
    decreases cs.len(),
{
    lemma_nodes_of_len(cs);
    if i < cs.len() - 1 {
        lemma_nodes_of_index(cs.drop_last(), i);
    }
}

/// The model of an expansion state.
pub open spec fn state_node(s: CommentState) -> NodeState {
    match s {
        CommentState::Collapsed => NodeState::Collapsed,
        CommentState::Loading => NodeState::Loading,
        CommentState::Expanded { children } => NodeState::Expanded(nodes_of(children@)),
    }
}

/// The node reached from `n` by following the indices `q` through
/// expanded children; none when a node on the way is not expanded or an
/// index is out of range.
pub open spec fn node_below(n: Node, q: Seq<usize>) -> Option<Node>
    decreases q.len(),
{
    if q.len() == 0 {
        Some(n)
    } else {
        match n.state {
            NodeState::Expanded(ch) => if q[0] < ch.len() {
                node_below(ch[q[0] as int], q.drop_first())
            } else {
                None
            },
            _ => None,
        }
    }
}

/// The node at `path` in the forest `ns`.
pub open spec fn node_at(ns: Seq<Node>, path: Seq<usize>) -> Option<Node> {
    if path.len() == 0 || path[0] >= ns.len() {
        None
    } else {
        node_below(ns[path[0] as int], path.drop_first())
    }
}

/// `n` with the state of the node below it at `q` replaced by `st`; `n`
/// itself when `q` leads nowhere.
pub open spec fn with_state_below(n: Node, q: Seq<usize>, st: NodeState) -> Node
    decreases q.len(),
{
    if q.len() == 0 {
        Node { state: st, ..n }
    } else {
        match n.state {
            NodeState::Expanded(ch) => if q[0] < ch.len() {
                Node {
                    state: NodeState::Expanded(
                        ch.update(q[0] as int, with_state_below(ch[q[0] as int], q.drop_first(), st)),
                    ),
                    ..n
                }
            } else {
                n
            },
            _ => n,
        }
    }
}

/// The forest `ns` with the state of the node at `path` replaced by `st`.
pub open spec fn with_state_at(ns: Seq<Node>, path: Seq<usize>, st: NodeState) -> Seq<Node> {
    if path.len() == 0 || path[0] >= ns.len() {
        ns
    } else {
        ns.update(path[0] as int, with_state_below(ns[path[0] as int], path.drop_first(), st))
    }
}

/// Replacing one comment replaces its model.
pub proof fn lemma_nodes_of_update(cs: Seq<Comment>, i: int, c: Comment)
    requires
        0 <= i < cs.len(),
    ensures
        nodes_of(cs.update(i, c)) == nodes_of(cs).update(i, c.node()),
{
    lemma_nodes_of_len(cs);
    lemma_nodes_of_len(cs.update(i, c));
    assert forall|j: int| 0 <= j < cs.len() implies nodes_of(cs.update(i, c))[j] == nodes_of(
        cs,
    ).update(i, c.node())[j] by {
        lemma_nodes_of_index(cs.update(i, c), j);
        lemma_nodes_of_index(cs, j);
    }
    assert(nodes_of(cs.update(i, c)) =~= nodes_of(cs).update(i, c.node()));
}

/// The comment reached from `c` by the indices `path[k..n]`.
pub(crate) fn comment_below<'a>(c: &'a Comment, path: &Vec<usize>, k: usize, n: usize) -> (r: Option<&'a Comment>)
    requires
        k <= n <= path@.len(),
    ensures
        match r {
            Some(x) => node_below(c.node(), path@.subrange(k as int, n as int)) == Some(x.node()),
            None => node_below(c.node(), path@.subrange(k as int, n as int)) is None,
        },
    decreases n - k,
{
    if k == n {
        return Some(c);
    }
    let ghost q = path@.subrange(k as int, n as int);
    assert(q.drop_first() =~= path@.subrange(k + 1, n as int));
    match &c.state {
        CommentState::Expanded { children } => {
            let i = path[k];
            if i < children.len() {
                proof {
                    lemma_nodes_of_index(children@, i as int);
                }
                comment_below(&children[i], path, k + 1, n)
            } else {
                proof {
                    lemma_nodes_of_len(children@);
                }
                None
            }
        },
        _ => None,
    }
}

/// Replaces the state of the comment reached from `c` by `path[k..n]`.
pub(crate) fn set_state_below(c: &mut Comment, path: &Vec<usize>, k: usize, n: usize, st: CommentState)
    requires
        k <= n <= path@.len(),
    ensures
        final(c).node() == with_state_below(
            old(c).node(),
            path@.subrange(k as int, n as int),
            state_node(st),
        ),
    decreases n - k,
{
    if k == n {
        c.state = st;
        return;
    }
    let ghost q = path@.subrange(k as int, n as int);
    assert(q.drop_first() =~= path@.subrange(k + 1, n as int));
    match &mut c.state {
        CommentState::Expanded { children } => {
            let i = path[k];
            if i < children.len() {
                let ghost before = children@;
                proof {
                    lemma_nodes_of_index(before, i as int);
                }
                set_state_below(&mut children[i], path, k + 1, n, st);
                proof {
                    lemma_nodes_of_update(before, i as int, children@[i as int]);
                }
            } else {
                proof {
                    lemma_nodes_of_len(children@);
                }
            }
        },
        _ => {},
    }
}

/// A copy of a path.
pub(crate) fn copy_path(v: &Vec<usize>) -> (r: Vec<usize>)
    ensures
        r@ == v@,
{
    let mut r: Vec<usize> = Vec::new();
    let mut i: usize = 0;
    while i < v.len()
        invariant
            i <= v.len(),
            r@ == v@.take(i as int),
        decreases v.len() - i,
    {
        r.push(v[i]);
        i += 1;
        assert(r@ =~= v@.take(i as int));
    }
    assert(r@ =~= v@);
    r
}

/// A copy of a list of comments.
pub fn copy_comments(v: &Vec<Comment>) -> (r: Vec<Comment>)
    ensures
        nodes_of(r@) == nodes_of(v@),
{
    let mut r: Vec<Comment> = Vec::new();
    let mut i: usize = 0;
    while i < v.len()
        invariant
            i <= v.len(),
            r@.len() == i,
            nodes_of(r@) == nodes_of(v@.take(i as int)),
        decreases v.len() - i,
    {
        let ghost prev = r@;
        r.push(v[i].deep_copy());
        proof {
            assert(r@.drop_last() =~= prev);
            lemma_nodes_of_take(v@, i as int);
        }
        i += 1;
    }
    assert(v@.take(v.len() as int) =~= v@);
    r
}

/// The visible projection of a comment forest.
pub fn flatten_comments(comments: &Vec<Comment>) -> (r: Vec<(Vec<usize>, Comment)>)
    ensures
        entries_of(r@) == projection(comments@),
{
    let mut r: Vec<(Vec<usize>, Comment)> = Vec::new();
    let mut i: usize = 0;
    while i < comments.len()
        invariant
            i <= comments.len(),
            entries_of(r@) == flatten_list(nodes_of(comments@.take(i as int)), Seq::empty()),
        decreases comments.len() - i,
    {
        let mut path: Vec<usize> = Vec::new();
        path.push(i);
        add_visible_comment_recursive(&mut r, path, &comments[i]);
        proof {
            lemma_nodes_of_take(comments@, i as int);
            let ns = nodes_of(comments@.take(i + 1));
            assert(ns.drop_last() == nodes_of(comments@.take(i as int)));
            assert(Seq::<usize>::empty().push(i) =~= seq![i]);
        }
        i += 1;
    }
    assert(comments@.take(comments.len() as int) =~= comments@);
    r
}

/// Whether two paths agree on their first `n` indices.
fn same_prefix(a: &Vec<usize>, b: &Vec<usize>, n: usize) -> (r: bool)
    requires
        n <= a@.len(),
        n <= b@.len(),
    ensures
        r == (a@.take(n as int) == b@.take(n as int)),
{
    let mut i: usize = 0;
    while i < n
        invariant
            i <= n <= a@.len(),
            n <= b@.len(),
            a@.take(i as int) == b@.take(i as int),
        decreases n - i,
    {
        if a[i] != b[i] {
            assert(a@.take(n as int)[i as int] != b@.take(n as int)[i as int]);
            return false;
        }
        i += 1;
        assert(a@.take(i as int) =~= b@.take(i as int));
    }
    true
}

fn is_sibling(cand: &Vec<usize>, path: &Vec<usize>) -> (r: bool)
    ensures
        r == is_sibling_path(cand@, path@),
{
    if path.len() == 0 || cand.len() != path.len() {
        false
    } else {
        same_prefix(cand, path, path.len() - 1)
    }
}

fn is_parent(cand: &Vec<usize>, path: &Vec<usize>) -> (r: bool)
    ensures
        r == is_parent_path(cand@, path@),
{
    if path.len() < 2 || cand.len() != path.len() - 1 {
        false
    } else {
        let r = same_prefix(cand, path, cand.len());
        assert(cand@.take(cand@.len() as int) =~= cand@);
        r
    }
}

/// Index of the nearest entry after `c` that is a sibling of entry `c`.
pub(crate) fn next_sibling_index(v: &Vec<(Vec<usize>, Comment)>, c: usize) -> (r: Option<usize>)
    ensures
        ({
            let ps = paths_of(v@);
            if c < ps.len() && exists|j: int| c < j < ps.len() && is_sibling_path(ps[j], ps[c as int]) {
                &&& r matches Some(n)
                &&& c < n < ps.len()
                &&& is_sibling_path(ps[n as int], ps[c as int])
                &&& forall|k: int| c < k < n ==> !is_sibling_path(ps[k], ps[c as int])
            } else {
                r is None
            }
        }),
{
    let ghost ps = paths_of(v@);
    if c >= v.len() {
        return None;
    }
    let mut idx: usize = c + 1;
    while idx < v.len()
        invariant
            c < v@.len(),
            c < idx <= v@.len(),
            ps == paths_of(v@),
            forall|k: int| c < k < idx ==> !is_sibling_path(ps[k], ps[c as int]),
        decreases v@.len() - idx,
    {
        if is_sibling(&v[idx].0, &v[c].0) {
            assert(is_sibling_path(ps[idx as int], ps[c as int]));
            return Some(idx);
        }
        idx += 1;
    }
    None
}

/// Index of the nearest entry before `c` that is a sibling of entry `c`.
pub(crate) fn prev_sibling_index(v: &Vec<(Vec<usize>, Comment)>, c: usize) -> (r: Option<usize>)
    ensures
        ({
            let ps = paths_of(v@);
            if c < ps.len() && exists|j: int| 0 <= j < c && is_sibling_path(ps[j], ps[c as int]) {
                &&& r matches Some(n)
                &&& n < c
                &&& is_sibling_path(ps[n as int], ps[c as int])
                &&& forall|k: int| n < k < c ==> !is_sibling_path(ps[k], ps[c as int])
            } else {
                r is None
            }
        }),
{
    let ghost ps = paths_of(v@);
    if c >= v.len() {
        return None;
    }
    let mut idx: usize = c;
    while idx > 0
        invariant
            c < v@.len(),
            idx <= c,
            ps == paths_of(v@),
            forall|k: int| idx <= k < c ==> !is_sibling_path(ps[k], ps[c as int]),
        decreases idx,
    {
        idx -= 1;
        if is_sibling(&v[idx].0, &v[c].0) {
            assert(is_sibling_path(ps[idx as int], ps[c as int]));
            return Some(idx);
        }
    }
    None
}

/// Index of the first entry whose path is the parent path of entry `c`.
pub(crate) fn parent_index(v: &Vec<(Vec<usize>, Comment)>, c: usize) -> (r: Option<usize>)
    ensures
        ({
            let ps = paths_of(v@);
            if c < ps.len() && exists|j: int| 0 <= j < ps.len() && is_parent_path(ps[j], ps[c as int]) {
                &&& r matches Some(n)
                &&& n < ps.len()
                &&& is_parent_path(ps[n as int], ps[c as int])
                &&& forall|k: int| 0 <= k < n ==> !is_parent_path(ps[k], ps[c as int])
            } else {
                r is None
            }
        }),
{
    let ghost ps = paths_of(v@);
    if c >= v.len() {
        return None;
    }
    let mut idx: usize = 0;
    while idx < v.len()
        invariant
            c < v@.len(),
            idx <= v@.len(),
            ps == paths_of(v@),
            forall|k: int| 0 <= k < idx ==> !is_parent_path(ps[k], ps[c as int]),
        decreases v@.len() - idx,
    {
        if is_parent(&v[idx].0, &v[c].0) {
            assert(is_parent_path(ps[idx as int], ps[c as int]));
            return Some(idx);
        }
        idx += 1;
    }
    None
}

/// Appends the flattening of `comment`, placed at `path`, to `visible`.
fn add_visible_comment_recursive(
    visible: &mut Vec<(Vec<usize>, Comment)>,
    path: Vec<usize>,
    comment: &Comment,
)
    ensures
        entries_of(final(visible)@) == entries_of(old(visible)@) + flatten_node(comment.node(), path@),
    decreases comment,
{
    let ghost start = entries_of(visible@);
    let ghost p = path@;
    visible.push((copy_path(&path), comment.deep_copy()));
    proof {
        assert(entries_of(visible@) =~= start + seq![(p, comment.node())]);
    }
    match &comment.state {
        CommentState::Expanded { children } => {
            let mut i: usize = 0;
            while i < children.len()
                invariant
                    i <= children.len(),
                    comment.state is Expanded,
                    comment.state->children == *children,
                    path@ == p,
                    entries_of(visible@) == start + seq![(p, comment.node())] + flatten_list(
                        nodes_of(children@.take(i as int)),
                        p,
                    ),
                decreases children.len() - i,
            {
                proof {
                    let st = comment.state;
                    let ch = st->children;
                    assert(decreases_to!(*comment => st));
                    assert(decreases_to!(st => ch));
                    assert(decreases_to!(ch => ch@));
                    assert(decreases_to!(ch@ => ch@[i as int]));
                }
                let mut child_path = copy_path(&path);
                child_path.push(i);
                add_visible_comment_recursive(visible, child_path, &children[i]);
                proof {
                    lemma_nodes_of_take(children@, i as int);
                    let ns = nodes_of(children@.take(i + 1));
                    assert(ns.drop_last() == nodes_of(children@.take(i as int)));
                    assert(ns.last() == children@[i as int].node());
                    assert(p.push(i) == child_path@);
                    assert(entries_of(visible@) =~= start + seq![(p, comment.node())] + flatten_list(ns, p));
                }
                i += 1;
            }
            proof {
                assert(children@.take(children.len() as int) =~= children@);
            }
        },
        _ => {
            assert(entries_of(visible@) =~= entries_of(old(visible)@) + flatten_node(comment.node(), path@));
        },
    }
}

} // verus!
