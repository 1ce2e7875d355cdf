//! Directed graphs as link matrices: what is reachable from a node, and the
//! strongly connected components.

use vstd::prelude::*;

verus! {

/// The rows of a matrix as sequences.
pub open spec fn rows_view(m: Seq<Vec<bool>>) -> Seq<Seq<bool>> {
    m.map_values(|r: Vec<bool>| r@)
}

/// Whether every row of `g` is as long as `g` has rows.
pub open spec fn is_square(g: Seq<Seq<bool>>) -> bool {
    forall|a: int| 0 <= a < g.len() ==> (#[trigger] g[a]).len() == g.len()
}

/// Whether the graph `g` has a link from node `a` to node `b`.
pub open spec fn linked(g: Seq<Seq<bool>>, a: int, b: int) -> bool {
    0 <= a < g.len() && 0 <= b < g[a].len() && b < g.len() && g[a][b]
}

/// Whether `w` is a walk in `g`: at least two nodes, each linked to the next.
pub open spec fn is_walk(g: Seq<Seq<bool>>, w: Seq<int>) -> bool {
    w.len() >= 2 && forall|i: int| 0 <= i < w.len() - 1 ==> linked(g, #[trigger] w[i], w[i + 1])
}

/// Whether a walk of at least one link leads from `a` to `b`.
pub open spec fn reaches(g: Seq<Seq<bool>>, a: int, b: int) -> bool {
    exists|w: Seq<int>| is_walk(g, w) && w.first() == a && w.last() == b
}

/// Whether each of two nodes reaches the other.
pub open spec fn mutual(g: Seq<Seq<bool>>, a: int, b: int) -> bool {
    reaches(g, a, b) && reaches(g, b, a)
}

/// Whether two nodes are the same or reach each other.
pub open spec fn connected(g: Seq<Seq<bool>>, a: int, b: int) -> bool {
    a == b || mutual(g, a, b)
}

/// A node is the root of its component if no node before it is connected to it.
pub open spec fn is_root(g: Seq<Seq<bool>>, r: int) -> bool {
    forall|q: int| 0 <= q < r ==> !mutual(g, q, r)
}

/// The component of the root `r` as far as the nodes below `upto` go: `r`
/// itself, then the nodes after it that it is connected to, ascending.
pub open spec fn class_upto(g: Seq<Seq<bool>>, r: int, upto: int) -> Seq<int>
    decreases upto - r,
{
    if upto <= r + 1 {
        seq![r]
    } else {
        let before = class_upto(g, r, upto - 1);
        if mutual(g, r, upto - 1) {
            before.push(upto - 1)
        } else {
            before
        }
    }
}

/// The components of the roots below `upto`, in ascending order of the roots.
pub open spec fn components_upto(g: Seq<Seq<bool>>, upto: int) -> Seq<Seq<int>>
    decreases upto,
{
    if upto <= 0 {
        Seq::empty()
    } else {
        let before = components_upto(g, upto - 1);
        if is_root(g, upto - 1) {
            before.push(class_upto(g, upto - 1, g.len() as int))
        } else {
            before
        }
    }
}

/// The strongly connected components of `g`: the classes of nodes that are
/// connected to each other, each class ascending, the classes in ascending
/// order of their least nodes.
pub open spec fn components(g: Seq<Seq<bool>>) -> Seq<Seq<int>> {
    components_upto(g, g.len() as int)
}

/// A link is a walk.
pub proof fn lemma_link_reaches(g: Seq<Seq<bool>>, a: int, b: int)
    requires
        linked(g, a, b),
    ensures
        reaches(g, a, b),
{
    let w = seq![a, b];
    assert(is_walk(g, w));
    assert(w.first() == a && w.last() == b);
}

/// A walk followed by a walk is a walk.
pub proof fn lemma_reaches_transitive(g: Seq<Seq<bool>>, a: int, b: int, c: int)
    requires
        reaches(g, a, b),
        reaches(g, b, c),
    ensures
        reaches(g, a, c),
{
    let w1 = choose|w: Seq<int>| is_walk(g, w) && w.first() == a && w.last() == b;
    let w2 = choose|w: Seq<int>| is_walk(g, w) && w.first() == b && w.last() == c;
    let w = w1 + w2.skip(1);
    assert forall|i: int| 0 <= i < w.len() - 1 implies linked(g, #[trigger] w[i], w[i + 1]) by {
        if i < w1.len() - 1 {
            assert(w[i] == w1[i] && w[i + 1] == w1[i + 1]);
        } else if i == w1.len() - 1 {
            assert(w[i] == w1.last());
            assert(w[i + 1] == w2[1]);
            assert(w2[0] == b);
            assert(linked(g, w2[0], w2[1]));
        } else {
            let k = i - w1.len() + 1;
            assert(w[i] == w2[k] && w[i + 1] == w2[k + 1]);
        }
    }
    assert(is_walk(g, w));
    assert(w.first() == a && w.last() == c);
}

/// Being connected is transitive.
pub proof fn lemma_connected_transitive(g: Seq<Seq<bool>>, a: int, b: int, c: int)
    requires
        connected(g, a, b),
        connected(g, b, c),
    ensures
        connected(g, a, c),
{
    if a != b && b != c {
        lemma_reaches_transitive(g, a, b, c);
        lemma_reaches_transitive(g, c, b, a);
    }
}

/// In a walk every node reaches every later one.
pub proof fn lemma_walk_reaches(g: Seq<Seq<bool>>, w: Seq<int>, i: int, j: int)
    requires
        is_walk(g, w),
        0 <= i < j < w.len(),
    ensures
        reaches(g, w[i], w[j]),
{
    let part = w.subrange(i, j + 1);
    assert forall|k: int| 0 <= k < part.len() - 1 implies linked(g, #[trigger] part[k], part[k + 1]) by {
        assert(part[k] == w[i + k] && part[k + 1] == w[i + k + 1]);
    }
    assert(is_walk(g, part));
    assert(part.first() == w[i] && part.last() == w[j]);
}

/// The nodes of a walk that ends where it begins are connected to each other.
pub proof fn lemma_closed_walk_mutual(g: Seq<Seq<bool>>, w: Seq<int>, i: int)
    requires
        is_walk(g, w),
        w.first() == w.last(),
        0 <= i < w.len() - 1,
    ensures
        mutual(g, w[i], w[i + 1]),
{
    let last = w.len() - 1;
    lemma_walk_reaches(g, w, i, i + 1);
    if i + 1 == last {
        if i == 0 {
        } else {
            lemma_walk_reaches(g, w, 0, i);
        }
    } else {
        lemma_walk_reaches(g, w, i + 1, last);
        if i == 0 {
        } else {
            lemma_walk_reaches(g, w, 0, i);
            lemma_reaches_transitive(g, w[i + 1], w[0], w[i]);
        }
    }
}

/// A set of nodes that holds what `s` links to and, with a node, all that
/// the node links to, holds every node of a walk from `s` but the first.
pub proof fn lemma_closed_holds_walk(g: Seq<Seq<bool>>, s: int, seen: Seq<bool>, w: Seq<int>, k: int)
    requires
        is_walk(g, w),
        w.first() == s,
        1 <= k < w.len(),
        seen.len() == g.len(),
        forall|b: int| linked(g, s, b) ==> seen[b],
        forall|u: int, v: int| 0 <= u < seen.len() && seen[u] && #[trigger] linked(g, u, v) ==> seen[v],
    ensures
        0 <= w[k] < seen.len() && seen[w[k]],
    decreases k,
{
    if k == 1 {
        assert(linked(g, w[0], w[1]));
    } else {
        lemma_closed_holds_walk(g, s, seen, w, k - 1);
        assert(linked(g, w[k - 1], w[k]));
    }
}

/// How many entries of `s` are false.
pub open spec fn count_false(s: Seq<bool>) -> nat
    decreases s.len(),
{
    if s.len() == 0 {
        0
    } else {
        count_false(s.drop_last()) + if s.last() {
            0nat
        } else {
            1nat
        }
    }
}

/// Setting a false entry leaves one false entry fewer.
pub proof fn lemma_count_false_update(s: Seq<bool>, i: int)
    requires
        0 <= i < s.len(),
        !s[i],
    ensures
        count_false(s.update(i, true)) + 1 == count_false(s),
    decreases s.len(),
{
    let t = s.update(i, true);
    if i == s.len() - 1 {
        assert(t.drop_last() =~= s.drop_last());
    } else {
        lemma_count_false_update(s.drop_last(), i);
        assert(t.drop_last() =~= s.drop_last().update(i, true));
    }
}

/// What a component holds: its root first, then, ascending, exactly the
/// later nodes that the root is connected to.
pub proof fn lemma_class(g: Seq<Seq<bool>>, r: int, upto: int)
    requires
        0 <= r < upto,
    ensures
        class_upto(g, r, upto).len() >= 1,
        class_upto(g, r, upto)[0] == r,
        forall|i: int|
            0 <= i < class_upto(g, r, upto).len() ==> r <= (#[trigger] class_upto(g, r, upto)[i])
                < upto,
        forall|i: int|
            0 <= i < class_upto(g, r, upto).len() ==> connected(
                g,
                r,
                #[trigger] class_upto(g, r, upto)[i],
            ),
        forall|i: int, j: int|
            0 <= i < j < class_upto(g, r, upto).len() ==> (#[trigger] class_upto(g, r, upto)[i])
                < (#[trigger] class_upto(g, r, upto)[j]),
        forall|x: int|
            r < x < upto && mutual(g, r, x) ==> exists|i: int|
                0 <= i < class_upto(g, r, upto).len() && #[trigger] class_upto(g, r, upto)[i] == x,
    decreases upto - r,
{
    if upto > r + 1 {
        lemma_class(g, r, upto - 1);
        let before = class_upto(g, r, upto - 1);
        let now = class_upto(g, r, upto);
        assert forall|x: int| r < x < upto && mutual(g, r, x) implies exists|i: int|
            0 <= i < now.len() && #[trigger] now[i] == x by {
            if x == upto - 1 {
                assert(now[now.len() - 1] == x);
            } else {
                let i = choose|i: int| 0 <= i < before.len() && #[trigger] before[i] == x;
                assert(now[i] == x);
            }
        }
    }
}

/// The component of every root below `upto` is among the components of the
/// roots below `upto`.
pub proof fn lemma_root_has_component(g: Seq<Seq<bool>>, r: int, upto: int)
    requires
        0 <= r < upto,
        is_root(g, r),
    ensures
        exists|c: int|
            0 <= c < components_upto(g, upto).len() && #[trigger] components_upto(g, upto)[c]
                == class_upto(g, r, g.len() as int),
    decreases upto,
{
    let now = components_upto(g, upto);
    if r == upto - 1 {
        assert(now[now.len() - 1] == class_upto(g, r, g.len() as int));
    } else {
        lemma_root_has_component(g, r, upto - 1);
        let before = components_upto(g, upto - 1);
        let c = choose|c: int|
            0 <= c < before.len() && #[trigger] before[c] == class_upto(g, r, g.len() as int);
        assert(now[c] == class_upto(g, r, g.len() as int));
    }
}

/// Every one of the components of the roots below `upto` is the component
/// of such a root.
pub proof fn lemma_component_has_root(g: Seq<Seq<bool>>, upto: int, c: int)
    requires
        0 <= c < components_upto(g, upto).len(),
    ensures
        exists|r: int|
            0 <= r < upto && is_root(g, r) && components_upto(g, upto)[c] == #[trigger] class_upto(
                g,
                r,
                g.len() as int,
            ),
    decreases upto,
{
    if upto > 0 {
        let before = components_upto(g, upto - 1);
        if c < before.len() {
            lemma_component_has_root(g, upto - 1, c);
        } else {
            assert(components_upto(g, upto)[c] == class_upto(g, upto - 1, g.len() as int));
        }
    }
}

/// Every node is connected to a root that is not after it.
pub proof fn lemma_node_has_root(g: Seq<Seq<bool>>, a: int) -> (r: int)
    requires
        0 <= a,
    ensures
        0 <= r <= a,
        is_root(g, r),
        connected(g, r, a),
    decreases a,
{
    if is_root(g, a) {
        a
    } else {
        let q = choose|q: int| 0 <= q < a && mutual(g, q, a);
        let r = lemma_node_has_root(g, q);
        lemma_connected_transitive(g, r, q, a);
        r
    }
}

/// The nodes of the components are nodes of the graph, and within a
/// component they ascend.
pub proof fn lemma_components_hold_nodes(g: Seq<Seq<bool>>)
    ensures
        forall|c: int, i: int|
            0 <= c < components(g).len() && 0 <= i < components(g)[c].len() ==> 0 <= (
            #[trigger] components(g)[c][i]) < g.len(),
        forall|c: int| 0 <= c < components(g).len() ==> (#[trigger] components(g)[c]).len() >= 1,
        forall|c: int, i: int, j: int|
            0 <= c < components(g).len() && 0 <= i < j < components(g)[c].len() ==> (
            #[trigger] components(g)[c][i]) < (#[trigger] components(g)[c][j]),
        forall|c: int, i: int, j: int|
            0 <= c < components(g).len() && 0 <= i < components(g)[c].len() && 0 <= j
                < components(g)[c].len() ==> connected(
                g,
                #[trigger] components(g)[c][i],
                #[trigger] components(g)[c][j],
            ),
{
    let n = g.len() as int;
    assert forall|c: int| 0 <= c < components(g).len() implies {
        &&& (#[trigger] components(g)[c]).len() >= 1
        &&& forall|i: int|
            0 <= i < components(g)[c].len() ==> 0 <= (#[trigger] components(g)[c][i]) < n
        &&& forall|i: int, j: int|
            0 <= i < j < components(g)[c].len() ==> (#[trigger] components(g)[c][i]) < (
            #[trigger] components(g)[c][j])
        &&& forall|i: int, j: int|
            0 <= i < components(g)[c].len() && 0 <= j < components(g)[c].len() ==> connected(
                g,
                #[trigger] components(g)[c][i],
                #[trigger] components(g)[c][j],
            )
    } by {
        lemma_component_has_root(g, n, c);
        let r = choose|r: int|
            0 <= r < n && is_root(g, r) && components_upto(g, n)[c] == #[trigger] class_upto(
                g,
                r,
                n,
            );
        lemma_class(g, r, n);
        let cl = components(g)[c];
        assert forall|i: int, j: int| 0 <= i < cl.len() && 0 <= j < cl.len() implies connected(
            g,
            #[trigger] cl[i],
            #[trigger] cl[j],
        ) by {
            let x = cl[i];
            let y = cl[j];
            assert(connected(g, r, x));
            assert(connected(g, r, y));
            lemma_connected_transitive(g, x, r, y);
        }
    }
}

/// Two connected nodes stand in one component, the lesser node not after
/// the greater.
pub proof fn lemma_connected_share_component(g: Seq<Seq<bool>>, a: int, b: int)
    requires
        0 <= a <= b < g.len(),
        connected(g, a, b),
    ensures
        exists|c: int, i: int, j: int|
            0 <= c < components(g).len() && 0 <= i <= j < components(g)[c].len() && (
            #[trigger] components(g)[c][i]) == a && (#[trigger] components(g)[c][j]) == b,
{
    let n = g.len() as int;
    let r = lemma_node_has_root(g, a);
    lemma_connected_transitive(g, r, a, b);
    lemma_root_has_component(g, r, n);
    let c = choose|c: int|
        0 <= c < components_upto(g, n).len() && #[trigger] components_upto(g, n)[c] == class_upto(
            g,
            r,
            n,
        );
    lemma_class(g, r, n);
    let cl = class_upto(g, r, n);
    let i = if a == r {
        0int
    } else {
        choose|i: int| 0 <= i < cl.len() && #[trigger] cl[i] == a
    };
    let j = if b == r {
        0int
    } else {
        choose|j: int| 0 <= j < cl.len() && #[trigger] cl[j] == b
    };
    assert(cl[i] == a && cl[j] == b);
    if i > j {
        assert(cl[j] < cl[i]);
    }
    assert(components(g)[c][i] == a && components(g)[c][j] == b);
}

/// The nodes that `s` reaches by a walk of at least one link.
pub fn reach_from(links: &Vec<Vec<bool>>, s: usize) -> (r: Vec<bool>)
    requires
        is_square(rows_view(links@)),
        s < links@.len(),
    ensures
        r@.len() == links@.len(),
        forall|v: int| 0 <= v < r@.len() ==> (r@[v] <==> reaches(rows_view(links@), s as int, v)),
{
    let ghost g = rows_view(links@);
    let n = links.len();
    let mut seen: Vec<bool> = Vec::new();
    let mut i: usize = 0;
    while i < n
        invariant
            i <= n,
            seen@.len() == i,
            forall|v: int| 0 <= v < i ==> !seen@[v],
        decreases n - i,
    {
        seen.push(false);
        i += 1;
    }
    let mut stack: Vec<usize> = Vec::new();
    let mut b: usize = 0;
    while b < n
        invariant
            b <= n,
            n == links@.len(),
            s < n,
            g == rows_view(links@),
            is_square(g),
            seen@.len() == n,
            forall|x: int| 0 <= x < stack@.len() ==> stack@[x] < n && seen@[stack@[x] as int],
            forall|v: int| 0 <= v < n && seen@[v] ==> reaches(g, s as int, v),
            forall|v: int| 0 <= v < n && seen@[v] ==> stack@.contains(v as usize),
            forall|v: int| 0 <= v < b && linked(g, s as int, v) ==> seen@[v],
        decreases n - b,
    {
        assert(g[s as int] == links@[s as int]@);
        if links[s][b] {
            proof {
                assert(linked(g, s as int, b as int));
                lemma_link_reaches(g, s as int, b as int);
            }
            let ghost old_stack = stack@;
            seen[b] = true;
            stack.push(b);
            proof {
                assert forall|v: int| 0 <= v < n && seen@[v] implies stack@.contains(v as usize) by {
                    if v == b {
                        assert(stack@[stack@.len() - 1] == b);
                    } else {
                        let x = choose|x: int| 0 <= x < old_stack.len() && old_stack[x] == v as usize;
                        assert(stack@[x] == v as usize);
                    }
                }
            }
        }
        b += 1;
    }
    while stack.len() > 0
        invariant
            n == links@.len(),
            s < n,
            g == rows_view(links@),
            is_square(g),
            seen@.len() == n,
            forall|x: int| 0 <= x < stack@.len() ==> stack@[x] < n && seen@[stack@[x] as int],
            forall|v: int| 0 <= v < n && seen@[v] ==> reaches(g, s as int, v),
            forall|v: int| linked(g, s as int, v) ==> seen@[v],
            forall|u: int, v: int|
                0 <= u < n && seen@[u] && !stack@.contains(u as usize) && #[trigger] linked(g, u, v)
                    ==> seen@[v],
        decreases count_false(seen@), stack@.len(),
    {
        let ghost seen0 = seen@;
        let ghost stack0 = stack@;
        let u = stack.pop().unwrap();
        let ghost popped = stack@;
        assert(popped =~= stack0.drop_last());
        assert(stack0[stack0.len() - 1] == u);
        proof {
            assert forall|x: int, v: int|
                0 <= x < n && seen@[x] && x != u && !stack@.contains(x as usize)
                    && #[trigger] linked(g, x, v) implies seen@[v] by {
                if stack0.contains(x as usize) {
                    let y = choose|y: int| 0 <= y < stack0.len() && stack0[y] == x as usize;
                    assert(popped[y] == x as usize);
                }
            }
        }
        let mut w: usize = 0;
        while w < n
            invariant
                w <= n,
                u < n,
                n == links@.len(),
                s < n,
                g == rows_view(links@),
                is_square(g),
                seen@.len() == n,
                seen@[u as int],
                forall|x: int| 0 <= x < stack@.len() ==> stack@[x] < n && seen@[stack@[x] as int],
                forall|v: int| 0 <= v < n && seen@[v] ==> reaches(g, s as int, v),
                forall|v: int| linked(g, s as int, v) ==> seen@[v],
                forall|x: int, v: int|
                    0 <= x < n && seen@[x] && x != u && !stack@.contains(x as usize)
                        && #[trigger] linked(g, x, v) ==> seen@[v],
                forall|v: int| 0 <= v < w && linked(g, u as int, v) ==> seen@[v],
                count_false(seen@) <= count_false(seen0),
                count_false(seen@) == count_false(seen0) ==> stack@ == popped,
            decreases n - w,
        {
            assert(g[u as int] == links@[u as int]@);
            if links[u][w] && !seen[w] {
                let ghost seen1 = seen@;
                let ghost stack1 = stack@;
                proof {
                    assert(linked(g, u as int, w as int));
                    lemma_link_reaches(g, u as int, w as int);
                    lemma_reaches_transitive(g, s as int, u as int, w as int);
                    lemma_count_false_update(seen1, w as int);
                }
                seen[w] = true;
                stack.push(w);
                proof {
                    assert(seen@ =~= seen1.update(w as int, true));
                    assert forall|x: int, v: int|
                        0 <= x < n && seen@[x] && x != u && !stack@.contains(x as usize)
                            && #[trigger] linked(g, x, v) implies seen@[v] by {
                        assert(stack@[stack@.len() - 1] == w);
                        if x == w {
                            assert(stack@.contains(w));
                        } else {
                            if stack1.contains(x as usize) {
                                let y = choose|y: int| 0 <= y < stack1.len() && stack1[y] == x as usize;
                                assert(stack@[y] == x as usize);
                            }
                            assert(seen1[x]);
                            assert(seen1[v]);
                        }
                    }
                }
            }
            w += 1;
        }
        proof {
            assert forall|x: int, v: int|
                0 <= x < n && seen@[x] && !stack@.contains(x as usize) && #[trigger] linked(
                    g,
                    x,
                    v,
                ) implies seen@[v] by {
                if x == u {
                } else {
                }
            }
        }
    }
    proof {
        assert forall|v: int| 0 <= v < n && reaches(g, s as int, v) implies seen@[v] by {
            let walk = choose|walk: Seq<int>|
                is_walk(g, walk) && walk.first() == s as int && walk.last() == v;
            assert forall|x: int, y: int|
                0 <= x < seen@.len() && seen@[x] && #[trigger] linked(g, x, y) implies seen@[y] by {
                assert(!stack@.contains(x as usize));
            }
            lemma_closed_holds_walk(g, s as int, seen@, walk, walk.len() - 1);
        }
    }
    seen
}

/// For every node the nodes that it reaches.
pub fn closure(links: &Vec<Vec<bool>>) -> (r: Vec<Vec<bool>>)
    requires
        is_square(rows_view(links@)),
    ensures
        r@.len() == links@.len(),
        is_square(rows_view(r@)),
        forall|a: int, b: int|
            0 <= a < r@.len() && 0 <= b < r@.len() ==> (#[trigger] r@[a]@[b] <==> reaches(
                rows_view(links@),
                a,
                b,
            )),
{
    let n = links.len();
    let mut out: Vec<Vec<bool>> = Vec::new();
    let mut a: usize = 0;
    while a < n
        invariant
            a <= n,
            n == links@.len(),
            is_square(rows_view(links@)),
            out@.len() == a,
            forall|x: int| 0 <= x < a ==> (#[trigger] out@[x])@.len() == n,
            forall|x: int, b: int|
                0 <= x < a && 0 <= b < n ==> (#[trigger] out@[x]@[b] <==> reaches(
                    rows_view(links@),
                    x,
                    b,
                )),
        decreases n - a,
    {
        let row = reach_from(links, a);
        out.push(row);
        a += 1;
    }
    assert(is_square(rows_view(out@))) by {
        assert forall|x: int| 0 <= x < rows_view(out@).len() implies (#[trigger] rows_view(
            out@,
        )[x]).len() == rows_view(out@).len() by {
            assert(rows_view(out@)[x] == out@[x]@);
        }
    }
    out
}

/// A list of nodes as numbers.
pub open spec fn nodes_view(v: Seq<usize>) -> Seq<int> {
    v.map_values(|x: usize| x as int)
}

/// The views of a list of node lists.
pub open spec fn lists_view(v: Seq<Vec<usize>>) -> Seq<Seq<int>> {
    v.map_values(|c: Vec<usize>| nodes_view(c@))
}

/// The strongly connected components of the graph `links`.
pub fn strong_components(links: &Vec<Vec<bool>>) -> (r: Vec<Vec<usize>>)
    requires
        is_square(rows_view(links@)),
    ensures
        lists_view(r@) == components(rows_view(links@)),
{
    let ghost g = rows_view(links@);
    let n = links.len();
    let reach = closure(links);
    let mut out: Vec<Vec<usize>> = Vec::new();
    let mut r: usize = 0;
    assert(lists_view(out@) =~= components_upto(g, 0));
    while r < n
        invariant
            r <= n,
            n == links@.len(),
            n == g.len(),
            g == rows_view(links@),
            reach@.len() == n,
            is_square(rows_view(reach@)),
            forall|a: int, b: int|
                0 <= a < n && 0 <= b < n ==> (#[trigger] reach@[a]@[b] <==> reaches(g, a, b)),
            lists_view(out@) == components_upto(g, r as int),
        decreases n - r,
    {
        let mut root = true;
        let mut q: usize = 0;
        while q < r
            invariant
                q <= r,
                r < n,
                n == g.len(),
                reach@.len() == n,
                is_square(rows_view(reach@)),
                forall|a: int, b: int|
                    0 <= a < n && 0 <= b < n ==> (#[trigger] reach@[a]@[b] <==> reaches(g, a, b)),
                root <==> forall|x: int| 0 <= x < q ==> !mutual(g, x, r as int),
            decreases r - q,
        {
            assert(rows_view(reach@)[q as int] == reach@[q as int]@);
            assert(rows_view(reach@)[r as int] == reach@[r as int]@);
            if reach[q][r] && reach[r][q] {
                assert(mutual(g, q as int, r as int));
                root = false;
            }
            q += 1;
        }
        let ghost before = lists_view(out@);
        if root {
            let mut class: Vec<usize> = Vec::new();
            class.push(r);
            let mut j: usize = r + 1;
            assert(nodes_view(class@) =~= class_upto(g, r as int, r as int + 1));
            while j < n
                invariant
                    r < j <= n,
                    n == g.len(),
                    reach@.len() == n,
                    is_square(rows_view(reach@)),
                    forall|a: int, b: int|
                        0 <= a < n && 0 <= b < n ==> (#[trigger] reach@[a]@[b] <==> reaches(
                            g,
                            a,
                            b,
                        )),
                    nodes_view(class@) == class_upto(g, r as int, j as int),
                decreases n - j,
            {
                assert(rows_view(reach@)[j as int] == reach@[j as int]@);
                assert(rows_view(reach@)[r as int] == reach@[r as int]@);
                let ghost prev = nodes_view(class@);
                if reach[r][j] && reach[j][r] {
                    class.push(j);
                    assert(nodes_view(class@) =~= prev.push(j as int));
                }
                j += 1;
            }
            out.push(class);
            assert(lists_view(out@) =~= before.push(class_upto(g, r as int, n as int)));
        }
        r += 1;
    }
    out
}

} // verus!
