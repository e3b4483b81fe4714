//! The order in which changed files appear in the file tree: each directory
//! lists its subdirectories first and then its files, both by name.
use vstd::prelude::*;

use crate::bytes::bytes_eq;
use crate::dashboard::ChangeEntry;
use crate::order::{is_comparison, lex_order, lemma_lex_antisymmetric, lemma_lex_transitive, bytes_order, byte_order_fn, compare_bytes};
use crate::path::{Component, SpecComponent, components, components_of, component_views};

verus! {

/// The names among a run of components.
pub open spec fn normal_names(cs: Seq<SpecComponent>) -> Seq<Seq<u8>>
    decreases cs.len(),
{
    if cs.len() == 0 {
        Seq::empty()
    } else {
        let rest = normal_names(cs.drop_last());
        match cs.last() {
            SpecComponent::Normal(name) => rest.push(name),
            _ => rest,
        }
    }
}

/// The names along which a path sits in the tree: its name components, with
/// root, `.` and `..` components left out.
pub open spec fn tree_path(p: Seq<u8>) -> Seq<Seq<u8>> {
    normal_names(components(p))
}

/// The tree paths of a list of changes.
pub open spec fn tree_paths(entries: Seq<ChangeEntry>) -> Seq<Seq<Seq<u8>>> {
    entries.map_values(|e: ChangeEntry| tree_path(e.path@))
}

/// The sort key of one step of a tree path: whether it is the file itself
/// (the last step) and its name. Directories come before files.
pub open spec fn step_order(x: (bool, Seq<u8>), y: (bool, Seq<u8>)) -> int {
    if x.0 != y.0 {
        if !x.0 {
            -1
        } else {
            1
        }
    } else {
        bytes_order(x.1, y.1)
    }
}

/// `step_order` as a function value.
pub open spec fn step_order_fn() -> spec_fn((bool, Seq<u8>), (bool, Seq<u8>)) -> int {
    |x: (bool, Seq<u8>), y: (bool, Seq<u8>)| step_order(x, y)
}

/// The steps of a tree path.
pub open spec fn tree_key(names: Seq<Seq<u8>>) -> Seq<(bool, Seq<u8>)> {
    Seq::new(names.len(), |i: int| (i == names.len() - 1, names[i]))
}

/// The order of two tree paths in the tree.
pub open spec fn tree_order(a: Seq<Seq<u8>>, b: Seq<Seq<u8>>) -> int {
    lex_order(tree_key(a), tree_key(b), step_order_fn())
}

/// Whether entry `i` has a row in the tree: its path has a name, and no later
/// entry has the same tree path (a later entry replaces an earlier one).
pub open spec fn shown(paths: Seq<Seq<Seq<u8>>>, i: int) -> bool {
    &&& 0 <= i < paths.len()
    &&& paths[i].len() > 0
    &&& forall|j: int| i < j < paths.len() ==> paths[j] != paths[i]
}

/// Whether `order` lists exactly the shown entries, in tree order.
pub open spec fn is_tree_order(paths: Seq<Seq<Seq<u8>>>, order: Seq<usize>) -> bool {
    &&& forall|k: int| 0 <= k < order.len() ==> shown(paths, #[trigger] order[k] as int)
    &&& forall|i: int| shown(paths, i) ==> order.contains(i as usize)
    &&& forall|a: int, b: int|
        0 <= a < b < order.len() ==> tree_order(paths[#[trigger] order[a] as int], paths[#[trigger] order[b] as int]) < 0
}

pub proof fn lemma_step_order_is_comparison()
    ensures
        is_comparison(step_order_fn()),
{
    let c = step_order_fn();
    assert forall|x: (bool, Seq<u8>), y: (bool, Seq<u8>)| #[trigger] c(x, y) == -c(y, x) && (c(x, y) == 0) == (x == y)
        && -1 <= c(x, y) <= 1 by {
        lemma_lex_antisymmetric(x.1, y.1, byte_order_fn());
    }
    assert forall|x: (bool, Seq<u8>), y: (bool, Seq<u8>), z: (bool, Seq<u8>)|
        #[trigger] c(x, y) < 0 && #[trigger] c(y, z) < 0 implies c(x, z) < 0 by {
        if x.0 == y.0 && y.0 == z.0 {
            lemma_lex_transitive(x.1, y.1, z.1, byte_order_fn());
        }
    }
}

/// The tree order is a comparison of tree paths.
pub proof fn lemma_tree_order(a: Seq<Seq<u8>>, b: Seq<Seq<u8>>, d: Seq<Seq<u8>>)
    ensures
        tree_order(a, b) == -tree_order(b, a),
        (tree_order(a, b) == 0) == (a == b),
        tree_order(a, b) < 0 && tree_order(b, d) < 0 ==> tree_order(a, d) < 0,
{
    lemma_step_order_is_comparison();
    lemma_lex_antisymmetric(tree_key(a), tree_key(b), step_order_fn());
    if tree_key(a) == tree_key(b) {
        assert(a.len() == b.len());
        assert forall|i: int| 0 <= i < a.len() implies a[i] == b[i] by {
            assert(tree_key(a)[i] == tree_key(b)[i]);
        }
        assert(a =~= b);
    }
    if tree_order(a, b) < 0 && tree_order(b, d) < 0 {
        lemma_lex_transitive(tree_key(a), tree_key(b), tree_key(d), step_order_fn());
    }
}

/// Two lists that hold the same elements, each strictly increasing in an
/// asymmetric relation, are equal.
pub proof fn lemma_sorted_unique(o1: Seq<usize>, o2: Seq<usize>, less: spec_fn(usize, usize) -> bool)
    requires
        forall|x: usize, y: usize| #[trigger] less(x, y) ==> !less(y, x),
        forall|k: int| 0 <= k < o1.len() ==> o2.contains(#[trigger] o1[k]),
        forall|k: int| 0 <= k < o2.len() ==> o1.contains(#[trigger] o2[k]),
        forall|a: int, b: int| 0 <= a < b < o1.len() ==> less(#[trigger] o1[a], #[trigger] o1[b]),
        forall|a: int, b: int| 0 <= a < b < o2.len() ==> less(#[trigger] o2[a], #[trigger] o2[b]),
    ensures
        o1 == o2,
    decreases o1.len(),
{
    if o1.len() == 0 {
        if o2.len() > 0 {
            assert(o1.contains(o2[0]));
        }
        assert(o1 =~= o2);
    } else {
        assert(o2.contains(o1[0]));
        assert(o2.len() > 0);
        let x = o1[0];
        let y = o2[0];
        if x != y {
            let p = choose|p: int| 0 <= p < o1.len() && o1[p] == y;
            let q = choose|q: int| 0 <= q < o2.len() && o2[q] == x;
            assert(less(o1[0], o1[p]));
            assert(less(o2[0], o2[q]));
        }
        let r1 = o1.drop_first();
        let r2 = o2.drop_first();
        assert forall|k: int| 0 <= k < r1.len() implies r2.contains(#[trigger] r1[k]) by {
            let z = r1[k];
            assert(z == o1[k + 1]);
            assert(less(o1[0], o1[k + 1]));
            let q = choose|q: int| 0 <= q < o2.len() && o2[q] == z;
            if q == 0 {
                assert(less(x, x));
            }
            assert(r2[q - 1] == z);
        }
        assert forall|k: int| 0 <= k < r2.len() implies r1.contains(#[trigger] r2[k]) by {
            let z = r2[k];
            assert(z == o2[k + 1]);
            assert(less(o2[0], o2[k + 1]));
            let p = choose|p: int| 0 <= p < o1.len() && o1[p] == z;
            if p == 0 {
                assert(less(y, y));
            }
            assert(r1[p - 1] == z);
        }
        assert forall|a: int, b: int| 0 <= a < b < r1.len() implies less(#[trigger] r1[a], #[trigger] r1[b]) by {
            assert(r1[a] == o1[a + 1] && r1[b] == o1[b + 1]);
        }
        assert forall|a: int, b: int| 0 <= a < b < r2.len() implies less(#[trigger] r2[a], #[trigger] r2[b]) by {
            assert(r2[a] == o2[a + 1] && r2[b] == o2[b + 1]);
        }
        lemma_sorted_unique(r1, r2, less);
        assert(o1 =~= seq![x] + r1);
        assert(o2 =~= seq![y] + r2);
    }
}

/// There is at most one tree order of a list of paths: the rows of the tree
/// are determined by the paths alone.
pub proof fn lemma_tree_order_unique(paths: Seq<Seq<Seq<u8>>>, o1: Seq<usize>, o2: Seq<usize>)
    requires
        is_tree_order(paths, o1),
        is_tree_order(paths, o2),
    ensures
        o1 == o2,
{
    let less = |x: usize, y: usize| tree_order(paths[x as int], paths[y as int]) < 0;
    assert forall|x: usize, y: usize| #[trigger] less(x, y) implies !less(y, x) by {
        lemma_tree_order(paths[x as int], paths[y as int], paths[x as int]);
    }
    assert forall|k: int| 0 <= k < o1.len() implies o2.contains(#[trigger] o1[k]) by {
        assert(shown(paths, o1[k] as int));
    }
    assert forall|k: int| 0 <= k < o2.len() implies o1.contains(#[trigger] o2[k]) by {
        assert(shown(paths, o2[k] as int));
    }
    assert forall|a: int, b: int| 0 <= a < b < o1.len() implies less(#[trigger] o1[a], #[trigger] o1[b]) by {}
    assert forall|a: int, b: int| 0 <= a < b < o2.len() implies less(#[trigger] o2[a], #[trigger] o2[b]) by {}
    lemma_sorted_unique(o1, o2, less);
}

/// The rows of the tree: the entry index of each file row, in order.
pub open spec fn tree_rows(paths: Seq<Seq<Seq<u8>>>) -> Seq<usize> {
    choose|o: Seq<usize>| is_tree_order(paths, o)
}

proof fn lemma_tree_rows(paths: Seq<Seq<Seq<u8>>>, o: Seq<usize>)
    requires
        is_tree_order(paths, o),
    ensures
        tree_rows(paths) == o,
{
    lemma_tree_order_unique(paths, tree_rows(paths), o);
}

/// The names along which a path sits in the tree.
pub fn tree_path_of(p: &[u8]) -> (names: Vec<Vec<u8>>)
    ensures
        crate::path::byte_views(names@) == tree_path(p@),
{
    let cs = components_of(p);
    let mut names: Vec<Vec<u8>> = Vec::new();
    let mut i: usize = 0;
    while i < cs.len()
        invariant
            i <= cs@.len(),
            component_views(cs@) == components(p@),
            crate::path::byte_views(names@) == normal_names(component_views(cs@).subrange(0, i as int)),
        decreases cs.len() - i,
    {
        let ghost before = names@;
        proof {
            assert(component_views(cs@).subrange(0, i + 1).drop_last() =~= component_views(cs@).subrange(0, i as int));
        }
        match &cs[i] {
            Component::Normal(name) => {
                names.push(name.clone());
                proof {
                    assert(crate::path::byte_views(names@) =~= crate::path::byte_views(before).push(name@));
                }
            },
            _ => {},
        }
        i = i + 1;
    }
    proof {
        assert(component_views(cs@).subrange(0, cs@.len() as int) =~= component_views(cs@));
    }
    names
}

/// Equality of two tree paths.
fn names_eq(a: &Vec<Vec<u8>>, b: &Vec<Vec<u8>>) -> (r: bool)
    ensures
        r == (crate::path::byte_views(a@) == crate::path::byte_views(b@)),
{
    if a.len() != b.len() {
        proof {
            assert(crate::path::byte_views(a@).len() != crate::path::byte_views(b@).len());
        }
        return false;
    }
    let mut i: usize = 0;
    while i < a.len()
        invariant
            i <= a@.len(),
            a@.len() == b@.len(),
            forall|k: int| 0 <= k < i ==> a@[k]@ == b@[k]@,
        decreases a.len() - i,
    {
        if !bytes_eq(a[i].as_slice(), b[i].as_slice()) {
            proof {
                assert(crate::path::byte_views(a@)[i as int] != crate::path::byte_views(b@)[i as int]);
            }
            return false;
        }
        i = i + 1;
    }
    proof {
        assert(crate::path::byte_views(a@) =~= crate::path::byte_views(b@));
    }
    true
}

/// Whether tree path `a` comes before tree path `b`.
fn tree_less(a: &Vec<Vec<u8>>, b: &Vec<Vec<u8>>) -> (r: bool)
    ensures
        r == (tree_order(crate::path::byte_views(a@), crate::path::byte_views(b@)) < 0),
{
    let ghost av = crate::path::byte_views(a@);
    let ghost bv = crate::path::byte_views(b@);
    let ghost c = step_order_fn();
    proof {
        assert(tree_key(av).skip(0) =~= tree_key(av));
        assert(tree_key(bv).skip(0) =~= tree_key(bv));
    }
    let mut m: usize = 0;
    while m < a.len() && m < b.len()
        invariant
            m <= a@.len(),
            m <= b@.len(),
            av == crate::path::byte_views(a@),
            bv == crate::path::byte_views(b@),
            c == step_order_fn(),
            tree_order(av, bv) == lex_order(tree_key(av).skip(m as int), tree_key(bv).skip(m as int), c),
        decreases a.len() - m,
    {
        let a_file = m + 1 == a.len();
        let b_file = m + 1 == b.len();
        proof {
            assert(tree_key(av).skip(m as int)[0] == (a_file, a@[m as int]@));
            assert(tree_key(bv).skip(m as int)[0] == (b_file, b@[m as int]@));
            assert(tree_key(av).skip(m as int).drop_first() =~= tree_key(av).skip(m + 1));
            assert(tree_key(bv).skip(m as int).drop_first() =~= tree_key(bv).skip(m + 1));
        }
        if a_file != b_file {
            return b_file;
        }
        let o = compare_bytes(a[m].as_slice(), b[m].as_slice());
        if o != 0 {
            return o < 0;
        }
        m = m + 1;
    }
    proof {
        assert(tree_key(av).skip(m as int).len() == a@.len() - m);
        assert(tree_key(bv).skip(m as int).len() == b@.len() - m);
    }
    m == a.len() && m < b.len()
}

/// The tree paths of the entries.
fn tree_paths_of(entries: &[ChangeEntry]) -> (r: Vec<Vec<Vec<u8>>>)
    ensures
        r@.len() == entries@.len(),
        forall|i: int| 0 <= i < r@.len() ==> crate::path::byte_views(#[trigger] r@[i]@) == tree_paths(entries@)[i],
{
    let mut r: Vec<Vec<Vec<u8>>> = Vec::new();
    let mut i: usize = 0;
    while i < entries.len()
        invariant
            i <= entries@.len(),
            r@.len() == i,
            forall|k: int| 0 <= k < i ==> crate::path::byte_views(#[trigger] r@[k]@) == tree_paths(entries@)[k],
        decreases entries.len() - i,
    {
        r.push(tree_path_of(entries[i].path.as_slice()));
        i = i + 1;
    }
    r
}

/// The entry index of every file row of the tree, top to bottom.
#[verifier::rlimit(30)]
pub fn tree_entry_order(entries: &[ChangeEntry]) -> (order: Vec<usize>)
    ensures
        is_tree_order(tree_paths(entries@), order@),
        order@ == tree_rows(tree_paths(entries@)),
{
    let ghost paths = tree_paths(entries@);
    let ps = tree_paths_of(entries);
    let n = ps.len();
    let mut order: Vec<usize> = Vec::new();
    let mut i: usize = 0;
    while i < n
        invariant
            n == ps@.len(),
            n == paths.len(),
            paths == tree_paths(entries@),
            i <= n,
            forall|k: int| 0 <= k < n ==> crate::path::byte_views(#[trigger] ps@[k]@) == paths[k],
            forall|k: int| 0 <= k < order@.len() ==> shown(paths, #[trigger] order@[k] as int) && order@[k] < i,
            forall|j: int| 0 <= j < i && shown(paths, j) ==> order@.contains(j as usize),
            forall|a: int, b: int|
                0 <= a < b < order@.len() ==> tree_order(paths[#[trigger] order@[a] as int], paths[#[trigger] order@[b] as int]) < 0,
        decreases n - i,
    {
        if ps[i].len() == 0 {
            proof {
                assert(paths[i as int].len() == 0);
                assert forall|j: int| 0 <= j < i + 1 && shown(paths, j) implies order@.contains(j as usize) by {}
            }
            i = i + 1;
            continue;
        }
        let mut later = false;
        let mut j = i + 1;
        while j < n && !later
            invariant
                n == ps@.len(),
                n == paths.len(),
                i < j <= n,
                forall|k: int| 0 <= k < n ==> crate::path::byte_views(#[trigger] ps@[k]@) == paths[k],
                later ==> !shown(paths, i as int),
                !later ==> forall|k: int| i < k < j ==> paths[k] != paths[i as int],
            decreases n - j + (if later { 0int } else { 1int }),
        {
            if names_eq(&ps[i], &ps[j]) {
                later = true;
            } else {
                j = j + 1;
            }
        }
        if later {
            proof {
                assert forall|jj: int| 0 <= jj < i + 1 && shown(paths, jj) implies order@.contains(jj as usize) by {}
            }
            i = i + 1;
            continue;
        }
        proof {
            assert(shown(paths, i as int));
        }
        let mut q: usize = 0;
        while q < order.len() && tree_less(&ps[order[q]], &ps[i])
            invariant
                n == ps@.len(),
                i < n,
                q <= order@.len(),
                forall|k: int| 0 <= k < order@.len() ==> order@[k] < i,
                forall|k: int| 0 <= k < n ==> crate::path::byte_views(#[trigger] ps@[k]@) == paths[k],
                forall|k: int| 0 <= k < q ==> tree_order(paths[#[trigger] order@[k] as int], paths[i as int]) < 0,
            decreases order.len() - q,
        {
            q = q + 1;
        }
        let ghost before = order@;
        proof {
            if q < before.len() {
                let x = before[q as int] as int;
                assert(tree_order(paths[x], paths[i as int]) >= 0);
                assert(shown(paths, x));
                assert(paths[x] != paths[i as int]);
                lemma_tree_order(paths[x], paths[i as int], paths[x]);
                assert(tree_order(paths[i as int], paths[x]) < 0);
            }
        }
        order.insert(q, i);
        proof {
            assert forall|a: int, b: int| 0 <= a < b < order@.len() implies tree_order(
                paths[#[trigger] order@[a] as int],
                paths[#[trigger] order@[b] as int],
            ) < 0 by {
                if b < q {
                    assert(order@[a] == before[a] && order@[b] == before[b]);
                } else if b == q {
                    assert(order@[a] == before[a]);
                } else if a == q {
                    assert(order@[b] == before[b - 1]);
                    if b - 1 > q {
                        assert(tree_order(paths[before[q as int] as int], paths[before[b - 1] as int]) < 0);
                        lemma_tree_order(paths[i as int], paths[before[q as int] as int], paths[before[b - 1] as int]);
                    }
                } else if a < q {
                    assert(order@[a] == before[a] && order@[b] == before[b - 1]);
                } else {
                    assert(order@[a] == before[a - 1] && order@[b] == before[b - 1]);
                }
            }
            assert forall|k: int| 0 <= k < order@.len() implies shown(paths, #[trigger] order@[k] as int) && order@[k] < i + 1 by {
                if k < q {
                    assert(order@[k] == before[k]);
                } else if k > q {
                    assert(order@[k] == before[k - 1]);
                }
            }
            assert forall|jj: int| 0 <= jj < i + 1 && shown(paths, jj) implies order@.contains(jj as usize) by {
                if jj == i {
                    assert(order@[q as int] == i);
                } else {
                    let k = choose|k: int| 0 <= k < before.len() && before[k] == jj as usize;
                    if k < q {
                        assert(order@[k] == before[k]);
                    } else {
                        assert(order@[k + 1] == before[k]);
                    }
                }
            }
        }
        i = i + 1;
    }
    proof {
        assert forall|jj: int| shown(paths, jj) implies order@.contains(jj as usize) by {}
        assert(is_tree_order(paths, order@));
        lemma_tree_rows(paths, order@);
    }
    order
}

/// The entry index of the file row at position `selection` among the file
/// rows of the tree.
pub fn selected_tree_entry_index(entries: &[ChangeEntry], selection: usize) -> (r: Option<usize>)
    ensures
        is_tree_order(tree_paths(entries@), tree_rows(tree_paths(entries@))),
        r == (if selection < tree_rows(tree_paths(entries@)).len() {
            Some(tree_rows(tree_paths(entries@))[selection as int])
        } else {
            None::<usize>
        }),
{
    let order = tree_entry_order(entries);
    if selection < order.len() {
        Some(order[selection])
    } else {
        None
    }
}

/// The change at file row `selection` of the tree.
pub fn selected_tree_entry(entries: &[ChangeEntry], selection: usize) -> (r: Option<&ChangeEntry>)
    ensures
        match r {
            Some(e) => selection < tree_rows(tree_paths(entries@)).len()
                && *e == entries@[tree_rows(tree_paths(entries@))[selection as int] as int],
            None => selection >= tree_rows(tree_paths(entries@)).len(),
        },
{
    match selected_tree_entry_index(entries, selection) {
        Some(index) => {
            proof {
                let rows = tree_rows(tree_paths(entries@));
                assert(shown(tree_paths(entries@), rows[selection as int] as int));
            }
            Some(&entries[index])
        },
        None => None,
    }
}

/// The file row at which entry `entry_index` is shown, if it is shown.
pub fn tree_selection_for_entry(entries: &[ChangeEntry], entry_index: usize) -> (r: Option<usize>)
    ensures
        match r {
            Some(k) => k < tree_rows(tree_paths(entries@)).len() && tree_rows(tree_paths(entries@))[k as int]
                == entry_index && forall|m: int| 0 <= m < k ==> tree_rows(tree_paths(entries@))[m] != entry_index,
            None => !tree_rows(tree_paths(entries@)).contains(entry_index),
        },
{
    let order = tree_entry_order(entries);
    let mut k: usize = 0;
    while k < order.len()
        invariant
            k <= order@.len(),
            order@ == tree_rows(tree_paths(entries@)),
            forall|m: int| 0 <= m < k ==> order@[m] != entry_index,
        decreases order.len() - k,
    {
        if order[k] == entry_index {
            return Some(k);
        }
        k = k + 1;
    }
    None
}

/// Selecting the row of a shown entry selects that entry: the rows of the
/// tree hold each entry at most once.
pub proof fn lemma_tree_selection_round_trip(entries: Seq<ChangeEntry>, a: int, b: int)
    requires
        0 <= a < tree_rows(tree_paths(entries)).len(),
        0 <= b < tree_rows(tree_paths(entries)).len(),
        tree_rows(tree_paths(entries))[a] == tree_rows(tree_paths(entries))[b],
        exists|o: Seq<usize>| is_tree_order(tree_paths(entries), o),
    ensures
        a == b,
{
    let paths = tree_paths(entries);
    let rows = tree_rows(paths);
    if a != b {
        let (x, y) = if a < b { (a, b) } else { (b, a) };
        assert(tree_order(paths[rows[x] as int], paths[rows[y] as int]) < 0);
        lemma_tree_order(paths[rows[x] as int], paths[rows[y] as int], paths[rows[x] as int]);
    }
}

} // verus!
