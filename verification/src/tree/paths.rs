//! Laws of the paths of a command tree.
use vstd::prelude::*;
use crate::text::has_prefix;
use crate::tree::parse::{
    child_path, children_of, entered, forest_of, is_annotation, leaves, leaves_in,
    lemma_leaves_in_prefix, table_of, tree_of, FieldView, SchemeView,
};
use crate::tree::{LeafView, MetaDesc, TreeView};

verus! {

/// Whether no child of an object lies at or under another child of it: of no
/// two fields that name children is one name the other, or the other followed
/// by a `/` and more. For the paths of the children this says the same,
/// whatever the path of the object is.
pub open spec fn children_apart(fields: Seq<FieldView>) -> bool {
    forall|i: int, j: int|
        0 <= i < fields.len() && 0 <= j < fields.len() && i != j && !is_annotation(
            (#[trigger] fields[i]).name,
        ) && !is_annotation((#[trigger] fields[j]).name) ==> !under(
            fields[i].name,
            fields[j].name,
        )
}

/// Whether, in every object of the schema, no child lies at or under another
/// child of the same object.
pub open spec fn well_named(value: SchemeView) -> bool
    decreases value,
{
    match value {
        SchemeView::Object(fields) => children_apart(fields) && forall|i: int|
            0 <= i < fields.len() ==> well_named((#[trigger] fields[i]).value),
        _ => true,
    }
}

/// Whether `path` is `stem` itself or lies below it.
pub open spec fn under(stem: Seq<char>, path: Seq<char>) -> bool {
    has_prefix(path, stem) && (path.len() == stem.len() || path[stem.len() as int] == '/')
}

/// Whether no two leaves share a path.
pub open spec fn distinct_paths(leaves: Seq<LeafView>) -> bool {
    forall|i: int, j: int|
        0 <= i < j < leaves.len() ==> (#[trigger] leaves[i]).path != (#[trigger] leaves[j]).path
}

/// Whether `path` is or lies below the path of one of the first `n` fields
/// that name a child of the object at `base`.
pub open spec fn below_child(base: Seq<char>, fields: Seq<FieldView>, n: nat, path: Seq<char>) -> bool {
    exists|k: int|
        0 <= k < n && k < fields.len() && !is_annotation((#[trigger] fields[k]).name) && under(
            child_path(base, fields[k].name),
            path,
        )
}

/// What lies at or below a child lies below its parent.
pub proof fn lemma_under_child(base: Seq<char>, name: Seq<char>, path: Seq<char>)
    requires
        under(child_path(base, name), path),
    ensures
        under(base, path),
        path.len() > base.len(),
{
    let stem = child_path(base, name);
    assert(path.subrange(0, stem.len() as int) == stem);
    assert(path.subrange(0, base.len() as int) =~= stem.subrange(0, base.len() as int)) by {
        assert forall|k: int| 0 <= k < base.len() implies path[k] == stem[k] by {
            assert(path.subrange(0, stem.len() as int)[k] == path[k]);
        }
    }
    assert(stem.subrange(0, base.len() as int) =~= base);
    assert(path[base.len() as int] == path.subrange(0, stem.len() as int)[base.len() as int]);
    assert(stem[base.len() as int] == '/');
}

/// One child lies at or under another exactly where its name does.
pub proof fn lemma_under_names(base: Seq<char>, a: Seq<char>, b: Seq<char>)
    ensures
        under(child_path(base, a), child_path(base, b)) <==> under(a, b),
{
    let sa = child_path(base, a);
    let sb = child_path(base, b);
    let off: int = base.len() as int + 1;
    if under(sa, sb) {
        assert(sb.subrange(0, sa.len() as int) == sa);
        assert(b.subrange(0, a.len() as int) =~= a) by {
            assert forall|k: int| 0 <= k < a.len() implies b[k] == a[k] by {
                assert(sb.subrange(0, sa.len() as int)[off + k] == sb[off + k]);
                assert(sa[off + k] == a[k]);
                assert(sb[off + k] == b[k]);
            }
        }
        if sb.len() != sa.len() {
            assert(sb[sa.len() as int] == b[a.len() as int]);
        }
    }
    if under(a, b) {
        assert(b.subrange(0, a.len() as int) == a);
        assert(sb.subrange(0, sa.len() as int) =~= sa) by {
            assert forall|k: int| 0 <= k < sa.len() implies sb[k] == sa[k] by {
                if k >= off {
                    assert(b.subrange(0, a.len() as int)[k - off] == b[k - off]);
                    assert(sb[k] == b[k - off]);
                    assert(sa[k] == a[k - off]);
                }
            }
        }
        if b.len() != a.len() {
            assert(sb[sa.len() as int] == b[a.len() as int]);
        }
    }
}

/// Two children of one object, neither of which lies at or under the other,
/// have nothing in common at or below them.
pub proof fn lemma_children_apart(
    base: Seq<char>,
    a: Seq<char>,
    b: Seq<char>,
    p: Seq<char>,
    q: Seq<char>,
)
    requires
        !under(a, b),
        !under(b, a),
        under(child_path(base, a), p),
        under(child_path(base, b), q),
    ensures
        p != q,
{
    if p == q {
        let sa = child_path(base, a);
        let sb = child_path(base, b);
        let off: int = base.len() as int + 1;
        assert(p.subrange(0, sa.len() as int) == sa);
        assert(p.subrange(0, sb.len() as int) == sb);
        assert forall|k: int| 0 <= k < a.len() implies p[off + k] == a[k] by {
            assert(p.subrange(0, sa.len() as int)[off + k] == p[off + k]);
            assert(sa[off + k] == a[k]);
        }
        assert forall|k: int| 0 <= k < b.len() implies p[off + k] == b[k] by {
            assert(p.subrange(0, sb.len() as int)[off + k] == p[off + k]);
            assert(sb[off + k] == b[k]);
        }
        if a.len() <= b.len() {
            assert(b.subrange(0, a.len() as int) =~= a);
            if a.len() < b.len() {
                assert(p[sa.len() as int] == '/');
                assert(p[off + a.len()] == b[a.len() as int]);
            }
            assert(under(a, b));
        } else {
            assert(a.subrange(0, b.len() as int) =~= b);
            assert(p[sb.len() as int] == '/');
            assert(p[off + b.len()] == a[b.len() as int]);
            assert(under(b, a));
        }
    }
}

/// The leaves of a list of trees with one more tree at its end.
pub proof fn lemma_leaves_in_push(front: Seq<TreeView>, tree: TreeView)
    ensures
        leaves_in(front.push(tree), front.len() + 1) == leaves_in(front, front.len()) + leaves(
            tree,
        ),
{
    let all = front.push(tree);
    lemma_leaves_in_prefix(all, front, front.len());
    assert(leaves_in(all, front.len() + 1) == leaves_in(all, front.len()) + leaves(
        all[front.len() as int],
    ));
}

/// Every leaf of the tree built at `path` lies at or below `path`, and no two
/// of its leaves share a path.
pub proof fn lemma_tree_leaves(
    path: Seq<char>,
    name: Seq<char>,
    value: SchemeView,
    meta: MetaDesc,
)
    requires
        well_named(value),
        tree_of(path, name, value, meta) is Ok,
    ensures
        forall|i: int|
            0 <= i < leaves(tree_of(path, name, value, meta)->Ok_0).len() ==> under(
                path,
                (#[trigger] leaves(tree_of(path, name, value, meta)->Ok_0)[i]).path,
            ),
        distinct_paths(leaves(tree_of(path, name, value, meta)->Ok_0)),
    decreases value, 0nat,
{
    let tree = tree_of(path, name, value, meta)->Ok_0;
    match tree {
        TreeView::Leaf(leaf) => {
            assert(leaf.path == path);
            assert(path.subrange(0, path.len() as int) =~= path);
        },
        TreeView::Node { children, meta: own, .. } => {
            let fields = value->Object_0;
            lemma_children_leaves(path, fields, own, fields.len());
            let ls = leaves(tree);
            assert forall|i: int| 0 <= i < ls.len() implies under(path, (#[trigger] ls[i]).path) by {
                let k = choose|k: int|
                    0 <= k < fields.len() && !is_annotation((#[trigger] fields[k]).name) && under(
                        child_path(path, fields[k].name),
                        ls[i].path,
                    );
                lemma_under_child(path, fields[k].name, ls[i].path);
            }
        },
    }
}

/// Every leaf of the trees built from the first `n` fields of the object at
/// `path` lies at or below one of these fields, and no two of the leaves share
/// a path.
pub proof fn lemma_children_leaves(
    path: Seq<char>,
    fields: Seq<FieldView>,
    meta: MetaDesc,
    n: nat,
)
    requires
        n <= fields.len(),
        well_named(SchemeView::Object(fields)),
        children_of(path, fields, meta, n) is Ok,
    ensures
        forall|i: int|
            0 <= i < leaves_in(
                children_of(path, fields, meta, n)->Ok_0,
                children_of(path, fields, meta, n)->Ok_0.len(),
            ).len() ==> below_child(
                path,
                fields,
                n,
                (#[trigger] leaves_in(
                    children_of(path, fields, meta, n)->Ok_0,
                    children_of(path, fields, meta, n)->Ok_0.len(),
                )[i]).path,
            ),
        distinct_paths(
            leaves_in(
                children_of(path, fields, meta, n)->Ok_0,
                children_of(path, fields, meta, n)->Ok_0.len(),
            ),
        ),
    decreases fields, n,
{
    let kids = children_of(path, fields, meta, n)->Ok_0;
    let ls = leaves_in(kids, kids.len());
    if n == 0 {
        assert(leaves_in(kids, kids.len()) == Seq::<LeafView>::empty());
    } else {
        let front = children_of(path, fields, meta, (n - 1) as nat)->Ok_0;
        let front_ls = leaves_in(front, front.len());
        lemma_children_leaves(path, fields, meta, (n - 1) as nat);
        let field = fields[n - 1];
        assert forall|i: int| 0 <= i < front_ls.len() implies below_child(
            path,
            fields,
            n,
            (#[trigger] front_ls[i]).path,
        ) by {
            assert(below_child(path, fields, (n - 1) as nat, front_ls[i].path));
            let k = choose|k: int|
                0 <= k < n - 1 && k < fields.len() && !is_annotation((#[trigger] fields[k]).name)
                    && under(child_path(path, fields[k].name), front_ls[i].path);
            assert(0 <= k < n && !is_annotation(fields[k].name) && under(
                child_path(path, fields[k].name),
                front_ls[i].path,
            ));
        }
        if is_annotation(field.name) {
            assert(kids == front);
        } else {
            let stem = child_path(path, field.name);
            let tree = tree_of(stem, field.name, field.value, meta)->Ok_0;
            assert(kids == front.push(tree));
            lemma_tree_leaves(stem, field.name, field.value, meta);
            lemma_leaves_in_push(front, tree);
            let new_ls = leaves(tree);
            assert(ls == front_ls + new_ls);
            assert forall|i: int| 0 <= i < ls.len() implies below_child(
                path,
                fields,
                n,
                (#[trigger] ls[i]).path,
            ) by {
                if i < front_ls.len() {
                    assert(ls[i] == front_ls[i]);
                } else {
                    assert(ls[i] == new_ls[i - front_ls.len()]);
                    assert(under(stem, new_ls[i - front_ls.len()].path));
                    assert(0 <= n - 1 < n && !is_annotation(fields[n - 1].name) && under(
                        child_path(path, fields[n - 1].name),
                        ls[i].path,
                    ));
                }
            }
            assert forall|i: int, j: int| 0 <= i < j < ls.len() implies (#[trigger] ls[i]).path != (
            #[trigger] ls[j]).path by {
                if j < front_ls.len() {
                    assert(ls[i] == front_ls[i] && ls[j] == front_ls[j]);
                } else if i >= front_ls.len() {
                    assert(ls[i] == new_ls[i - front_ls.len()]);
                    assert(ls[j] == new_ls[j - front_ls.len()]);
                } else {
                    assert(ls[i] == front_ls[i]);
                    assert(ls[j] == new_ls[j - front_ls.len()]);
                    assert(below_child(path, fields, (n - 1) as nat, front_ls[i].path));
                    let k = choose|k: int|
                        0 <= k < n - 1 && k < fields.len() && !is_annotation(
                            (#[trigger] fields[k]).name,
                        ) && under(child_path(path, fields[k].name), front_ls[i].path);
                    assert(!under(fields[k].name, fields[n - 1].name));
                    assert(!under(fields[n - 1].name, fields[k].name));
                    assert(under(stem, new_ls[j - front_ls.len()].path));
                    lemma_children_apart(
                        path,
                        fields[k].name,
                        field.name,
                        ls[i].path,
                        ls[j].path,
                    );
                }
            }
        }
    }
}

/// Where no two leaves share a path, the lookup of the first `n` holds each of
/// them under its path, and nothing else.
pub proof fn lemma_table_holds_each(leaves: Seq<LeafView>, n: nat)
    requires
        n <= leaves.len(),
        distinct_paths(leaves),
    ensures
        entered(Map::empty(), leaves, n).dom().finite(),
        entered(Map::empty(), leaves, n).dom().len() == n,
        forall|i: int|
            0 <= i < n ==> entered(Map::empty(), leaves, n).contains_key(
                (#[trigger] leaves[i]).path,
            ) && entered(Map::empty(), leaves, n)[leaves[i].path] == leaves[i],
        forall|key: Seq<char>|
            entered(Map::empty(), leaves, n).contains_key(key) ==> exists|i: int|
                0 <= i < n && (#[trigger] leaves[i]).path == key,
    decreases n,
{
    if n > 0 {
        lemma_table_holds_each(leaves, (n - 1) as nat);
        let before = entered(Map::<Seq<char>, LeafView>::empty(), leaves, (n - 1) as nat);
        let last = leaves[n - 1];
        if before.contains_key(last.path) {
            let i = choose|i: int| 0 <= i < n - 1 && (#[trigger] leaves[i]).path == last.path;
            assert(leaves[i].path != leaves[n - 1].path);
        }
        assert(before.insert(last.path, last).dom() =~= before.dom().insert(last.path));
        assert forall|key: Seq<char>| before.insert(last.path, last).contains_key(key) implies exists|
            i: int,
        |
            0 <= i < n && (#[trigger] leaves[i]).path == key by {
            if key == last.path {
                assert(leaves[n - 1].path == key);
            } else {
                let i = choose|i: int| 0 <= i < n - 1 && (#[trigger] leaves[i]).path == key;
                assert(0 <= i < n && leaves[i].path == key);
            }
        }
        assert forall|i: int| 0 <= i < n implies before.insert(last.path, last).contains_key(
            (#[trigger] leaves[i]).path,
        ) && before.insert(last.path, last)[leaves[i].path] == leaves[i] by {
            if i < n - 1 {
                assert(leaves[i].path != leaves[n - 1].path);
            }
        }
    }
}

/// In the command tree of a schema document in which no child of an object
/// lies at or under another child of the same object, no two leaves share a
/// path, and the flat lookup holds every leaf under its path and has exactly
/// as many entries as the tree has leaves.
pub proof fn lemma_leaf_paths_unique(root: SchemeView)
    requires
        well_named(root),
        forest_of(root) is Ok,
    ensures
        ({
            let trees = forest_of(root)->Ok_0;
            let all = leaves_in(trees, trees.len());
            &&& distinct_paths(all)
            &&& table_of(all).dom().finite()
            &&& table_of(all).dom().len() == all.len()
            &&& forall|i: int|
                0 <= i < all.len() ==> table_of(all).contains_key((#[trigger] all[i]).path)
                    && table_of(all)[all[i].path] == all[i]
        }),
{
    let fields = root->Object_0;
    lemma_children_leaves(Seq::empty(), fields, MetaDesc { w: false, r: true }, fields.len());
    let trees = forest_of(root)->Ok_0;
    let all = leaves_in(trees, trees.len());
    lemma_table_holds_each(all, all.len());
}

} // verus!
