//! Building the command tree from a schema document.
use vstd::prelude::*;
use vstd::hash_map::StringHashMap;
use vstd::string::StringExecFns;
use crate::text::{has_prefix, same_text, starts_with};
use crate::tree::{
    blank_view, forest_view, lemma_forest_view, LeafView, MetaDesc, TLeaf, TNode, Tree, TreeView, ViewLeaf, ViewNode,
};
use crate::value::TypeTag;

verus! {

/// A schema document: nested objects whose keys name sections and leaves.
#[derive(Debug, PartialEq, Eq)]
pub enum Scheme {
    /// An object, its fields in the order of the document.
    Object(Vec<Field>),
    /// A string.
    Text(String),
    /// Anything else: null, a boolean, a number or an array.
    Other,
}

/// One field of an object of the schema.
#[derive(Debug, PartialEq, Eq)]
pub struct Field {
    pub name: String,
    pub value: Scheme,
}

/// The mathematical content of a [`Scheme`].
pub enum SchemeView {
    Object(Seq<FieldView>),
    Text(Seq<char>),
    Other,
}

/// The mathematical content of a [`Field`].
pub struct FieldView {
    pub name: Seq<char>,
    pub value: SchemeView,
}

impl View for Scheme {
    type V = SchemeView;

    open spec fn view(&self) -> SchemeView
        decreases self,
    {
        match self {
            Scheme::Object(fields) => SchemeView::Object(fields_view(fields@, fields@.len())),
            Scheme::Text(s) => SchemeView::Text(s@),
            Scheme::Other => SchemeView::Other,
        }
    }
}

/// The contents of the first `n` fields of `fields`, in order.
pub open spec fn fields_view(fields: Seq<Field>, n: nat) -> Seq<FieldView>
    decreases fields, n,
{
    if n == 0 || n > fields.len() {
        Seq::empty()
    } else {
        fields_view(fields, (n - 1) as nat).push(
            FieldView { name: fields[n - 1].name@, value: fields[n - 1].value.view() },
        )
    }
}

/// `fields_view` has one entry for each field, the field's own content.
pub proof fn lemma_fields_view(fields: Seq<Field>, n: nat)
    requires
        n <= fields.len(),
    ensures
        fields_view(fields, n).len() == n,
        forall|i: int|
            0 <= i < n ==> #[trigger] fields_view(fields, n)[i] == (FieldView {
                name: fields[i].name@,
                value: fields[i].value@,
            }),
    decreases n,
{
    if n > 0 {
        lemma_fields_view(fields, (n - 1) as nat);
    }
}

/// Why a schema document gives no command tree.
#[derive(Clone, Copy, Debug, PartialEq, Eq, Structural)]
pub enum SchemeError {
    /// The text is no JSON document.
    Syntax,
    /// The document is not an object.
    NonRootObject,
    /// A field holds neither an object nor a string.
    UnexpectedEntity,
    /// A type name that the registry does not know.
    UnsupportedType,
    /// Access rights other than `RO`, `WO` or `RW`.
    UnsupportedAccess,
    /// A type annotation that holds no string.
    TypeAnnotation,
    /// An access annotation that holds no string.
    AccessAnnotation,
}

/// A pair of access rights as an annotation names them.
#[derive(Clone, Copy, Debug, PartialEq, Eq, Structural)]
pub struct Access {
    pub w: bool,
    pub r: bool,
}

/// The marker that starts the key of an annotation.
pub open spec fn annotation_token() -> Seq<char> {
    seq!['@']
}

/// The key of the annotation that overrides access rights.
pub open spec fn access_key() -> Seq<char> {
    seq!['@', 'a', 'c', 'c', 'e', 's', 's']
}

/// The key of the annotation that makes an object a leaf.
pub open spec fn type_key() -> Seq<char> {
    seq!['@', 't', 'y', 'p', 'e']
}

/// Whether a key is metadata rather than a child.
pub open spec fn is_annotation(name: Seq<char>) -> bool {
    has_prefix(name, annotation_token())
}

/// The type that a type name of the schema stands for.
pub open spec fn tag_named(name: Seq<char>) -> Option<TypeTag> {
    if name == seq!['(', ')'] {
        Some(TypeTag::UNIT)
    } else if name == seq!['b', 'o', 'o', 'l'] {
        Some(TypeTag::BOOL)
    } else if name == seq!['u', '8'] {
        Some(TypeTag::U8)
    } else if name == seq!['i', '3', '2'] {
        Some(TypeTag::I32)
    } else if name == seq!['u', '3', '2'] {
        Some(TypeTag::U32)
    } else if name == seq!['s', 't', 'r'] {
        Some(TypeTag::STR)
    } else if name == seq!['[', 'u', '8', ']'] {
        Some(TypeTag::BYTES)
    } else {
        None
    }
}

/// The rights that an access annotation names.
pub open spec fn access_named(name: Seq<char>) -> Option<Access> {
    if name == seq!['W', 'O'] {
        Some(Access { w: true, r: false })
    } else if name == seq!['R', 'O'] {
        Some(Access { w: false, r: true })
    } else if name == seq!['R', 'W'] {
        Some(Access { w: true, r: true })
    } else {
        None
    }
}

/// The rights in force after the first `n` fields of an object: each field
/// with the key of the access annotation overrides what came before it.
pub open spec fn declared_meta(fields: Seq<FieldView>, inherited: MetaDesc, n: nat) -> Result<
    MetaDesc,
    SchemeError,
>
    decreases n,
{
    if n == 0 || n > fields.len() {
        Ok(inherited)
    } else {
        match declared_meta(fields, inherited, (n - 1) as nat) {
            Err(e) => Err(e),
            Ok(meta) => if fields[n - 1].name == access_key() {
                match fields[n - 1].value {
                    SchemeView::Text(rights) => match access_named(rights) {
                        Some(a) => Ok(MetaDesc { w: a.w, r: a.r }),
                        None => Err(SchemeError::UnsupportedAccess),
                    },
                    _ => Err(SchemeError::AccessAnnotation),
                }
            } else {
                Ok(meta)
            },
        }
    }
}

/// The type that the first `n` fields of an object declare for it, if any: the
/// last field with the key of the type annotation decides.
pub open spec fn declared_type(fields: Seq<FieldView>, n: nat) -> Result<
    Option<TypeTag>,
    SchemeError,
>
    decreases n,
{
    if n == 0 || n > fields.len() {
        Ok(None)
    } else {
        match declared_type(fields, (n - 1) as nat) {
            Err(e) => Err(e),
            Ok(ty) => if fields[n - 1].name == type_key() {
                match fields[n - 1].value {
                    SchemeView::Text(name) => match tag_named(name) {
                        Some(t) => Ok(Some(t)),
                        None => Err(SchemeError::UnsupportedType),
                    },
                    _ => Err(SchemeError::TypeAnnotation),
                }
            } else {
                Ok(ty)
            },
        }
    }
}

/// The rights of a leaf: a unit leaf is a trigger, written and never read.
pub open spec fn leaf_meta(ty: TypeTag, meta: MetaDesc) -> MetaDesc {
    if ty is UNIT {
        MetaDesc { w: true, r: false }
    } else {
        meta
    }
}

/// A fresh leaf.
pub open spec fn leaf_of(path: Seq<char>, name: Seq<char>, ty: TypeTag, meta: MetaDesc) -> LeafView {
    LeafView { name, path, meta: leaf_meta(ty, meta), ty, view: blank_view() }
}

/// The path of the child `name` of the node at `path`.
pub open spec fn child_path(path: Seq<char>, name: Seq<char>) -> Seq<char> {
    path + seq!['/'] + name
}

/// The tree that the schema entry `value`, found under `name` at `path`, stands for.
pub open spec fn tree_of(path: Seq<char>, name: Seq<char>, value: SchemeView, meta: MetaDesc) -> Result<
    TreeView,
    SchemeError,
>
    decreases value, 0nat,
{
    match value {
        SchemeView::Text(ty_name) => match tag_named(ty_name) {
            Some(ty) => Ok(TreeView::Leaf(leaf_of(path, name, ty, meta))),
            None => Err(SchemeError::UnsupportedType),
        },
        SchemeView::Object(fields) => match declared_meta(fields, meta, fields.len()) {
            Err(e) => Err(e),
            Ok(own) => match declared_type(fields, fields.len()) {
                Err(e) => Err(e),
                Ok(Some(ty)) => Ok(TreeView::Leaf(leaf_of(path, name, ty, own))),
                Ok(None) => match children_of(path, fields, own, fields.len()) {
                    Err(e) => Err(e),
                    Ok(children) => Ok(
                        TreeView::Node {
                            name,
                            path,
                            meta: own,
                            view: ViewNode { fold: true },
                            children,
                        },
                    ),
                },
            },
        },
        SchemeView::Other => Err(SchemeError::UnexpectedEntity),
    }
}

/// The trees of the first `n` fields of an object at `path`, annotations left
/// out. The first field that gives no tree decides the error.
pub open spec fn children_of(path: Seq<char>, fields: Seq<FieldView>, meta: MetaDesc, n: nat) -> Result<
    Seq<TreeView>,
    SchemeError,
>
    decreases fields, n,
{
    if n == 0 || n > fields.len() {
        Ok(Seq::empty())
    } else {
        match children_of(path, fields, meta, (n - 1) as nat) {
            Err(e) => Err(e),
            Ok(front) => if is_annotation(fields[n - 1].name) {
                Ok(front)
            } else {
                match tree_of(
                    child_path(path, fields[n - 1].name),
                    fields[n - 1].name,
                    fields[n - 1].value,
                    meta,
                ) {
                    Err(e) => Err(e),
                    Ok(tree) => Ok(front.push(tree)),
                }
            },
        }
    }
}

/// The trees that a schema document stands for: one for each field of the root
/// object that is no annotation, read-only where nothing overrides it.
pub open spec fn forest_of(root: SchemeView) -> Result<Seq<TreeView>, SchemeError> {
    match root {
        SchemeView::Object(fields) => children_of(
            Seq::empty(),
            fields,
            MetaDesc { w: false, r: true },
            fields.len(),
        ),
        _ => Err(SchemeError::NonRootObject),
    }
}

/// An error among the first `n` fields is the error of every longer prefix.
pub proof fn lemma_declared_meta_error(fields: Seq<FieldView>, inherited: MetaDesc, n: nat, m: nat)
    requires
        n <= m <= fields.len(),
        declared_meta(fields, inherited, n) is Err,
    ensures
        declared_meta(fields, inherited, m) == declared_meta(fields, inherited, n),
    decreases m,
{
    if n < m {
        lemma_declared_meta_error(fields, inherited, n, (m - 1) as nat);
    }
}

/// An error among the first `n` fields is the error of every longer prefix.
pub proof fn lemma_declared_type_error(fields: Seq<FieldView>, n: nat, m: nat)
    requires
        n <= m <= fields.len(),
        declared_type(fields, n) is Err,
    ensures
        declared_type(fields, m) == declared_type(fields, n),
    decreases m,
{
    if n < m {
        lemma_declared_type_error(fields, n, (m - 1) as nat);
    }
}

/// An error among the first `n` fields is the error of every longer prefix.
pub proof fn lemma_children_error(
    path: Seq<char>,
    fields: Seq<FieldView>,
    meta: MetaDesc,
    n: nat,
    m: nat,
)
    requires
        n <= m <= fields.len(),
        children_of(path, fields, meta, n) is Err,
    ensures
        children_of(path, fields, meta, m) == children_of(path, fields, meta, n),
    decreases m,
{
    if n < m {
        lemma_children_error(path, fields, meta, n, (m - 1) as nat);
    }
}

/// Whether a key of the schema names a child rather than an annotation.
pub fn filter_nodes(name: &String) -> (keep: bool)
    ensures
        keep == !is_annotation(name@),
{
    proof {
        reveal_strlit("@");
        assert("@"@ =~= annotation_token());
    }
    !starts_with(name.as_str(), "@")
}

/// The type that a type name of the schema stands for.
pub fn ty_convert(tytag: &String) -> (r: Result<TypeTag, SchemeError>)
    ensures
        r == match tag_named(tytag@) {
            Some(ty) => Ok::<TypeTag, SchemeError>(ty),
            None => Err(SchemeError::UnsupportedType),
        },
{
    proof {
        reveal_strlit("()");
        reveal_strlit("bool");
        reveal_strlit("u8");
        reveal_strlit("i32");
        reveal_strlit("u32");
        reveal_strlit("str");
        reveal_strlit("[u8]");
        assert("()"@ =~= seq!['(', ')']);
        assert("bool"@ =~= seq!['b', 'o', 'o', 'l']);
        assert("u8"@ =~= seq!['u', '8']);
        assert("i32"@ =~= seq!['i', '3', '2']);
        assert("u32"@ =~= seq!['u', '3', '2']);
        assert("str"@ =~= seq!['s', 't', 'r']);
        assert("[u8]"@ =~= seq!['[', 'u', '8', ']']);
    }
    let name = tytag.as_str();
    if same_text(name, "()") {
        Ok(TypeTag::UNIT)
    } else if same_text(name, "bool") {
        Ok(TypeTag::BOOL)
    } else if same_text(name, "u8") {
        Ok(TypeTag::U8)
    } else if same_text(name, "i32") {
        Ok(TypeTag::I32)
    } else if same_text(name, "u32") {
        Ok(TypeTag::U32)
    } else if same_text(name, "str") {
        Ok(TypeTag::STR)
    } else if same_text(name, "[u8]") {
        Ok(TypeTag::BYTES)
    } else {
        Err(SchemeError::UnsupportedType)
    }
}

/// The rights that an access annotation names.
pub fn access_convert(access: &String) -> (r: Result<Access, SchemeError>)
    ensures
        r == match access_named(access@) {
            Some(a) => Ok::<Access, SchemeError>(a),
            None => Err(SchemeError::UnsupportedAccess),
        },
{
    proof {
        reveal_strlit("WO");
        reveal_strlit("RO");
        reveal_strlit("RW");
        assert("WO"@ =~= seq!['W', 'O']);
        assert("RO"@ =~= seq!['R', 'O']);
        assert("RW"@ =~= seq!['R', 'W']);
    }
    let name = access.as_str();
    if same_text(name, "WO") {
        Ok(Access { w: true, r: false })
    } else if same_text(name, "RO") {
        Ok(Access { w: false, r: true })
    } else if same_text(name, "RW") {
        Ok(Access { w: true, r: true })
    } else {
        Err(SchemeError::UnsupportedAccess)
    }
}

/// The type that an object of the schema declares for itself, if any.
pub fn extract_ty(fields: &Vec<Field>) -> (r: Result<Option<TypeTag>, SchemeError>)
    ensures
        r == declared_type(fields_view(fields@, fields@.len()), fields@.len()),
{
    let ghost all = fields_view(fields@, fields@.len());
    proof {
        lemma_fields_view(fields@, fields@.len());
        reveal_strlit("@type");
        assert("@type"@ =~= type_key());
    }
    let mut ty: Option<TypeTag> = None;
    let mut i: usize = 0;
    while i < fields.len()
        invariant
            i <= fields.len(),
            all == fields_view(fields@, fields@.len()),
            all.len() == fields@.len(),
            forall|k: int|
                0 <= k < fields@.len() ==> #[trigger] all[k] == (FieldView {
                    name: fields@[k].name@,
                    value: fields@[k].value@,
                }),
            "@type"@ == type_key(),
            declared_type(all, i as nat) == Ok::<Option<TypeTag>, SchemeError>(ty),
        decreases fields.len() - i,
    {
        let field = &fields[i];
        assert(all[i as int].name == field.name@ && all[i as int].value == field.value@);
        if same_text(field.name.as_str(), "@type") {
            match &field.value {
                Scheme::Text(name) => match ty_convert(name) {
                    Ok(t) => {
                        ty = Some(t);
                    },
                    Err(e) => {
                        proof {
                            lemma_declared_type_error(all, (i + 1) as nat, fields@.len());
                        }
                        return Err(e);
                    },
                },
                _ => {
                    proof {
                        lemma_declared_type_error(all, (i + 1) as nat, fields@.len());
                    }
                    return Err(SchemeError::TypeAnnotation);
                },
            }
        }
        i = i + 1;
    }
    Ok(ty)
}

/// The rights of an object of the schema: those it inherits, unless an access
/// annotation among its fields overrides them.
pub fn extract_meta(fields: &Vec<Field>, inhereted_meta: MetaDesc) -> (r: Result<
    MetaDesc,
    SchemeError,
>)
    ensures
        r == declared_meta(fields_view(fields@, fields@.len()), inhereted_meta, fields@.len()),
{
    let ghost all = fields_view(fields@, fields@.len());
    proof {
        lemma_fields_view(fields@, fields@.len());
        reveal_strlit("@access");
        assert("@access"@ =~= access_key());
    }
    let mut meta = inhereted_meta;
    let mut i: usize = 0;
    while i < fields.len()
        invariant
            i <= fields.len(),
            all == fields_view(fields@, fields@.len()),
            all.len() == fields@.len(),
            forall|k: int|
                0 <= k < fields@.len() ==> #[trigger] all[k] == (FieldView {
                    name: fields@[k].name@,
                    value: fields@[k].value@,
                }),
            "@access"@ == access_key(),
            declared_meta(all, inhereted_meta, i as nat) == Ok::<MetaDesc, SchemeError>(meta),
        decreases fields.len() - i,
    {
        let field = &fields[i];
        assert(all[i as int].name == field.name@ && all[i as int].value == field.value@);
        if same_text(field.name.as_str(), "@access") {
            match &field.value {
                Scheme::Text(rights) => match access_convert(rights) {
                    Ok(a) => {
                        meta = MetaDesc { w: a.w, r: a.r };
                    },
                    Err(e) => {
                        proof {
                            lemma_declared_meta_error(
                                all,
                                inhereted_meta,
                                (i + 1) as nat,
                                fields@.len(),
                            );
                        }
                        return Err(e);
                    },
                },
                _ => {
                    proof {
                        lemma_declared_meta_error(
                            all,
                            inhereted_meta,
                            (i + 1) as nat,
                            fields@.len(),
                        );
                    }
                    return Err(SchemeError::AccessAnnotation);
                },
            }
        }
        i = i + 1;
    }
    Ok(meta)
}

/// Whether `r` is the outcome `expected`: the same error, or a tree with that content.
pub open spec fn builds(r: Result<Tree, SchemeError>, expected: Result<TreeView, SchemeError>) -> bool {
    match expected {
        Ok(tree) => r matches Ok(t) && t@ == tree,
        Err(e) => r == Err::<Tree, SchemeError>(e),
    }
}

/// Makes the leaf `name` at `path`.
pub fn visit_leaf(path: &String, name: &String, ty: TypeTag, meta: MetaDesc) -> (tree: Tree)
    ensures
        tree@ == TreeView::Leaf(leaf_of(path@, name@, ty, meta)),
{
    let meta = match ty {
        TypeTag::UNIT => MetaDesc { w: true, r: false },
        _ => meta,
    };
    Tree::TLeafV(
        TLeaf { name: name.clone(), path: path.clone(), meta, ty, view: ViewLeaf::default() },
    )
}

/// Makes the tree of an object of the schema: a leaf where the object declares
/// a type, a node over the trees of its fields where it does not.
pub fn visit_node(
    path: &String,
    name: &String,
    fields: &Vec<Field>,
    inherited: MetaDesc,
) -> (r: Result<Tree, SchemeError>)
    ensures
        builds(
            r,
            tree_of(
                path@,
                name@,
                SchemeView::Object(fields_view(fields@, fields@.len())),
                inherited,
            ),
        ),
    decreases fields,
{
    let ghost all = fields_view(fields@, fields@.len());
    proof {
        lemma_fields_view(fields@, fields@.len());
    }
    let meta = match extract_meta(fields, inherited) {
        Ok(m) => m,
        Err(e) => {
            return Err(e);
        },
    };
    match extract_ty(fields) {
        Err(e) => Err(e),
        Ok(Some(ty)) => Ok(visit_leaf(path, name, ty, meta)),
        Ok(None) => {
            let mut children: Vec<Tree> = Vec::new();
            let mut i: usize = 0;
            while i < fields.len()
                invariant
                    i <= fields.len(),
                    all == fields_view(fields@, fields@.len()),
                    all.len() == fields@.len(),
                    forall|k: int|
                        0 <= k < fields@.len() ==> #[trigger] all[k] == (FieldView {
                            name: fields@[k].name@,
                            value: fields@[k].value@,
                        }),
                    declared_meta(all, inherited, all.len()) == Ok::<MetaDesc, SchemeError>(meta),
                    declared_type(all, all.len()) == Ok::<Option<TypeTag>, SchemeError>(None),
                    children_of(path@, all, meta, i as nat) == Ok::<Seq<TreeView>, SchemeError>(
                        forest_view(children@, children@.len()),
                    ),
                decreases fields.len() - i,
            {
                let field = &fields[i];
                assert(all[i as int].name == field.name@ && all[i as int].value == field.value@);
                if filter_nodes(&field.name) {
                    let new_path = path.clone().concat("/").concat(field.name.as_str());
                    proof {
                        reveal_strlit("/");
                        assert(new_path@ =~= child_path(path@, field.name@));
                    }
                    match visit_tree(&new_path, &field.name, &field.value, meta) {
                        Ok(tree) => {
                            proof {
                                lemma_forest_view(children@, children@.len());
                                lemma_forest_view(children@.push(tree), children@.len() + 1);
                                assert(forest_view(children@.push(tree), children@.len() + 1)
                                    =~= forest_view(children@, children@.len()).push(tree@));
                            }
                            children.push(tree);
                        },
                        Err(e) => {
                            proof {
                                assert(children_of(path@, all, meta, (i + 1) as nat) == Err::<
                                    Seq<TreeView>,
                                    SchemeError,
                                >(e));
                                lemma_children_error(
                                    path@,
                                    all,
                                    meta,
                                    (i + 1) as nat,
                                    fields@.len(),
                                );
                            }
                            return Err(e);
                        },
                    }
                }
                i = i + 1;
            }
            Ok(
                Tree::TNodeV(
                    TNode {
                        name: name.clone(),
                        path: path.clone(),
                        meta,
                        view: ViewNode::default(),
                        children,
                    },
                ),
            )
        },
    }
}

/// Makes the tree of the schema entry `value`, found under `name` at `path`.
pub fn visit_tree(path: &String, name: &String, value: &Scheme, meta: MetaDesc) -> (r: Result<
    Tree,
    SchemeError,
>)
    ensures
        builds(r, tree_of(path@, name@, value@, meta)),
    decreases value,
{
    match value {
        Scheme::Object(fields) => visit_node(path, name, fields, meta),
        Scheme::Text(ty_s) => match ty_convert(ty_s) {
            Ok(ty) => Ok(visit_leaf(path, name, ty, meta)),
            Err(e) => Err(e),
        },
        Scheme::Other => Err(SchemeError::UnexpectedEntity),
    }
}

/// Makes the trees of a schema document: one for each field of the root object
/// that is no annotation. Rights are read-only where nothing overrides them.
pub fn tree_model(root: &Scheme) -> (r: Result<Vec<Tree>, SchemeError>)
    ensures
        match forest_of(root@) {
            Ok(trees) => r matches Ok(built) && forest_view(built@, built@.len()) == trees,
            Err(e) => r == Err::<Vec<Tree>, SchemeError>(e),
        },
{
    let meta = MetaDesc::default();
    match root {
        Scheme::Object(fields) => {
            let ghost all = fields_view(fields@, fields@.len());
            proof {
                lemma_fields_view(fields@, fields@.len());
            }
            let mut children: Vec<Tree> = Vec::new();
            let mut i: usize = 0;
            while i < fields.len()
                invariant
                    i <= fields.len(),
                    all == fields_view(fields@, fields@.len()),
                    all.len() == fields@.len(),
                    forall|k: int|
                        0 <= k < fields@.len() ==> #[trigger] all[k] == (FieldView {
                            name: fields@[k].name@,
                            value: fields@[k].value@,
                        }),
                    root@ == SchemeView::Object(all),
                    meta == (MetaDesc { w: false, r: true }),
                    children_of(Seq::empty(), all, meta, i as nat) == Ok::<
                        Seq<TreeView>,
                        SchemeError,
                    >(forest_view(children@, children@.len())),
                decreases fields.len() - i,
            {
                let field = &fields[i];
                assert(all[i as int].name == field.name@ && all[i as int].value == field.value@);
                if filter_nodes(&field.name) {
                    let new_path = String::from_str("/").concat(field.name.as_str());
                    proof {
                        reveal_strlit("/");
                        assert(new_path@ =~= child_path(Seq::empty(), field.name@));
                    }
                    match visit_tree(&new_path, &field.name, &field.value, meta) {
                        Ok(tree) => {
                            proof {
                                lemma_forest_view(children@, children@.len());
                                lemma_forest_view(children@.push(tree), children@.len() + 1);
                                assert(forest_view(children@.push(tree), children@.len() + 1)
                                    =~= forest_view(children@, children@.len()).push(tree@));
                            }
                            children.push(tree);
                        },
                        Err(e) => {
                            proof {
                                assert(children_of(Seq::empty(), all, meta, (i + 1) as nat)
                                    == Err::<Seq<TreeView>, SchemeError>(e));
                                lemma_children_error(
                                    Seq::empty(),
                                    all,
                                    meta,
                                    (i + 1) as nat,
                                    fields@.len(),
                                );
                            }
                            return Err(e);
                        },
                    }
                }
                i = i + 1;
            }
            Ok(children)
        },
        _ => Err(SchemeError::NonRootObject),
    }
}

/// The leaves of a tree, from left to right.
pub open spec fn leaves(tree: TreeView) -> Seq<LeafView>
    decreases tree, 0nat,
{
    match tree {
        TreeView::Leaf(leaf) => seq![leaf],
        TreeView::Node { children, .. } => leaves_in(children, children.len()),
    }
}

/// The leaves of the first `n` trees of `trees`, from left to right.
pub open spec fn leaves_in(trees: Seq<TreeView>, n: nat) -> Seq<LeafView>
    decreases trees, n,
{
    if n == 0 || n > trees.len() {
        Seq::empty()
    } else {
        leaves_in(trees, (n - 1) as nat) + leaves(trees[n - 1])
    }
}

/// `table` after the first `n` of `leaves` were entered under their paths, one
/// after the other: of two leaves with one path the later stays.
pub open spec fn entered(table: Map<Seq<char>, LeafView>, leaves: Seq<LeafView>, n: nat) -> Map<
    Seq<char>,
    LeafView,
>
    decreases n,
{
    if n == 0 || n > leaves.len() {
        table
    } else {
        entered(table, leaves, (n - 1) as nat).insert(leaves[n - 1].path, leaves[n - 1])
    }
}

/// The flat lookup of a sequence of leaves by path.
pub open spec fn table_of(leaves: Seq<LeafView>) -> Map<Seq<char>, LeafView> {
    entered(Map::empty(), leaves, leaves.len())
}

/// The contents of a lookup table.
pub open spec fn table_view(table: Map<Seq<char>, TLeaf>) -> Map<Seq<char>, LeafView> {
    table.map_values(|leaf: TLeaf| leaf@)
}

/// Entering two runs of leaves one after the other enters their concatenation.
pub proof fn lemma_entered_concat(
    table: Map<Seq<char>, LeafView>,
    a: Seq<LeafView>,
    b: Seq<LeafView>,
    n: nat,
)
    requires
        n <= b.len(),
    ensures
        entered(table, a + b, a.len() + n) == entered(entered(table, a, a.len()), b, n),
    decreases n,
{
    if n == 0 {
        lemma_entered_prefix(table, a, a + b, a.len());
    } else {
        lemma_entered_concat(table, a, b, (n - 1) as nat);
        assert((a + b)[a.len() + n - 1] == b[n - 1]);
    }
}

/// Entering the first `n` leaves depends on those `n` only.
pub proof fn lemma_entered_prefix(
    table: Map<Seq<char>, LeafView>,
    a: Seq<LeafView>,
    b: Seq<LeafView>,
    n: nat,
)
    requires
        n <= a.len(),
        n <= b.len(),
        forall|i: int| 0 <= i < n ==> a[i] == b[i],
    ensures
        entered(table, a, n) == entered(table, b, n),
    decreases n,
{
    if n > 0 {
        lemma_entered_prefix(table, a, b, (n - 1) as nat);
    }
}

/// The leaves of the first `n` trees depend on those `n` only.
pub proof fn lemma_leaves_in_prefix(a: Seq<TreeView>, b: Seq<TreeView>, n: nat)
    requires
        n <= a.len(),
        n <= b.len(),
        forall|i: int| 0 <= i < n ==> a[i] == b[i],
    ensures
        leaves_in(a, n) == leaves_in(b, n),
    decreases n,
{
    if n > 0 {
        lemma_leaves_in_prefix(a, b, (n - 1) as nat);
        assert(leaves_in(a, n) == leaves_in(a, (n - 1) as nat) + leaves(a[n - 1]));
        assert(leaves_in(b, n) == leaves_in(b, (n - 1) as nat) + leaves(b[n - 1]));
    } else {
        assert(leaves_in(a, n) == Seq::<LeafView>::empty());
        assert(leaves_in(b, n) == Seq::<LeafView>::empty());
    }
}

/// Enters the leaves of `tree` into `table`, from left to right.
fn inner_visit(tree: &Tree, table: &mut StringHashMap<TLeaf>)
    ensures
        table_view(final(table)@) == entered(
            table_view(old(table)@),
            leaves(tree@),
            leaves(tree@).len(),
        ),
    decreases tree,
{
    let ghost before = table_view(table@);
    match tree {
        Tree::TLeafV(leaf) => {
            let entry = leaf.clone();
            proof {
                assert(table_view(table@.insert(leaf.path@, entry)) =~= before.insert(
                    leaf@.path,
                    leaf@,
                ));
                assert(entered(before, seq![leaf@], 0) == before);
            }
            table.insert(leaf.path.clone(), entry);
        },
        Tree::TNodeV(node) => {
            let ghost kids = forest_view(node.children@, node.children@.len());
            proof {
                lemma_forest_view(node.children@, node.children@.len());
                assert(leaves_in(kids, 0) == Seq::<LeafView>::empty());
            }
            let mut i: usize = 0;
            while i < node.children.len()
                invariant
                    i <= node.children.len(),
                    *tree matches Tree::TNodeV(n) && n.children == node.children,
                    kids == forest_view(node.children@, node.children@.len()),
                    kids.len() == node.children@.len(),
                    forall|k: int| 0 <= k < kids.len() ==> #[trigger] kids[k] == node.children@[k]@,
                    table_view(table@) == entered(
                        before,
                        leaves_in(kids, i as nat),
                        leaves_in(kids, i as nat).len(),
                    ),
                decreases node.children.len() - i,
            {
                let ghost done = leaves_in(kids, i as nat);
                let ghost more = leaves(kids[i as int]);
                inner_visit(&node.children[i], table);
                proof {
                    assert(leaves_in(kids, (i + 1) as nat) == done + more);
                    lemma_entered_concat(before, done, more, more.len());
                }
                i = i + 1;
            }
        },
    }
}

/// Builds the flat lookup of the leaves of `trees` by path. The trees are gone
/// through from left to right; of two leaves with one path the later stays.
pub fn build_view_leaf(trees: &Vec<Tree>) -> (table: StringHashMap<TLeaf>)
    ensures
        table_view(table@) == table_of(
            leaves_in(forest_view(trees@, trees@.len()), trees@.len()),
        ),
{
    let ghost all = forest_view(trees@, trees@.len());
    let mut table: StringHashMap<TLeaf> = StringHashMap::new();
    proof {
        lemma_forest_view(trees@, trees@.len());
        assert(leaves_in(all, 0) == Seq::<LeafView>::empty());
        assert(table_view(table@) =~= Map::<Seq<char>, LeafView>::empty());
    }
    let mut i: usize = 0;
    while i < trees.len()
        invariant
            i <= trees.len(),
            all == forest_view(trees@, trees@.len()),
            all.len() == trees@.len(),
            forall|k: int| 0 <= k < all.len() ==> #[trigger] all[k] == trees@[k]@,
            table_view(table@) == entered(
                Map::empty(),
                leaves_in(all, i as nat),
                leaves_in(all, i as nat).len(),
            ),
        decreases trees.len() - i,
    {
        let ghost done = leaves_in(all, i as nat);
        let ghost more = leaves(all[i as int]);
        inner_visit(&trees[i], &mut table);
        proof {
            assert(leaves_in(all, (i + 1) as nat) == done + more);
            lemma_entered_concat(Map::empty(), done, more, more.len());
        }
        i = i + 1;
    }
    table
}

/// The nodes of a tree, each with its path and what the user sees of it, a
/// node before the nodes below it.
pub open spec fn nodes(tree: TreeView) -> Seq<(Seq<char>, ViewNode)>
    decreases tree, 0nat,
{
    match tree {
        TreeView::Leaf(_) => Seq::empty(),
        TreeView::Node { path, view, children, .. } => seq![(path, view)] + nodes_in(
            children,
            children.len(),
        ),
    }
}

/// The nodes of the first `n` trees of `trees`, from left to right.
pub open spec fn nodes_in(trees: Seq<TreeView>, n: nat) -> Seq<(Seq<char>, ViewNode)>
    decreases trees, n,
{
    if n == 0 || n > trees.len() {
        Seq::empty()
    } else {
        nodes_in(trees, (n - 1) as nat) + nodes(trees[n - 1])
    }
}

/// `table` after the first `n` of `nodes` were noted under their paths, one
/// after the other: of two nodes with one path the later stays.
pub open spec fn noted(
    table: Map<Seq<char>, ViewNode>,
    nodes: Seq<(Seq<char>, ViewNode)>,
    n: nat,
) -> Map<Seq<char>, ViewNode>
    decreases n,
{
    if n == 0 || n > nodes.len() {
        table
    } else {
        noted(table, nodes, (n - 1) as nat).insert(nodes[n - 1].0, nodes[n - 1].1)
    }
}

/// The flat lookup of a sequence of nodes by path.
pub open spec fn fold_table_of(nodes: Seq<(Seq<char>, ViewNode)>) -> Map<Seq<char>, ViewNode> {
    noted(Map::empty(), nodes, nodes.len())
}

/// Noting the first `n` nodes depends on those `n` only.
pub proof fn lemma_noted_prefix(
    table: Map<Seq<char>, ViewNode>,
    a: Seq<(Seq<char>, ViewNode)>,
    b: Seq<(Seq<char>, ViewNode)>,
    n: nat,
)
    requires
        n <= a.len(),
        n <= b.len(),
        forall|i: int| 0 <= i < n ==> a[i] == b[i],
    ensures
        noted(table, a, n) == noted(table, b, n),
    decreases n,
{
    if n > 0 {
        lemma_noted_prefix(table, a, b, (n - 1) as nat);
    }
}

/// Noting two runs of nodes one after the other notes their concatenation.
pub proof fn lemma_noted_concat(
    table: Map<Seq<char>, ViewNode>,
    a: Seq<(Seq<char>, ViewNode)>,
    b: Seq<(Seq<char>, ViewNode)>,
    n: nat,
)
    requires
        n <= b.len(),
    ensures
        noted(table, a + b, a.len() + n) == noted(noted(table, a, a.len()), b, n),
    decreases n,
{
    if n == 0 {
        lemma_noted_prefix(table, a, a + b, a.len());
    } else {
        lemma_noted_concat(table, a, b, (n - 1) as nat);
        assert((a + b)[a.len() + n - 1] == b[n - 1]);
    }
}

/// Notes the nodes of `tree` in `table`, a node before the nodes below it.
fn note_nodes(tree: &Tree, table: &mut StringHashMap<ViewNode>)
    ensures
        final(table)@ == noted(old(table)@, nodes(tree@), nodes(tree@).len()),
    decreases tree,
{
    let ghost before = table@;
    match tree {
        Tree::TLeafV(_) => {},
        Tree::TNodeV(node) => {
            let ghost kids = forest_view(node.children@, node.children@.len());
            let ghost own = seq![(node.path@, node.view)];
            proof {
                lemma_forest_view(node.children@, node.children@.len());
                assert(nodes_in(kids, 0) == Seq::<(Seq<char>, ViewNode)>::empty());
                assert(noted(before, own, 0) == before);
                assert(own + nodes_in(kids, 0) =~= own);
            }
            table.insert(node.path.clone(), node.view);
            let mut i: usize = 0;
            while i < node.children.len()
                invariant
                    i <= node.children.len(),
                    *tree matches Tree::TNodeV(n) && n.children == node.children,
                    kids == forest_view(node.children@, node.children@.len()),
                    kids.len() == node.children@.len(),
                    forall|k: int| 0 <= k < kids.len() ==> #[trigger] kids[k] == node.children@[k]@,
                    own.len() == 1,
                    table@ == noted(
                        before,
                        own + nodes_in(kids, i as nat),
                        (own + nodes_in(kids, i as nat)).len(),
                    ),
                decreases node.children.len() - i,
            {
                let ghost done = own + nodes_in(kids, i as nat);
                let ghost more = nodes(kids[i as int]);
                note_nodes(&node.children[i], table);
                proof {
                    assert(nodes_in(kids, (i + 1) as nat) == nodes_in(kids, i as nat) + more);
                    assert(own + nodes_in(kids, (i + 1) as nat) =~= done + more);
                    lemma_noted_concat(before, done, more, more.len());
                }
                i = i + 1;
            }
        },
    }
}

/// Builds the flat lookup of what the user sees of each node of `trees`, by
/// the node's path.
pub fn build_view_node(trees: &Vec<Tree>) -> (table: StringHashMap<ViewNode>)
    ensures
        table@ == fold_table_of(nodes_in(forest_view(trees@, trees@.len()), trees@.len())),
{
    let ghost all = forest_view(trees@, trees@.len());
    let mut table: StringHashMap<ViewNode> = StringHashMap::new();
    proof {
        lemma_forest_view(trees@, trees@.len());
        assert(nodes_in(all, 0) == Seq::<(Seq<char>, ViewNode)>::empty());
    }
    let mut i: usize = 0;
    while i < trees.len()
        invariant
            i <= trees.len(),
            all == forest_view(trees@, trees@.len()),
            all.len() == trees@.len(),
            forall|k: int| 0 <= k < all.len() ==> #[trigger] all[k] == trees@[k]@,
            table@ == noted(
                Map::empty(),
                nodes_in(all, i as nat),
                nodes_in(all, i as nat).len(),
            ),
        decreases trees.len() - i,
    {
        let ghost done = nodes_in(all, i as nat);
        let ghost more = nodes(all[i as int]);
        note_nodes(&trees[i], &mut table);
        proof {
            assert(nodes_in(all, (i + 1) as nat) == done + more);
            lemma_noted_concat(Map::empty(), done, more, more.len());
        }
        i = i + 1;
    }
    table
}

} // verus!
