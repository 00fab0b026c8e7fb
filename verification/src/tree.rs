//! The command registry: a tree of typed, access-controlled leaves, the flat
//! lookup of its leaves by path, and the coercion of entered text to a value.
pub mod json;
pub mod parse;
pub mod paths;

use vstd::hash_map::StringHashMap;
use vstd::prelude::*;
use vstd::string::StringExecFns;
use crate::literal::{
    array_literal, bool_literal, int_literal, parse_array_literal, parse_bool_literal,
    parse_int_literal, parse_str_literal, str_literal,
};
use crate::message::{AnswerCode, DevMsg, RequestCode};
use crate::number::{decimal_within, parse_decimal};
use crate::text::{
    flat, flat_array, has_quote, is_flat, is_shallow, one_string, same_text, shallow,
};
use crate::tree::json::{json_scheme, parse_scheme};
use crate::tree::parse::{
    build_view_leaf, build_view_node, fold_table_of, forest_of, leaves_in, nodes_in, table_of,
    table_view, tree_model, SchemeError,
};
use crate::value::{TypeTag, TypedValue, ValueView};

verus! {

/// Access rights of a node or leaf.
#[derive(Clone, Copy, Debug, PartialEq, Eq, Structural)]
pub struct MetaDesc {
    /// Write rights.
    pub w: bool,
    /// Read rights.
    pub r: bool,
}

impl Default for MetaDesc {
    /// Read-only.
    fn default() -> (m: Self)
        ensures
            m == (MetaDesc { w: false, r: true }),
    {
        MetaDesc { w: false, r: true }
    }
}

/// What the user sees of a node: whether it is folded.
#[derive(Clone, Copy, Debug, PartialEq, Eq, Structural)]
pub struct ViewNode {
    pub fold: bool,
}

impl Default for ViewNode {
    /// Folded.
    fn default() -> (v: Self)
        ensures
            v == (ViewNode { fold: true }),
    {
        ViewNode { fold: true }
    }
}

/// What the user sees of a leaf: the text being entered, a default for it, and
/// the value last read from the device.
#[derive(Debug, PartialEq, Eq)]
pub struct ViewLeaf {
    pub input_val: String,
    pub input_def: Option<String>,
    pub val: Option<TypedValue>,
}

/// The mathematical content of a [`ViewLeaf`].
pub struct ViewLeafView {
    pub input_val: Seq<char>,
    pub input_def: Option<Seq<char>>,
    pub val: Option<ValueView>,
}

impl View for ViewLeaf {
    type V = ViewLeafView;

    open spec fn view(&self) -> ViewLeafView {
        ViewLeafView {
            input_val: self.input_val@,
            input_def: match self.input_def {
                Some(s) => Some(s@),
                None => None,
            },
            val: match self.val {
                Some(v) => Some(v@),
                None => None,
            },
        }
    }
}

/// A leaf view with nothing entered and nothing read.
pub open spec fn blank_view() -> ViewLeafView {
    ViewLeafView { input_val: Seq::empty(), input_def: None, val: None }
}

impl Default for ViewLeaf {
    fn default() -> (v: Self)
        ensures
            v@ == blank_view(),
    {
        ViewLeaf { input_val: String::new(), input_def: None, val: None }
    }
}

impl Clone for ViewLeaf {
    fn clone(&self) -> (r: Self)
        ensures
            r@ == self@,
    {
        ViewLeaf {
            input_val: self.input_val.clone(),
            input_def: match &self.input_def {
                Some(s) => Some(s.clone()),
                None => None,
            },
            val: match &self.val {
                Some(v) => Some(v.clone()),
                None => None,
            },
        }
    }
}

/// A single addressable, typed, access-controlled endpoint.
#[derive(Debug, PartialEq, Eq)]
pub struct TLeaf {
    pub name: String,
    pub path: String,
    pub meta: MetaDesc,
    pub ty: TypeTag,
    pub view: ViewLeaf,
}

/// The mathematical content of a [`TLeaf`].
pub struct LeafView {
    pub name: Seq<char>,
    pub path: Seq<char>,
    pub meta: MetaDesc,
    pub ty: TypeTag,
    pub view: ViewLeafView,
}

impl View for TLeaf {
    type V = LeafView;

    open spec fn view(&self) -> LeafView {
        LeafView {
            name: self.name@,
            path: self.path@,
            meta: self.meta,
            ty: self.ty,
            view: self.view@,
        }
    }
}

impl Clone for TLeaf {
    fn clone(&self) -> (r: Self)
        ensures
            r@ == self@,
    {
        TLeaf {
            name: self.name.clone(),
            path: self.path.clone(),
            meta: self.meta,
            ty: self.ty,
            view: self.view.clone(),
        }
    }
}

/// A branch: it groups leaves and nodes, which inherit its access rights.
#[derive(Debug, PartialEq, Eq)]
pub struct TNode {
    pub name: String,
    pub path: String,
    pub meta: MetaDesc,
    pub view: ViewNode,
    pub children: Vec<Tree>,
}

/// One tree of the registry. Leaves are referred to by their path, never by a
/// handle into the tree.
#[derive(Debug, PartialEq, Eq)]
pub enum Tree {
    TNodeV(TNode),
    TLeafV(TLeaf),
}

/// The mathematical content of a [`Tree`].
pub enum TreeView {
    Node { name: Seq<char>, path: Seq<char>, meta: MetaDesc, view: ViewNode, children: Seq<TreeView> },
    Leaf(LeafView),
}

impl View for Tree {
    type V = TreeView;

    open spec fn view(&self) -> TreeView
        decreases self,
    {
        match self {
            Tree::TNodeV(node) => TreeView::Node {
                name: node.name@,
                path: node.path@,
                meta: node.meta,
                view: node.view,
                children: forest_view(node.children@, node.children@.len()),
            },
            Tree::TLeafV(leaf) => TreeView::Leaf(leaf@),
        }
    }
}

/// The contents of the first `n` trees of `trees`, in order.
pub open spec fn forest_view(trees: Seq<Tree>, n: nat) -> Seq<TreeView>
    decreases trees, n,
{
    if n == 0 || n > trees.len() {
        Seq::empty()
    } else {
        forest_view(trees, (n - 1) as nat).push(trees[n - 1].view())
    }
}

/// `forest_view` has one entry for each tree, the tree's own content.
pub proof fn lemma_forest_view(trees: Seq<Tree>, n: nat)
    requires
        n <= trees.len(),
    ensures
        forest_view(trees, n).len() == n,
        forall|i: int| 0 <= i < n ==> #[trigger] forest_view(trees, n)[i] == trees[i]@,
    decreases n,
{
    if n > 0 {
        lemma_forest_view(trees, (n - 1) as nat);
        assert(forest_view(trees, n) == forest_view(trees, (n - 1) as nat).push(trees[n - 1].view()));
    } else {
        assert(forest_view(trees, n) == Seq::<TreeView>::empty());
    }
}

impl Default for Tree {
    /// An unnamed node without rights and without children.
    fn default() -> (t: Self)
        ensures
            t@ == (TreeView::Node {
                name: Seq::empty(),
                path: Seq::empty(),
                meta: MetaDesc { w: false, r: false },
                view: ViewNode { fold: true },
                children: Seq::empty(),
            }),
    {
        Tree::TNodeV(
            TNode {
                name: String::new(),
                path: String::new(),
                meta: MetaDesc { w: false, r: false },
                view: ViewNode::default(),
                children: Vec::new(),
            },
        )
    }
}

/// Why entered text is no value of a leaf's type.
#[derive(Clone, Copy, Debug, PartialEq, Eq, Structural)]
pub enum ValueParseError {
    /// Text for a unit leaf that is neither empty nor `()`.
    Unit,
    /// No text, for a leaf that is no unit leaf.
    Empty,
    /// More opening brackets than a literal is read with.
    Nesting,
    /// The text is no literal of the kind that the type asks for.
    Literal,
    /// An integer literal with the suffix of another type.
    Suffix,
    /// An integer literal whose value the type cannot hold.
    Range,
    /// An element of a byte sequence that is no plain integer literal: it is
    /// another expression, holds a character that no integer literal is
    /// written with, or is longer than an element may be.
    Element,
}

/// Whether the tag is one of the six integer types.
pub open spec fn is_integer(ty: TypeTag) -> bool {
    ty is I8 || ty is I16 || ty is I32 || ty is U8 || ty is U16 || ty is U32
}

/// Whether the integer type has a sign.
pub open spec fn is_signed(ty: TypeTag) -> bool {
    ty is I8 || ty is I16 || ty is I32
}

/// The least value of an integer type.
pub open spec fn least(ty: TypeTag) -> int {
    match ty {
        TypeTag::I8 => i8::MIN as int,
        TypeTag::I16 => i16::MIN as int,
        TypeTag::I32 => i32::MIN as int,
        _ => 0,
    }
}

/// The greatest value of an integer type.
pub open spec fn greatest(ty: TypeTag) -> int {
    match ty {
        TypeTag::I8 => i8::MAX as int,
        TypeTag::I16 => i16::MAX as int,
        TypeTag::I32 => i32::MAX as int,
        TypeTag::U8 => u8::MAX as int,
        TypeTag::U16 => u16::MAX as int,
        TypeTag::U32 => u32::MAX as int,
        _ => 0,
    }
}

/// The literal suffix that names an integer type.
pub open spec fn suffix_of(ty: TypeTag) -> Seq<char> {
    match ty {
        TypeTag::I8 => seq!['i', '8'],
        TypeTag::I16 => seq!['i', '1', '6'],
        TypeTag::I32 => seq!['i', '3', '2'],
        TypeTag::U8 => seq!['u', '8'],
        TypeTag::U16 => seq!['u', '1', '6'],
        TypeTag::U32 => seq!['u', '3', '2'],
        _ => Seq::empty(),
    }
}

/// The value of integer type `ty` that holds `n`.
pub open spec fn integer_value(ty: TypeTag, n: int) -> ValueView {
    match ty {
        TypeTag::I8 => ValueView::I8(n as i8),
        TypeTag::I16 => ValueView::I16(n as i16),
        TypeTag::I32 => ValueView::I32(n as i32),
        TypeTag::U8 => ValueView::U8(n as u8),
        TypeTag::U16 => ValueView::U16(n as u16),
        _ => ValueView::U32(n as u32),
    }
}

/// The value that an integer literal, given by digits and suffix, has under `ty`.
/// The suffix must be empty or that of `ty`, and the digits must fit.
pub open spec fn integer_from(ty: TypeTag, digits: Seq<char>, suffix: Seq<char>) -> Result<
    ValueView,
    ValueParseError,
> {
    if suffix.len() != 0 && suffix != suffix_of(ty) {
        Err(ValueParseError::Suffix)
    } else {
        match decimal_within(digits, is_signed(ty), least(ty), greatest(ty)) {
            Some(n) => Ok(integer_value(ty, n)),
            None => Err(ValueParseError::Range),
        }
    }
}

/// The bytes that the elements of an array expression give: each element must
/// be an integer literal that fits a byte. The first element that is not decides
/// the error.
pub open spec fn bytes_from(elems: Seq<Option<Seq<char>>>) -> Result<Seq<u8>, ValueParseError>
    decreases elems.len(),
{
    if elems.len() == 0 {
        Ok(Seq::empty())
    } else {
        match bytes_from(elems.drop_last()) {
            Err(e) => Err(e),
            Ok(front) => match elems.last() {
                None => Err(ValueParseError::Element),
                Some(digits) => match decimal_within(digits, false, 0, u8::MAX as int) {
                    Some(n) => Ok(front.push(n as u8)),
                    None => Err(ValueParseError::Range),
                },
            },
        }
    }
}

/// `text` between an opening and a closing character.
pub open spec fn wrapped(open: char, text: Seq<char>, close: char) -> Seq<char> {
    seq![open] + text + seq![close]
}

/// The value that entered text has under a leaf's type tag.
///
/// Unit takes the empty text or `()`; no other type takes the empty text. A
/// boolean is a boolean literal. An integer is an integer literal without
/// suffix or with the suffix of its own type. A string is what the text reads
/// as between double quotes, a byte sequence what it reads as between square
/// brackets. Text with more opening brackets than a literal is read with is
/// refused, but for a string without a double quote; so is a byte sequence
/// that is no flat list.
pub open spec fn coerce(text: Seq<char>, ty: TypeTag) -> Result<ValueView, ValueParseError> {
    match ty {
        TypeTag::UNIT => if text.len() == 0 || text == seq!['(', ')'] {
            Ok(ValueView::UNIT)
        } else {
            Err(ValueParseError::Unit)
        },
        _ => if text.len() == 0 {
            Err(ValueParseError::Empty)
        } else {
            coerce_filled(text, ty)
        },
    }
}

/// The value that text which is not empty has under a type tag other than unit.
pub open spec fn coerce_filled(text: Seq<char>, ty: TypeTag) -> Result<ValueView, ValueParseError> {
    match ty {
        TypeTag::BOOL => if !shallow(text) {
            Err(ValueParseError::Nesting)
        } else {
            match bool_literal(text) {
                Some(b) => Ok(ValueView::BOOL(b)),
                None => Err(ValueParseError::Literal),
            }
        },
        TypeTag::STR => if !shallow(wrapped('"', text, '"')) && !one_string(
            wrapped('"', text, '"'),
        ) {
            Err(ValueParseError::Nesting)
        } else {
            match str_literal(wrapped('"', text, '"')) {
                Some(s) => Ok(ValueView::STR(s)),
                None => Err(ValueParseError::Literal),
            }
        },
        TypeTag::BYTES => if !flat(text) {
            Err(ValueParseError::Element)
        } else {
            match array_literal(wrapped('[', text, ']')) {
                Some(elems) => match bytes_from(elems) {
                    Ok(bytes) => Ok(ValueView::BYTES(bytes)),
                    Err(e) => Err(e),
                },
                None => Err(ValueParseError::Literal),
            }
        },
        _ => if !shallow(text) {
            Err(ValueParseError::Nesting)
        } else {
            match int_literal(text) {
                Some((digits, suffix)) => integer_from(ty, digits, suffix),
                None => Err(ValueParseError::Literal),
            }
        },
    }
}

/// The value of an integer literal under an integer type: the second half of
/// the coercion of an integer, behind the parser.
pub fn integer_from_literal(ty: TypeTag, digits: &str, suffix: &str) -> (r: Result<
    TypedValue,
    ValueParseError,
>)
    requires
        is_integer(ty),
    ensures
        r matches Ok(v) ==> integer_from(ty, digits@, suffix@) == Ok::<ValueView, ValueParseError>(
            v@,
        ),
        r matches Err(e) ==> integer_from(ty, digits@, suffix@) == Err::<
            ValueView,
            ValueParseError,
        >(e),
{
    let own = match ty {
        TypeTag::I8 => "i8",
        TypeTag::I16 => "i16",
        TypeTag::I32 => "i32",
        TypeTag::U8 => "u8",
        TypeTag::U16 => "u16",
        _ => "u32",
    };
    proof {
        reveal_strlit("i8");
        reveal_strlit("i16");
        reveal_strlit("i32");
        reveal_strlit("u8");
        reveal_strlit("u16");
        reveal_strlit("u32");
        assert(own@ =~= suffix_of(ty));
    }
    if suffix.unicode_len() != 0 && !same_text(suffix, own) {
        return Err(ValueParseError::Suffix);
    }
    match ty {
        TypeTag::I8 => match parse_decimal(digits, true, i8::MIN as i64, i8::MAX as i64) {
            Some(n) => Ok(TypedValue::I8(n as i8)),
            None => Err(ValueParseError::Range),
        },
        TypeTag::I16 => match parse_decimal(digits, true, i16::MIN as i64, i16::MAX as i64) {
            Some(n) => Ok(TypedValue::I16(n as i16)),
            None => Err(ValueParseError::Range),
        },
        TypeTag::I32 => match parse_decimal(digits, true, i32::MIN as i64, i32::MAX as i64) {
            Some(n) => Ok(TypedValue::I32(n as i32)),
            None => Err(ValueParseError::Range),
        },
        TypeTag::U8 => match parse_decimal(digits, false, 0, u8::MAX as i64) {
            Some(n) => Ok(TypedValue::U8(n as u8)),
            None => Err(ValueParseError::Range),
        },
        TypeTag::U16 => match parse_decimal(digits, false, 0, u16::MAX as i64) {
            Some(n) => Ok(TypedValue::U16(n as u16)),
            None => Err(ValueParseError::Range),
        },
        _ => match parse_decimal(digits, false, 0, u32::MAX as i64) {
            Some(n) => Ok(TypedValue::U32(n as u32)),
            None => Err(ValueParseError::Range),
        },
    }
}

/// The bytes that the elements of an array expression give: the second half of
/// the coercion of a byte sequence, behind the parser.
pub fn bytes_from_elements(elems: &Vec<Option<String>>) -> (r: Result<Vec<u8>, ValueParseError>)
    ensures
        r matches Ok(bytes) ==> bytes_from(elems.deep_view()) == Ok::<Seq<u8>, ValueParseError>(
            bytes@,
        ),
        r matches Err(e) ==> bytes_from(elems.deep_view()) == Err::<Seq<u8>, ValueParseError>(e),
{
    let mut bytes: Vec<u8> = Vec::new();
    let mut i: usize = 0;
    while i < elems.len()
        invariant
            i <= elems.len(),
            bytes_from(elems.deep_view().take(i as int)) == Ok::<Seq<u8>, ValueParseError>(
                bytes@,
            ),
        decreases elems.len() - i,
    {
        proof {
            let grown = elems.deep_view().take(i + 1);
            assert(grown.drop_last() =~= elems.deep_view().take(i as int));
            assert(grown.last() == elems.deep_view()[i as int]);
            assert(elems.deep_view()[i as int] == elems@[i as int].deep_view());
        }
        match &elems[i] {
            None => {
                proof {
                    lemma_bytes_from_error(elems.deep_view(), i + 1);
                }
                return Err(ValueParseError::Element);
            },
            Some(digits) => match parse_decimal(digits.as_str(), false, 0, u8::MAX as i64) {
                Some(n) => {
                    bytes.push(n as u8);
                },
                None => {
                    proof {
                        lemma_bytes_from_error(elems.deep_view(), i + 1);
                    }
                    return Err(ValueParseError::Range);
                },
            },
        }
        i = i + 1;
    }
    proof {
        assert(elems.deep_view().take(i as int) =~= elems.deep_view());
    }
    Ok(bytes)
}

/// An error among the first `n` elements is the error of the whole sequence.
proof fn lemma_bytes_from_error(elems: Seq<Option<Seq<char>>>, n: int)
    requires
        0 <= n <= elems.len(),
        bytes_from(elems.take(n)) is Err,
    ensures
        bytes_from(elems) == bytes_from(elems.take(n)),
    decreases elems.len() - n,
{
    if n < elems.len() {
        assert(elems.take(n + 1).drop_last() =~= elems.take(n));
        lemma_bytes_from_error(elems, n + 1);
    } else {
        assert(elems.take(n) =~= elems);
    }
}

/// A unit leaf takes the empty text, and of all other texts only `()`.
pub proof fn lemma_unit_coercion(text: Seq<char>)
    ensures
        text.len() == 0 ==> coerce(text, TypeTag::UNIT) == Ok::<ValueView, ValueParseError>(
            ValueView::UNIT,
        ),
        text.len() != 0 && text != seq!['(', ')'] ==> coerce(text, TypeTag::UNIT) == Err::<
            ValueView,
            ValueParseError,
        >(ValueParseError::Unit),
{
}

/// The empty text is a value of the unit type and of no other type.
pub proof fn lemma_empty_for_unit_only(ty: TypeTag)
    ensures
        coerce(Seq::empty(), ty) is Ok <==> ty is UNIT,
        !(ty is UNIT) ==> coerce(Seq::empty(), ty) == Err::<ValueView, ValueParseError>(
            ValueParseError::Empty,
        ),
{
}

/// A value that text is coerced to has the tag of the leaf, so that it is
/// encoded under that tag.
pub proof fn lemma_coerced_tag(text: Seq<char>, ty: TypeTag)
    ensures
        coerce(text, ty) matches Ok(v) ==> v.tag() == ty,
{
}

/// Converts entered text to the value that a leaf of type `ty` takes.
pub fn string_to_value(i: &str, ty: TypeTag) -> (r: Result<TypedValue, ValueParseError>)
    ensures
        r matches Ok(v) ==> coerce(i@, ty) == Ok::<ValueView, ValueParseError>(v@),
        r matches Err(e) ==> coerce(i@, ty) == Err::<ValueView, ValueParseError>(e),
        r matches Ok(v) ==> v@.tag() == ty,
{
    let empty = i.unicode_len() == 0;
    match ty {
        TypeTag::UNIT => {
            proof {
                reveal_strlit("()");
                assert("()"@ =~= seq!['(', ')']);
            }
            if empty || same_text(i, "()") {
                Ok(TypedValue::UNIT)
            } else {
                Err(ValueParseError::Unit)
            }
        },
        _ if empty => Err(ValueParseError::Empty),
        TypeTag::BOOL => if !is_shallow(i) {
            Err(ValueParseError::Nesting)
        } else {
            match parse_bool_literal(i) {
                Some(b) => Ok(TypedValue::BOOL(b)),
                None => Err(ValueParseError::Literal),
            }
        },
        TypeTag::STR => {
            let quoted = String::from_str("\"").concat(i).concat("\"");
            proof {
                reveal_strlit("\"");
                assert(quoted@ =~= wrapped('"', i@, '"'));
                if !(exists|k: int| 0 <= k < i@.len() && i@[k] == '"') {
                    assert forall|k: int| 0 < k < quoted@.len() - 1 implies quoted@[k] != '"' by {
                        assert(quoted@[k] == i@[k - 1]);
                    }
                } else {
                    let k = choose|k: int| 0 <= k < i@.len() && i@[k] == '"';
                    assert(quoted@[k + 1] == '"');
                }
            }
            if has_quote(i) && !is_shallow(quoted.as_str()) {
                Err(ValueParseError::Nesting)
            } else {
                match parse_str_literal(quoted.as_str()) {
                    Some(s) => Ok(TypedValue::STR(s)),
                    None => Err(ValueParseError::Literal),
                }
            }
        },
        TypeTag::BYTES => if !is_flat(i) {
            Err(ValueParseError::Element)
        } else {
            let bracketed = String::from_str("[").concat(i).concat("]");
            proof {
                reveal_strlit("[");
                reveal_strlit("]");
                assert(bracketed@ =~= wrapped('[', i@, ']'));
                assert(bracketed@.subrange(1, bracketed@.len() - 1) =~= i@);
            }
            match parse_array_literal(bracketed.as_str()) {
                Some(elems) => match bytes_from_elements(&elems) {
                    Ok(bytes) => Ok(TypedValue::BYTES(bytes)),
                    Err(e) => Err(e),
                },
                None => Err(ValueParseError::Literal),
            }
        },
        _ => if !is_shallow(i) {
            Err(ValueParseError::Nesting)
        } else {
            match parse_int_literal(i) {
                Some(lit) => integer_from_literal(ty, lit.digits.as_str(), lit.suffix.as_str()),
                None => Err(ValueParseError::Literal),
            }
        },
    }
}

/// The registry: the trees of the schema, and what is currently known of each
/// leaf and node, by path.
pub struct Model {
    /// The trees as the schema gave them.
    pub trees: Vec<Tree>,
    /// The leaves with their current values.
    pub leafs: StringHashMap<TLeaf>,
    /// What the user sees of each node.
    pub nodes: StringHashMap<ViewNode>,
}

impl Model {
    /// The contents of the trees.
    pub open spec fn trees_view(self) -> Seq<TreeView> {
        forest_view(self.trees@, self.trees@.len())
    }

    /// The contents of the lookup of leaves.
    pub open spec fn leafs_view(self) -> Map<Seq<char>, LeafView> {
        table_view(self.leafs@)
    }

    /// Whether two registries hold the same.
    pub open spec fn same_as(self, other: Model) -> bool {
        &&& self.trees_view() == other.trees_view()
        &&& self.leafs_view() == other.leafs_view()
        &&& self.nodes@ == other.nodes@
    }
}

impl Default for Model {
    /// A registry without trees.
    fn default() -> (model: Self)
        ensures
            model.trees@.len() == 0,
            model.leafs@ == Map::<Seq<char>, TLeaf>::empty(),
            model.nodes@ == Map::<Seq<char>, ViewNode>::empty(),
    {
        Model { trees: Vec::new(), leafs: StringHashMap::new(), nodes: StringHashMap::new() }
    }
}

/// What happened, as the registry is told of it.
#[derive(Debug, PartialEq, Eq)]
pub enum Msg {
    /// A schema document arrived.
    SetScheme(String),
    /// The user asks to read or write the leaf at a path.
    SumbmitRequest(String, RequestCode),
    /// A request is on its way to the device.
    GRequestUpdate(DevMsg),
    /// The device answered, or the exchange failed with a message.
    GAnswerUpdate(Result<DevMsg, String>),
    /// The user changed the text entered for the leaf at a path.
    InputUpdated(String, String),
    /// The user folds or unfolds the node at a path.
    FoldNode(String),
}

/// What the caller is to do after an update.
#[derive(Debug, PartialEq, Eq)]
pub enum Effect {
    /// Nothing.
    Idle,
    /// Send this request to the device.
    Request(DevMsg),
    /// Tell the user that the entered text is no value of the leaf's type.
    ParseFailed(ValueParseError),
    /// Tell the user that the schema gives no tree.
    SchemeFailed(SchemeError),
    /// Tell the user that the device refused with this code of its own.
    CustomError(u32),
    /// Tell the user that the device refused without a code.
    Malformed,
    /// Tell the user that the exchange failed.
    AnswerFailed(String),
    /// The path names nothing in the registry.
    Unknown,
}

/// What a request for the leaf at `path` comes to: the request to send, or why
/// none is sent. A write carries the entered text as a value of the leaf's
/// type, a read carries unit.
pub open spec fn submitted(
    leafs: Map<Seq<char>, LeafView>,
    path: Seq<char>,
    op: RequestCode,
    effect: Effect,
) -> bool {
    if !leafs.contains_key(path) {
        effect == Effect::Unknown
    } else if op == RequestCode::READ {
        effect matches Effect::Request(m) && m@ == (AnswerCode::OK_READ, path, ValueView::UNIT)
    } else {
        match coerce(leafs[path].view.input_val, leafs[path].ty) {
            Ok(v) => effect matches Effect::Request(m) && m@ == (AnswerCode::OK_WRITE, path, v),
            Err(e) => effect == Effect::ParseFailed(e),
        }
    }
}

/// `leaf` with `val` as the value last read.
pub open spec fn with_value(leaf: LeafView, val: ValueView) -> LeafView {
    LeafView { view: ViewLeafView { val: Some(val), ..leaf.view }, ..leaf }
}

/// `leaf` with `text` as the text entered.
pub open spec fn with_input(leaf: LeafView, text: Seq<char>) -> LeafView {
    LeafView { view: ViewLeafView { input_val: text, ..leaf.view }, ..leaf }
}

/// What an answer of the device comes to. A value read is kept in its leaf; a
/// refusal with a code is reported; a failed exchange is reported with its
/// message.
pub open spec fn answered(
    answer: Result<DevMsg, String>,
    pre: Model,
    post: Model,
    effect: Effect,
) -> bool {
    match answer {
        Ok(DevMsg(AnswerCode::OK_READ, path, val)) => {
            &&& post.trees_view() == pre.trees_view()
            &&& post.nodes@ == pre.nodes@
            &&& if pre.leafs_view().contains_key(path@) {
                &&& post.leafs_view() == pre.leafs_view().insert(
                    path@,
                    with_value(pre.leafs_view()[path@], val@),
                )
                &&& effect == Effect::Idle
            } else {
                post.leafs_view() == pre.leafs_view() && effect == Effect::Unknown
            }
        },
        Ok(DevMsg(AnswerCode::ERR_CUSTOM, _, val)) => {
            &&& post.same_as(pre)
            &&& match val {
                TypedValue::U32(code) => effect == Effect::CustomError(code),
                _ => effect == Effect::Malformed,
            }
        },
        Ok(_) => post.same_as(pre) && effect == Effect::Idle,
        Err(message) => {
            &&& post.same_as(pre)
            &&& effect matches Effect::AnswerFailed(m) && m@ == message@
        },
    }
}

/// How `update` changes the registry and what it asks of the caller.
pub open spec fn updated(msg: Msg, pre: Model, post: Model, effect: Effect) -> bool {
    match msg {
        Msg::SetScheme(text) => match json_scheme(text@) {
            None => post.same_as(pre) && effect == Effect::SchemeFailed(SchemeError::Syntax),
            Some(doc) => match forest_of(doc) {
                Err(e) => post.same_as(pre) && effect == Effect::SchemeFailed(e),
                Ok(trees) => {
                    &&& post.trees_view() == trees
                    &&& post.leafs_view() == table_of(leaves_in(trees, trees.len()))
                    &&& post.nodes@ == fold_table_of(nodes_in(trees, trees.len()))
                    &&& effect == Effect::Idle
                },
            },
        },
        Msg::SumbmitRequest(path, op) => {
            &&& post.same_as(pre)
            &&& submitted(pre.leafs_view(), path@, op, effect)
        },
        Msg::GRequestUpdate(_) => post.same_as(pre) && effect == Effect::Idle,
        Msg::GAnswerUpdate(answer) => answered(answer, pre, post, effect),
        Msg::InputUpdated(path, input) => {
            &&& post.trees_view() == pre.trees_view()
            &&& post.nodes@ == pre.nodes@
            &&& if pre.leafs_view().contains_key(path@) {
                &&& post.leafs_view() == pre.leafs_view().insert(
                    path@,
                    with_input(pre.leafs_view()[path@], input@),
                )
                &&& effect == Effect::Idle
            } else {
                post.leafs_view() == pre.leafs_view() && effect == Effect::Unknown
            }
        },
        Msg::FoldNode(path) => {
            &&& post.trees_view() == pre.trees_view()
            &&& post.leafs_view() == pre.leafs_view()
            &&& if pre.nodes@.contains_key(path@) {
                &&& post.nodes@ == pre.nodes@.insert(
                    path@,
                    ViewNode { fold: !pre.nodes@[path@].fold },
                )
                &&& effect == Effect::Idle
            } else {
                post.nodes@ == pre.nodes@ && effect == Effect::Unknown
            }
        },
    }
}

/// Takes one message into the registry and says what the caller is to do.
pub fn update(msg: Msg, model: &mut Model) -> (effect: Effect)
    ensures
        updated(msg, *old(model), *final(model), effect),
{
    match msg {
        Msg::SetScheme(scheme) => match parse_scheme(scheme.as_str()) {
            None => Effect::SchemeFailed(SchemeError::Syntax),
            Some(doc) => match tree_model(&doc) {
                Err(e) => Effect::SchemeFailed(e),
                Ok(trees) => {
                    let leafs = build_view_leaf(&trees);
                    let nodes = build_view_node(&trees);
                    proof {
                        lemma_forest_view(trees@, trees@.len());
                    }
                    model.trees = trees;
                    model.leafs = leafs;
                    model.nodes = nodes;
                    Effect::Idle
                },
            },
        },
        Msg::SumbmitRequest(path, op) => {
            let request = match model.leafs.get(path.as_str()) {
                None => {
                    return Effect::Unknown;
                },
                Some(leaf) => match op {
                    RequestCode::READ => TypedValue::UNIT,
                    RequestCode::WRITE => match string_to_value(
                        leaf.view.input_val.as_str(),
                        leaf.ty,
                    ) {
                        Ok(val) => val,
                        Err(e) => {
                            return Effect::ParseFailed(e);
                        },
                    },
                },
            };
            Effect::Request(DevMsg(op.answer(), path, request))
        },
        Msg::GRequestUpdate(_) => Effect::Idle,
        Msg::GAnswerUpdate(answer) => match answer {
            Ok(DevMsg(AnswerCode::OK_READ, path, inval)) => {
                let mut leaf = match model.leafs.get(path.as_str()) {
                    None => {
                        return Effect::Unknown;
                    },
                    Some(leaf) => leaf.clone(),
                };
                let ghost before = model.leafs_view();
                leaf.view.val = Some(inval);
                proof {
                    assert(table_view(model.leafs@.insert(path@, leaf)) =~= before.insert(
                        path@,
                        with_value(before[path@], inval@),
                    ));
                }
                model.leafs.insert(path, leaf);
                Effect::Idle
            },
            Ok(DevMsg(AnswerCode::ERR_CUSTOM, _, val)) => match val {
                TypedValue::U32(code) => Effect::CustomError(code),
                _ => Effect::Malformed,
            },
            Ok(_) => Effect::Idle,
            Err(message) => Effect::AnswerFailed(message),
        },
        Msg::InputUpdated(path, input) => {
            let mut leaf = match model.leafs.get(path.as_str()) {
                None => {
                    return Effect::Unknown;
                },
                Some(leaf) => leaf.clone(),
            };
            let ghost before = model.leafs_view();
            proof {
                assert(before[path@] == leaf@);
            }
            leaf.view.input_val = input;
            proof {
                assert(table_view(model.leafs@.insert(path@, leaf)) =~= before.insert(
                    path@,
                    with_input(before[path@], input@),
                ));
            }
            model.leafs.insert(path, leaf);
            Effect::Idle
        },
        Msg::FoldNode(path) => {
            let view = match model.nodes.get(path.as_str()) {
                None => {
                    return Effect::Unknown;
                },
                Some(view) => *view,
            };
            model.nodes.insert(path, ViewNode { fold: !view.fold });
            Effect::Idle
        },
    }
}

/// What a row of the displayed tree is.
#[derive(Clone, Copy, Debug, PartialEq, Eq, Structural)]
pub enum RowKind {
    /// A node, folded or not.
    Node { fold: bool },
    /// A leaf: whether its value is shown and can be read, whether it can be
    /// written, and whether text can be entered for it.
    Leaf { read: bool, write: bool, entry: bool },
}

/// One row of the displayed tree.
#[derive(Debug, PartialEq, Eq)]
pub struct Row {
    /// How deep below a root the row lies.
    pub depth: usize,
    pub name: String,
    pub path: String,
    pub kind: RowKind,
    /// For a leaf, the value last read.
    pub val: Option<TypedValue>,
    /// For a leaf, the text entered.
    pub input_val: String,
}

/// The mathematical content of a [`Row`].
pub struct RowView {
    pub depth: usize,
    pub name: Seq<char>,
    pub path: Seq<char>,
    pub kind: RowKind,
    pub val: Option<ValueView>,
    pub input_val: Seq<char>,
}

impl View for Row {
    type V = RowView;

    open spec fn view(&self) -> RowView {
        RowView {
            depth: self.depth,
            name: self.name@,
            path: self.path@,
            kind: self.kind,
            val: match self.val {
                Some(v) => Some(v@),
                None => None,
            },
            input_val: self.input_val@,
        }
    }
}

/// The contents of a run of rows.
pub open spec fn rows_view(rows: Seq<Row>) -> Seq<RowView> {
    Seq::new(rows.len(), |i: int| rows[i]@)
}

/// One level deeper, as far as levels can be counted.
pub open spec fn deeper(depth: usize) -> usize {
    if depth < usize::MAX {
        (depth + 1) as usize
    } else {
        depth
    }
}

/// The row of a leaf. Its value can be read where the leaf is readable. It
/// can be written where the leaf is writable, and text can be entered for it
/// unless it is a unit leaf, which is written as it is. What is shown of
/// the leaf is what the lookup holds under its path.
pub open spec fn leaf_row(leaf: LeafView, leafs: Map<Seq<char>, LeafView>, depth: usize) -> RowView {
    let state = if leafs.contains_key(leaf.path) {
        leafs[leaf.path].view
    } else {
        leaf.view
    };
    RowView {
        depth,
        name: leaf.name,
        path: leaf.path,
        kind: RowKind::Leaf {
            read: leaf.meta.r,
            write: leaf.meta.w,
            entry: leaf.meta.w && leaf.ty != TypeTag::UNIT,
        },
        val: state.val,
        input_val: state.input_val,
    }
}

/// Whether the node at `path` is folded: as the lookup says, or as the node
/// itself says where the lookup does not hold it.
pub open spec fn is_folded(nodes: Map<Seq<char>, ViewNode>, path: Seq<char>, own: ViewNode) -> bool {
    if nodes.contains_key(path) {
        nodes[path].fold
    } else {
        own.fold
    }
}

/// The rows that a tree is displayed in: a node, then the rows of its
/// children one level deeper unless the node is folded.
pub open spec fn rows_of(
    tree: TreeView,
    leafs: Map<Seq<char>, LeafView>,
    nodes: Map<Seq<char>, ViewNode>,
    depth: usize,
) -> Seq<RowView>
    decreases tree, 0nat,
{
    match tree {
        TreeView::Leaf(leaf) => seq![leaf_row(leaf, leafs, depth)],
        TreeView::Node { name, path, view, children, .. } => {
            let fold = is_folded(nodes, path, view);
            let row = RowView {
                depth,
                name,
                path,
                kind: RowKind::Node { fold },
                val: None,
                input_val: Seq::empty(),
            };
            if fold {
                seq![row]
            } else {
                seq![row] + rows_in(children, leafs, nodes, deeper(depth), children.len())
            }
        },
    }
}

/// The rows of the first `n` trees of `trees`, from first to last.
pub open spec fn rows_in(
    trees: Seq<TreeView>,
    leafs: Map<Seq<char>, LeafView>,
    nodes: Map<Seq<char>, ViewNode>,
    depth: usize,
    n: nat,
) -> Seq<RowView>
    decreases trees, n,
{
    if n == 0 || n > trees.len() {
        Seq::empty()
    } else {
        rows_in(trees, leafs, nodes, depth, (n - 1) as nat) + rows_of(
            trees[n - 1],
            leafs,
            nodes,
            depth,
        )
    }
}

/// The row of a leaf.
pub fn view_leaf(leaf: &TLeaf, leafs: &StringHashMap<TLeaf>, depth: usize) -> (row: Row)
    ensures
        row@ == leaf_row(leaf@, table_view(leafs@), depth),
{
    let state = match leafs.get(leaf.path.as_str()) {
        Some(current) => current.view.clone(),
        None => leaf.view.clone(),
    };
    let entry = leaf.meta.w && !matches!(leaf.ty, TypeTag::UNIT);
    Row {
        depth,
        name: leaf.name.clone(),
        path: leaf.path.clone(),
        kind: RowKind::Leaf { read: leaf.meta.r, write: leaf.meta.w, entry },
        val: state.val,
        input_val: state.input_val,
    }
}

/// Appends the rows of a tree to `rows`.
pub fn view_tree(
    tree: &Tree,
    leafs: &StringHashMap<TLeaf>,
    nodes: &StringHashMap<ViewNode>,
    depth: usize,
    rows: &mut Vec<Row>,
)
    ensures
        rows_view(final(rows)@) == rows_view(old(rows)@) + rows_of(
            tree@,
            table_view(leafs@),
            nodes@,
            depth,
        ),
    decreases tree,
{
    let ghost before = rows_view(rows@);
    match tree {
        Tree::TLeafV(leaf) => {
            let row = view_leaf(leaf, leafs, depth);
            rows.push(row);
            proof {
                assert(rows_view(rows@) =~= before + seq![row@]);
            }
        },
        Tree::TNodeV(node) => {
            let fold = match nodes.get(node.path.as_str()) {
                Some(view) => view.fold,
                None => node.view.fold,
            };
            let row = Row {
                depth,
                name: node.name.clone(),
                path: node.path.clone(),
                kind: RowKind::Node { fold },
                val: None,
                input_val: String::new(),
            };
            rows.push(row);
            let ghost kids = forest_view(node.children@, node.children@.len());
            let ghost below = if depth < usize::MAX {
                (depth + 1) as usize
            } else {
                depth
            };
            proof {
                lemma_forest_view(node.children@, node.children@.len());
                assert(rows_view(rows@) =~= before + seq![row@]);
                assert(rows_in(kids, table_view(leafs@), nodes@, below, 0) == Seq::<
                    RowView,
                >::empty());
            }
            if !fold {
                let inner = if depth < usize::MAX {
                    depth + 1
                } else {
                    depth
                };
                let mut i: usize = 0;
                while i < node.children.len()
                    invariant
                        i <= node.children.len(),
                        inner == below,
                        *tree matches Tree::TNodeV(n) && n.children == node.children,
                        kids == forest_view(node.children@, node.children@.len()),
                        kids.len() == node.children@.len(),
                        forall|k: int|
                            0 <= k < kids.len() ==> #[trigger] kids[k] == node.children@[k]@,
                        rows_view(rows@) == before + seq![row@] + rows_in(
                            kids,
                            table_view(leafs@),
                            nodes@,
                            below,
                            i as nat,
                        ),
                    decreases node.children.len() - i,
                {
                    view_tree(&node.children[i], leafs, nodes, inner, rows);
                    proof {
                        let done = rows_in(kids, table_view(leafs@), nodes@, below, i as nat);
                        let more = rows_of(kids[i as int], table_view(leafs@), nodes@, below);
                        assert(rows_in(kids, table_view(leafs@), nodes@, below, (i + 1) as nat)
                            == done + more);
                        assert(before + seq![row@] + done + more =~= before + seq![row@] + (done
                            + more));
                    }
                    i = i + 1;
                }
                proof {
                    assert(before + seq![row@] + rows_in(
                        kids,
                        table_view(leafs@),
                        nodes@,
                        below,
                        kids.len(),
                    ) =~= before + (seq![row@] + rows_in(
                        kids,
                        table_view(leafs@),
                        nodes@,
                        below,
                        kids.len(),
                    )));
                }
            }
        },
    }
}

/// The rows in which the registry is displayed, from top to bottom.
pub fn view(model: &Model) -> (rows: Vec<Row>)
    ensures
        rows_view(rows@) == rows_in(
            model.trees_view(),
            model.leafs_view(),
            model.nodes@,
            0,
            model.trees@.len(),
        ),
{
    let ghost all = model.trees_view();
    let mut rows: Vec<Row> = Vec::new();
    proof {
        lemma_forest_view(model.trees@, model.trees@.len());
        assert(rows_view(rows@) =~= Seq::<RowView>::empty());
    }
    let mut i: usize = 0;
    while i < model.trees.len()
        invariant
            i <= model.trees.len(),
            all == model.trees_view(),
            all.len() == model.trees@.len(),
            forall|k: int| 0 <= k < all.len() ==> #[trigger] all[k] == model.trees@[k]@,
            rows_view(rows@) == rows_in(all, model.leafs_view(), model.nodes@, 0, i as nat),
        decreases model.trees.len() - i,
    {
        view_tree(&model.trees[i], &model.leafs, &model.nodes, 0, &mut rows);
        i = i + 1;
    }
    rows
}

} // verus!
