//! Typed values of the command protocol.
use vstd::prelude::*;

verus! {

/// The type of the value behind an addressable path.
#[derive(Clone, Copy, Debug, PartialEq, Eq, Structural)]
pub enum TypeTag {
    UNIT,
    BOOL,
    I8,
    I16,
    I32,
    U8,
    U16,
    U32,
    STR,
    BYTES,
}

/// A value as it travels in a protocol message.
#[derive(Debug, PartialEq, Eq)]
pub enum TypedValue {
    UNIT,
    BOOL(bool),
    I8(i8),
    I16(i16),
    I32(i32),
    U8(u8),
    U16(u16),
    U32(u32),
    STR(String),
    BYTES(Vec<u8>),
}

/// The mathematical content of a [`TypedValue`].
pub enum ValueView {
    UNIT,
    BOOL(bool),
    I8(i8),
    I16(i16),
    I32(i32),
    U8(u8),
    U16(u16),
    U32(u32),
    STR(Seq<char>),
    BYTES(Seq<u8>),
}

impl ValueView {
    /// The tag under which this value is encoded.
    pub open spec fn tag(self) -> TypeTag {
        match self {
            ValueView::UNIT => TypeTag::UNIT,
            ValueView::BOOL(_) => TypeTag::BOOL,
            ValueView::I8(_) => TypeTag::I8,
            ValueView::I16(_) => TypeTag::I16,
            ValueView::I32(_) => TypeTag::I32,
            ValueView::U8(_) => TypeTag::U8,
            ValueView::U16(_) => TypeTag::U16,
            ValueView::U32(_) => TypeTag::U32,
            ValueView::STR(_) => TypeTag::STR,
            ValueView::BYTES(_) => TypeTag::BYTES,
        }
    }
}

impl View for TypedValue {
    type V = ValueView;

    open spec fn view(&self) -> ValueView {
        match self {
            TypedValue::UNIT => ValueView::UNIT,
            TypedValue::BOOL(b) => ValueView::BOOL(*b),
            TypedValue::I8(n) => ValueView::I8(*n),
            TypedValue::I16(n) => ValueView::I16(*n),
            TypedValue::I32(n) => ValueView::I32(*n),
            TypedValue::U8(n) => ValueView::U8(*n),
            TypedValue::U16(n) => ValueView::U16(*n),
            TypedValue::U32(n) => ValueView::U32(*n),
            TypedValue::STR(s) => ValueView::STR(s@),
            TypedValue::BYTES(b) => ValueView::BYTES(b@),
        }
    }
}

impl TypedValue {
    /// The tag under which this value is encoded.
    pub fn type_tag(&self) -> (tag: TypeTag)
        ensures
            tag == self@.tag(),
    {
        match self {
            TypedValue::UNIT => TypeTag::UNIT,
            TypedValue::BOOL(_) => TypeTag::BOOL,
            TypedValue::I8(_) => TypeTag::I8,
            TypedValue::I16(_) => TypeTag::I16,
            TypedValue::I32(_) => TypeTag::I32,
            TypedValue::U8(_) => TypeTag::U8,
            TypedValue::U16(_) => TypeTag::U16,
            TypedValue::U32(_) => TypeTag::U32,
            TypedValue::STR(_) => TypeTag::STR,
            TypedValue::BYTES(_) => TypeTag::BYTES,
        }
    }
}

impl Clone for TypedValue {
    fn clone(&self) -> (r: Self)
        ensures
            r@ == self@,
    {
        match self {
            TypedValue::UNIT => TypedValue::UNIT,
            TypedValue::BOOL(b) => TypedValue::BOOL(*b),
            TypedValue::I8(n) => TypedValue::I8(*n),
            TypedValue::I16(n) => TypedValue::I16(*n),
            TypedValue::I32(n) => TypedValue::I32(*n),
            TypedValue::U8(n) => TypedValue::U8(*n),
            TypedValue::U16(n) => TypedValue::U16(*n),
            TypedValue::U32(n) => TypedValue::U32(*n),
            TypedValue::STR(s) => TypedValue::STR(s.clone()),
            TypedValue::BYTES(b) => TypedValue::BYTES(b.clone()),
        }
    }
}

} // verus!
