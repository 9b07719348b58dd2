//! The types that variables can hold, for reading and writing a variable
//! with its own type rather than as text.
use vstd::prelude::*;

use crate::value::{valid, Choice, Value, ValueView};

verus! {

/// A type that a variable can hold. Each value of the type stands for one
/// `Value`, and the values of this type are exactly those that `holds`.
pub trait CvarType: Sized {
    /// Whether `v` is a value of this type.
    spec fn holds(v: ValueView) -> bool;

    /// `x` as a value.
    spec fn value_of(x: Self) -> ValueView;

    /// The name of the type.
    spec fn label() -> Seq<char>;

    /// Every value of this type holds.
    proof fn lemma_holds(x: Self)
        ensures
            Self::holds(Self::value_of(x)),
    ;

    /// `v`, where it is a value of this type.
    fn from_value(v: &Value) -> (r: Option<Self>)
        ensures
            r is Some <==> Self::holds(v@),
            r matches Some(x) ==> Self::value_of(x) == v@,
    ;

    /// `self` as a value.
    fn into_value(self) -> (r: Value)
        ensures
            r@ == Self::value_of(self),
            Self::holds(r@),
            valid(r@),
    ;

    /// The name of the type.
    fn label_text() -> (r: &'static str)
        ensures
            r@ == Self::label(),
    ;
}

impl CvarType for bool {
    open spec fn holds(v: ValueView) -> bool {
        v is Bool
    }

    open spec fn value_of(x: bool) -> ValueView {
        ValueView::Bool(x)
    }

    open spec fn label() -> Seq<char> {
        "bool"@
    }

    proof fn lemma_holds(x: Self) {
    }

    fn from_value(v: &Value) -> (r: Option<bool>) {
        match v {
            Value::Bool(x) => Some(*x),
            _ => None,
        }
    }

    fn into_value(self) -> (r: Value) {
        Value::Bool(self)
    }

    fn label_text() -> (r: &'static str) {
        "bool"
    }
}

impl CvarType for i32 {
    open spec fn holds(v: ValueView) -> bool {
        v is I32
    }

    open spec fn value_of(x: i32) -> ValueView {
        ValueView::I32(x)
    }

    open spec fn label() -> Seq<char> {
        "i32"@
    }

    proof fn lemma_holds(x: Self) {
    }

    fn from_value(v: &Value) -> (r: Option<i32>) {
        match v {
            Value::I32(x) => Some(*x),
            _ => None,
        }
    }

    fn into_value(self) -> (r: Value) {
        Value::I32(self)
    }

    fn label_text() -> (r: &'static str) {
        "i32"
    }
}

impl CvarType for i64 {
    open spec fn holds(v: ValueView) -> bool {
        v is I64
    }

    open spec fn value_of(x: i64) -> ValueView {
        ValueView::I64(x)
    }

    open spec fn label() -> Seq<char> {
        "i64"@
    }

    proof fn lemma_holds(x: Self) {
    }

    fn from_value(v: &Value) -> (r: Option<i64>) {
        match v {
            Value::I64(x) => Some(*x),
            _ => None,
        }
    }

    fn into_value(self) -> (r: Value) {
        Value::I64(self)
    }

    fn label_text() -> (r: &'static str) {
        "i64"
    }
}

impl CvarType for u32 {
    open spec fn holds(v: ValueView) -> bool {
        v is U32
    }

    open spec fn value_of(x: u32) -> ValueView {
        ValueView::U32(x)
    }

    open spec fn label() -> Seq<char> {
        "u32"@
    }

    proof fn lemma_holds(x: Self) {
    }

    fn from_value(v: &Value) -> (r: Option<u32>) {
        match v {
            Value::U32(x) => Some(*x),
            _ => None,
        }
    }

    fn into_value(self) -> (r: Value) {
        Value::U32(self)
    }

    fn label_text() -> (r: &'static str) {
        "u32"
    }
}

impl CvarType for i8 {
    open spec fn holds(v: ValueView) -> bool {
        v is I8
    }

    open spec fn value_of(x: i8) -> ValueView {
        ValueView::I8(x)
    }

    open spec fn label() -> Seq<char> {
        "i8"@
    }

    proof fn lemma_holds(x: Self) {
    }

    fn from_value(v: &Value) -> (r: Option<i8>) {
        match v {
            Value::I8(x) => Some(*x),
            _ => None,
        }
    }

    fn into_value(self) -> (r: Value) {
        Value::I8(self)
    }

    fn label_text() -> (r: &'static str) {
        "i8"
    }
}

impl CvarType for i16 {
    open spec fn holds(v: ValueView) -> bool {
        v is I16
    }

    open spec fn value_of(x: i16) -> ValueView {
        ValueView::I16(x)
    }

    open spec fn label() -> Seq<char> {
        "i16"@
    }

    proof fn lemma_holds(x: Self) {
    }

    fn from_value(v: &Value) -> (r: Option<i16>) {
        match v {
            Value::I16(x) => Some(*x),
            _ => None,
        }
    }

    fn into_value(self) -> (r: Value) {
        Value::I16(self)
    }

    fn label_text() -> (r: &'static str) {
        "i16"
    }
}

impl CvarType for isize {
    open spec fn holds(v: ValueView) -> bool {
        v is Isize
    }

    open spec fn value_of(x: isize) -> ValueView {
        ValueView::Isize(x)
    }

    open spec fn label() -> Seq<char> {
        "isize"@
    }

    proof fn lemma_holds(x: Self) {
    }

    fn from_value(v: &Value) -> (r: Option<isize>) {
        match v {
            Value::Isize(x) => Some(*x),
            _ => None,
        }
    }

    fn into_value(self) -> (r: Value) {
        Value::Isize(self)
    }

    fn label_text() -> (r: &'static str) {
        "isize"
    }
}

impl CvarType for u8 {
    open spec fn holds(v: ValueView) -> bool {
        v is U8
    }

    open spec fn value_of(x: u8) -> ValueView {
        ValueView::U8(x)
    }

    open spec fn label() -> Seq<char> {
        "u8"@
    }

    proof fn lemma_holds(x: Self) {
    }

    fn from_value(v: &Value) -> (r: Option<u8>) {
        match v {
            Value::U8(x) => Some(*x),
            _ => None,
        }
    }

    fn into_value(self) -> (r: Value) {
        Value::U8(self)
    }

    fn label_text() -> (r: &'static str) {
        "u8"
    }
}

impl CvarType for u16 {
    open spec fn holds(v: ValueView) -> bool {
        v is U16
    }

    open spec fn value_of(x: u16) -> ValueView {
        ValueView::U16(x)
    }

    open spec fn label() -> Seq<char> {
        "u16"@
    }

    proof fn lemma_holds(x: Self) {
    }

    fn from_value(v: &Value) -> (r: Option<u16>) {
        match v {
            Value::U16(x) => Some(*x),
            _ => None,
        }
    }

    fn into_value(self) -> (r: Value) {
        Value::U16(self)
    }

    fn label_text() -> (r: &'static str) {
        "u16"
    }
}

impl CvarType for u64 {
    open spec fn holds(v: ValueView) -> bool {
        v is U64
    }

    open spec fn value_of(x: u64) -> ValueView {
        ValueView::U64(x)
    }

    open spec fn label() -> Seq<char> {
        "u64"@
    }

    proof fn lemma_holds(x: Self) {
    }

    fn from_value(v: &Value) -> (r: Option<u64>) {
        match v {
            Value::U64(x) => Some(*x),
            _ => None,
        }
    }

    fn into_value(self) -> (r: Value) {
        Value::U64(self)
    }

    fn label_text() -> (r: &'static str) {
        "u64"
    }
}

impl CvarType for usize {
    open spec fn holds(v: ValueView) -> bool {
        v is Usize
    }

    open spec fn value_of(x: usize) -> ValueView {
        ValueView::Usize(x)
    }

    open spec fn label() -> Seq<char> {
        "usize"@
    }

    proof fn lemma_holds(x: Self) {
    }

    fn from_value(v: &Value) -> (r: Option<usize>) {
        match v {
            Value::Usize(x) => Some(*x),
            _ => None,
        }
    }

    fn into_value(self) -> (r: Value) {
        Value::Usize(self)
    }

    fn label_text() -> (r: &'static str) {
        "usize"
    }
}

impl CvarType for String {
    open spec fn holds(v: ValueView) -> bool {
        v is Text
    }

    open spec fn value_of(x: String) -> ValueView {
        ValueView::Text(x@)
    }

    open spec fn label() -> Seq<char> {
        "String"@
    }

    proof fn lemma_holds(x: Self) {
    }

    fn from_value(v: &Value) -> (r: Option<String>) {
        match v {
            Value::Text(x) => Some(x.clone()),
            _ => None,
        }
    }

    fn into_value(self) -> (r: Value) {
        Value::Text(self)
    }

    fn label_text() -> (r: &'static str) {
        "String"
    }
}

impl CvarType for Choice {
    open spec fn holds(v: ValueView) -> bool {
        v is Choice
    }

    open spec fn value_of(x: Choice) -> ValueView {
        ValueView::Choice(x@.0, x@.1)
    }

    open spec fn label() -> Seq<char> {
        "enum"@
    }

    proof fn lemma_holds(x: Self) {
    }

    fn from_value(v: &Value) -> (r: Option<Choice>) {
        match v {
            Value::Choice(x) => Some(x.duplicate()),
            _ => None,
        }
    }

    fn into_value(self) -> (r: Value) {
        proof {
            use_type_invariant(&self);
        }
        Value::Choice(self)
    }

    fn label_text() -> (r: &'static str) {
        "enum"
    }
}

} // verus!
