//! The values a configuration variable can hold, and their text form.
use vstd::prelude::*;

use crate::number::{
    int_text, int_to_string, lemma_parse_int_range, parse_int, parse_int_spec, IntError,
};
use crate::text::{eq_ignore_case, str_eq, str_eq_ignore_case, texts};

verus! {

/// One value out of a fixed list of named options, as a field of an
/// enumeration type. No two options are equal when the case of ASCII letters
/// is ignored, so that a name read back without regard to case picks one
/// option.
#[derive(Debug)]
pub struct Choice {
    options: Vec<String>,
    selected: usize,
}

/// Whether no two of `opts` are equal when the case of ASCII letters is ignored.
pub open spec fn distinct_ignoring_case(opts: Seq<Seq<char>>) -> bool {
    forall|i: int, j: int|
        0 <= i < opts.len() && 0 <= j < opts.len() && i != j ==> !eq_ignore_case(
            #[trigger] opts[i],
            #[trigger] opts[j],
        )
}

impl View for Choice {
    type V = (Seq<Seq<char>>, int);

    closed spec fn view(&self) -> (Seq<Seq<char>>, int) {
        (texts(self.options@), self.selected as int)
    }
}

impl Choice {
    /// A choice takes one of its options, and they are distinct ignoring case.
    #[verifier::type_invariant]
    pub open spec fn inv(&self) -> bool {
        valid(ValueView::Choice(self@.0, self@.1))
    }

    /// A choice among `options` with the one at `selected` taken; `None` where
    /// `selected` is not an index of `options` or two options are equal when
    /// the case of ASCII letters is ignored.
    pub fn new(options: Vec<String>, selected: usize) -> (r: Option<Choice>)
        ensures
            r is Some <==> selected < options@.len() && distinct_ignoring_case(texts(options@)),
            r matches Some(c) ==> c@ == (texts(options@), selected as int),
    {
        if selected >= options.len() {
            return None;
        }
        let n = options.len();
        let ghost opts = texts(options@);
        let mut i: usize = 0;
        while i < n
            invariant
                i <= n,
                n == options@.len(),
                opts == texts(options@),
                forall|a: int, b: int|
                    0 <= a < i && 0 <= b < n && a != b ==> !eq_ignore_case(
                        #[trigger] opts[a],
                        #[trigger] opts[b],
                    ),
            decreases n - i,
        {
            let mut j: usize = 0;
            while j < n
                invariant
                    i < n,
                    j <= n,
                    n == options@.len(),
                    opts == texts(options@),
                    forall|a: int, b: int|
                        0 <= a < i && 0 <= b < n && a != b ==> !eq_ignore_case(
                            #[trigger] opts[a],
                            #[trigger] opts[b],
                        ),
                    forall|b: int| 0 <= b < j && b != i ==> !eq_ignore_case(opts[i as int], #[trigger] opts[b]),
                decreases n - j,
            {
                if j != i && str_eq_ignore_case(options[i].as_str(), options[j].as_str()) {
                    assert(opts[i as int] == options@[i as int]@);
                    assert(opts[j as int] == options@[j as int]@);
                    return None;
                }
                j = j + 1;
            }
            i = i + 1;
        }
        Some(Choice { options, selected })
    }

    /// The names of the options.
    pub fn options(&self) -> (r: &Vec<String>)
        ensures
            texts(r@) == self@.0,
    {
        &self.options
    }

    /// The index of the option taken.
    pub fn selected(&self) -> (r: usize)
        ensures
            r == self@.1,
    {
        self.selected
    }

    /// A copy of this choice.
    pub fn duplicate(&self) -> (r: Choice)
        ensures
            r@ == self@,
    {
        proof {
            use_type_invariant(self);
        }
        let mut options: Vec<String> = Vec::new();
        let n = self.options.len();
        let mut i: usize = 0;
        while i < n
            invariant
                i <= n,
                n == self.options@.len(),
                options@.len() == i,
                forall|k: int| 0 <= k < i ==> options@[k]@ == #[trigger] self.options@[k]@,
            decreases n - i,
        {
            options.push(self.options[i].clone());
            i = i + 1;
        }
        assert(texts(options@) =~= texts(self.options@));
        Choice { options, selected: self.selected }
    }
}

/// The value of a configuration variable.
pub enum Value {
    Bool(bool),
    I8(i8),
    I16(i16),
    I32(i32),
    I64(i64),
    Isize(isize),
    U8(u8),
    U16(u16),
    U32(u32),
    U64(u64),
    Usize(usize),
    Text(String),
    Choice(Choice),
}

/// What a `Value` is, as a mathematical object.
pub enum ValueView {
    Bool(bool),
    I8(i8),
    I16(i16),
    I32(i32),
    I64(i64),
    Isize(isize),
    U8(u8),
    U16(u16),
    U32(u32),
    U64(u64),
    Usize(usize),
    Text(Seq<char>),
    /// The option names and the index of the one taken.
    Choice(Seq<Seq<char>>, int),
}

impl View for Value {
    type V = ValueView;

    open spec fn view(&self) -> ValueView {
        match self {
            Value::Bool(b) => ValueView::Bool(*b),
            Value::I32(x) => ValueView::I32(*x),
            Value::I64(x) => ValueView::I64(*x),
            Value::U32(x) => ValueView::U32(*x),
            Value::I8(x) => ValueView::I8(*x),
            Value::I16(x) => ValueView::I16(*x),
            Value::Isize(x) => ValueView::Isize(*x),
            Value::U8(x) => ValueView::U8(*x),
            Value::U16(x) => ValueView::U16(*x),
            Value::U64(x) => ValueView::U64(*x),
            Value::Usize(x) => ValueView::Usize(*x),
            Value::Text(s) => ValueView::Text(s@),
            Value::Choice(c) => ValueView::Choice(c@.0, c@.1),
        }
    }
}

/// Whether `v` can be the value of a variable: a choice takes one of its
/// options, which are distinct ignoring case.
pub open spec fn valid(v: ValueView) -> bool {
    match v {
        ValueView::Choice(opts, i) => 0 <= i < opts.len() && distinct_ignoring_case(opts),
        _ => true,
    }
}

/// Whether `a` and `b` have one type: the same kind, and for choices the
/// same options.
pub open spec fn same_type(a: ValueView, b: ValueView) -> bool {
    match (a, b) {
        (ValueView::Bool(_), ValueView::Bool(_)) => true,
        (ValueView::I32(_), ValueView::I32(_)) => true,
        (ValueView::I64(_), ValueView::I64(_)) => true,
        (ValueView::U32(_), ValueView::U32(_)) => true,
        (ValueView::I8(_), ValueView::I8(_)) => true,
        (ValueView::I16(_), ValueView::I16(_)) => true,
        (ValueView::Isize(_), ValueView::Isize(_)) => true,
        (ValueView::U8(_), ValueView::U8(_)) => true,
        (ValueView::U16(_), ValueView::U16(_)) => true,
        (ValueView::U64(_), ValueView::U64(_)) => true,
        (ValueView::Usize(_), ValueView::Usize(_)) => true,
        (ValueView::Text(_), ValueView::Text(_)) => true,
        (ValueView::Choice(o1, _), ValueView::Choice(o2, _)) => o1 == o2,
        _ => false,
    }
}

/// The name of the type of `v`.
pub open spec fn type_text(v: ValueView) -> Seq<char> {
    match v {
        ValueView::Bool(_) => "bool"@,
        ValueView::I32(_) => "i32"@,
        ValueView::I64(_) => "i64"@,
        ValueView::U32(_) => "u32"@,
        ValueView::I8(_) => "i8"@,
        ValueView::I16(_) => "i16"@,
        ValueView::Isize(_) => "isize"@,
        ValueView::U8(_) => "u8"@,
        ValueView::U16(_) => "u16"@,
        ValueView::U64(_) => "u64"@,
        ValueView::Usize(_) => "usize"@,
        ValueView::Text(_) => "String"@,
        ValueView::Choice(_, _) => "enum"@,
    }
}

/// The text of `v`.
pub open spec fn format_spec(v: ValueView) -> Seq<char> {
    match v {
        ValueView::Bool(b) => if b {
            "true"@
        } else {
            "false"@
        },
        ValueView::I32(x) => int_text(x as int),
        ValueView::I64(x) => int_text(x as int),
        ValueView::U32(x) => int_text(x as int),
        ValueView::I8(x) => int_text(x as int),
        ValueView::I16(x) => int_text(x as int),
        ValueView::Isize(x) => int_text(x as int),
        ValueView::U8(x) => int_text(x as int),
        ValueView::U16(x) => int_text(x as int),
        ValueView::U64(x) => int_text(x as int),
        ValueView::Usize(x) => int_text(x as int),
        ValueView::Text(s) => s,
        ValueView::Choice(opts, i) => opts[i],
    }
}

/// Why a text is not a value of the type it was read for.
#[derive(Debug, Clone, Copy, PartialEq, Eq)]
pub enum ParseFailure {
    /// The text is not an integer of the type.
    Int(IntError),
    /// The text is not one of the texts of a boolean.
    Bool,
    /// The text names none of the options.
    Variant,
}

/// The boolean that `t` denotes: `true`, `t` or `1`; `false`, `f` or `0`.
pub open spec fn bool_spec(t: Seq<char>) -> Option<bool> {
    if t == "true"@ || t == "t"@ || t == "1"@ {
        Some(true)
    } else if t == "false"@ || t == "f"@ || t == "0"@ {
        Some(false)
    } else {
        None
    }
}

/// The option that `t` names, ignoring the case of ASCII letters.
pub open spec fn option_index(opts: Seq<Seq<char>>, t: Seq<char>) -> Option<int> {
    if exists|i: int| 0 <= i < opts.len() && eq_ignore_case(#[trigger] opts[i], t) {
        Some(choose|i: int| 0 <= i < opts.len() && eq_ignore_case(#[trigger] opts[i], t))
    } else {
        None
    }
}

/// The value of the type of `current` that `t` denotes.
pub open spec fn parse_spec(current: ValueView, t: Seq<char>) -> Result<ValueView, ParseFailure> {
    match current {
        ValueView::Bool(_) => match bool_spec(t) {
            Some(b) => Ok(ValueView::Bool(b)),
            None => Err(ParseFailure::Bool),
        },
        ValueView::I32(_) => match parse_int_spec(t, i32::MIN as int, i32::MAX as int) {
            Ok(x) => Ok(ValueView::I32(x as i32)),
            Err(e) => Err(ParseFailure::Int(e)),
        },
        ValueView::I64(_) => match parse_int_spec(t, i64::MIN as int, i64::MAX as int) {
            Ok(x) => Ok(ValueView::I64(x as i64)),
            Err(e) => Err(ParseFailure::Int(e)),
        },
        ValueView::U32(_) => match parse_int_spec(t, 0, u32::MAX as int) {
            Ok(x) => Ok(ValueView::U32(x as u32)),
            Err(e) => Err(ParseFailure::Int(e)),
        },
        ValueView::I8(_) => match parse_int_spec(t, i8::MIN as int, i8::MAX as int) {
            Ok(x) => Ok(ValueView::I8(x as i8)),
            Err(e) => Err(ParseFailure::Int(e)),
        },
        ValueView::I16(_) => match parse_int_spec(t, i16::MIN as int, i16::MAX as int) {
            Ok(x) => Ok(ValueView::I16(x as i16)),
            Err(e) => Err(ParseFailure::Int(e)),
        },
        ValueView::Isize(_) => match parse_int_spec(t, isize::MIN as int, isize::MAX as int) {
            Ok(x) => Ok(ValueView::Isize(x as isize)),
            Err(e) => Err(ParseFailure::Int(e)),
        },
        ValueView::U8(_) => match parse_int_spec(t, 0, u8::MAX as int) {
            Ok(x) => Ok(ValueView::U8(x as u8)),
            Err(e) => Err(ParseFailure::Int(e)),
        },
        ValueView::U16(_) => match parse_int_spec(t, 0, u16::MAX as int) {
            Ok(x) => Ok(ValueView::U16(x as u16)),
            Err(e) => Err(ParseFailure::Int(e)),
        },
        ValueView::U64(_) => match parse_int_spec(t, 0, u64::MAX as int) {
            Ok(x) => Ok(ValueView::U64(x as u64)),
            Err(e) => Err(ParseFailure::Int(e)),
        },
        ValueView::Usize(_) => match parse_int_spec(t, 0, usize::MAX as int) {
            Ok(x) => Ok(ValueView::Usize(x as usize)),
            Err(e) => Err(ParseFailure::Int(e)),
        },
        ValueView::Text(_) => Ok(ValueView::Text(t)),
        ValueView::Choice(opts, _) => match option_index(opts, t) {
            Some(i) => Ok(ValueView::Choice(opts, i)),
            None => Err(ParseFailure::Variant),
        },
    }
}

/// The message that tells why a text was refused.
pub open spec fn failure_text(f: ParseFailure) -> Seq<char> {
    match f {
        ParseFailure::Int(IntError::Empty) => "cannot parse integer from empty string"@,
        ParseFailure::Int(IntError::InvalidDigit) => "invalid digit found in string"@,
        ParseFailure::Int(IntError::PosOverflow) => "number too large to fit in target type"@,
        ParseFailure::Int(IntError::NegOverflow) => "number too small to fit in target type"@,
        ParseFailure::Bool => "provided string was not `true` or `false`"@,
        ParseFailure::Variant => "matching variant not found"@,
    }
}

impl ParseFailure {
    /// The message that tells why the text was refused.
    pub fn message(&self) -> (r: &'static str)
        ensures
            r@ == failure_text(*self),
    {
        match self {
            ParseFailure::Int(IntError::Empty) => "cannot parse integer from empty string",
            ParseFailure::Int(IntError::InvalidDigit) => "invalid digit found in string",
            ParseFailure::Int(IntError::PosOverflow) => "number too large to fit in target type",
            ParseFailure::Int(IntError::NegOverflow) => "number too small to fit in target type",
            ParseFailure::Bool => "provided string was not `true` or `false`",
            ParseFailure::Variant => "matching variant not found",
        }
    }
}

impl Value {
    /// The name of the value's type.
    pub fn kind_name(&self) -> (r: &'static str)
        ensures
            r@ == type_text(self@),
    {
        match self {
            Value::Bool(_) => "bool",
            Value::I32(_) => "i32",
            Value::I64(_) => "i64",
            Value::U32(_) => "u32",
            Value::I8(_) => "i8",
            Value::I16(_) => "i16",
            Value::Isize(_) => "isize",
            Value::U8(_) => "u8",
            Value::U16(_) => "u16",
            Value::U64(_) => "u64",
            Value::Usize(_) => "usize",
            Value::Text(_) => "String",
            Value::Choice(_) => "enum",
        }
    }

    /// The value as text.
    pub fn format(&self) -> (r: String)
        ensures
            r@ == format_spec(self@),
    {
        match self {
            Value::Bool(b) => if *b {
                "true".to_owned()
            } else {
                "false".to_owned()
            },
            Value::I32(x) => int_to_string(*x as i128),
            Value::I64(x) => int_to_string(*x as i128),
            Value::U32(x) => int_to_string(*x as i128),
            Value::I8(x) => int_to_string(*x as i128),
            Value::I16(x) => int_to_string(*x as i128),
            Value::Isize(x) => int_to_string(*x as i128),
            Value::U8(x) => int_to_string(*x as i128),
            Value::U16(x) => int_to_string(*x as i128),
            Value::U64(x) => int_to_string(*x as i128),
            Value::Usize(x) => int_to_string(*x as i128),
            Value::Text(s) => s.clone(),
            Value::Choice(c) => {
                proof {
                    use_type_invariant(c);
                }
                c.options[c.selected].clone()
            },
        }
    }

    /// Whether `other` has the type of this value: see `same_type`.
    pub fn same_type_as(&self, other: &Value) -> (r: bool)
        ensures
            r == same_type(self@, other@),
    {
        match (self, other) {
            (Value::Bool(_), Value::Bool(_)) => true,
            (Value::I32(_), Value::I32(_)) => true,
            (Value::I64(_), Value::I64(_)) => true,
            (Value::U32(_), Value::U32(_)) => true,
            (Value::I8(_), Value::I8(_)) => true,
            (Value::I16(_), Value::I16(_)) => true,
            (Value::Isize(_), Value::Isize(_)) => true,
            (Value::U8(_), Value::U8(_)) => true,
            (Value::U16(_), Value::U16(_)) => true,
            (Value::U64(_), Value::U64(_)) => true,
            (Value::Usize(_), Value::Usize(_)) => true,
            (Value::Text(_), Value::Text(_)) => true,
            (Value::Choice(a), Value::Choice(b)) => same_options(&a.options, &b.options),
            _ => false,
        }
    }

    /// Reads `text` as a value of this value's type.
    pub fn parse(&self, text: &str) -> (r: Result<Value, ParseFailure>)
        ensures
            match parse_spec(self@, text@) {
                Ok(w) => r matches Ok(v) && v@ == w,
                Err(e) => r == Err::<Value, ParseFailure>(e),
            },
    {
        match self {
            Value::Bool(_) => parse_bool(text),
            Value::I32(_) => match parse_int(text, i32::MIN as i128, i32::MAX as i128) {
                Ok(x) => {
                    proof {
                        lemma_parse_int_range(text@, i32::MIN as int, i32::MAX as int);
                    }
                    Ok(Value::I32(x as i32))
                },
                Err(e) => Err(ParseFailure::Int(e)),
            },
            Value::I64(_) => match parse_int(text, i64::MIN as i128, i64::MAX as i128) {
                Ok(x) => {
                    proof {
                        lemma_parse_int_range(text@, i64::MIN as int, i64::MAX as int);
                    }
                    Ok(Value::I64(x as i64))
                },
                Err(e) => Err(ParseFailure::Int(e)),
            },
            Value::U32(_) => match parse_int(text, 0, u32::MAX as i128) {
                Ok(x) => {
                    proof {
                        lemma_parse_int_range(text@, 0, u32::MAX as int);
                    }
                    Ok(Value::U32(x as u32))
                },
                Err(e) => Err(ParseFailure::Int(e)),
            },
            Value::I8(_) => match parse_int(text, i8::MIN as i128, i8::MAX as i128) {
                Ok(x) => {
                    proof {
                        lemma_parse_int_range(text@, i8::MIN as int, i8::MAX as int);
                    }
                    Ok(Value::I8(x as i8))
                },
                Err(e) => Err(ParseFailure::Int(e)),
            },
            Value::I16(_) => match parse_int(text, i16::MIN as i128, i16::MAX as i128) {
                Ok(x) => {
                    proof {
                        lemma_parse_int_range(text@, i16::MIN as int, i16::MAX as int);
                    }
                    Ok(Value::I16(x as i16))
                },
                Err(e) => Err(ParseFailure::Int(e)),
            },
            Value::Isize(_) => match parse_int(text, isize::MIN as i128, isize::MAX as i128) {
                Ok(x) => {
                    proof {
                        lemma_parse_int_range(text@, isize::MIN as int, isize::MAX as int);
                    }
                    Ok(Value::Isize(x as isize))
                },
                Err(e) => Err(ParseFailure::Int(e)),
            },
            Value::U8(_) => match parse_int(text, 0, u8::MAX as i128) {
                Ok(x) => {
                    proof {
                        lemma_parse_int_range(text@, 0, u8::MAX as int);
                    }
                    Ok(Value::U8(x as u8))
                },
                Err(e) => Err(ParseFailure::Int(e)),
            },
            Value::U16(_) => match parse_int(text, 0, u16::MAX as i128) {
                Ok(x) => {
                    proof {
                        lemma_parse_int_range(text@, 0, u16::MAX as int);
                    }
                    Ok(Value::U16(x as u16))
                },
                Err(e) => Err(ParseFailure::Int(e)),
            },
            Value::U64(_) => match parse_int(text, 0, u64::MAX as i128) {
                Ok(x) => {
                    proof {
                        lemma_parse_int_range(text@, 0, u64::MAX as int);
                    }
                    Ok(Value::U64(x as u64))
                },
                Err(e) => Err(ParseFailure::Int(e)),
            },
            Value::Usize(_) => match parse_int(text, 0, usize::MAX as i128) {
                Ok(x) => {
                    proof {
                        lemma_parse_int_range(text@, 0, usize::MAX as int);
                    }
                    Ok(Value::Usize(x as usize))
                },
                Err(e) => Err(ParseFailure::Int(e)),
            },
            Value::Text(_) => Ok(Value::Text(text.to_owned())),
            Value::Choice(c) => parse_choice(c, text),
        }
    }
}

/// Whether two lists of option names are equal.
pub fn same_options(a: &Vec<String>, b: &Vec<String>) -> (r: bool)
    ensures
        r == (texts(a@) == texts(b@)),
{
    let n = a.len();
    if n != b.len() {
        assert(texts(a@).len() != texts(b@).len());
        return false;
    }
    let mut i: usize = 0;
    while i < n
        invariant
            i <= n,
            n == a@.len(),
            n == b@.len(),
            forall|k: int| 0 <= k < i ==> a@[k]@ == #[trigger] b@[k]@,
        decreases n - i,
    {
        if !str_eq(a[i].as_str(), b[i].as_str()) {
            assert(texts(a@)[i as int] != texts(b@)[i as int]);
            return false;
        }
        i = i + 1;
    }
    assert(texts(a@) =~= texts(b@));
    true
}

fn parse_bool(text: &str) -> (r: Result<Value, ParseFailure>)
    ensures
        match bool_spec(text@) {
            Some(b) => r matches Ok(v) && v@ == ValueView::Bool(b),
            None => r == Err::<Value, ParseFailure>(ParseFailure::Bool),
        },
{
    if str_eq(text, "true") || str_eq(text, "t") || str_eq(text, "1") {
        Ok(Value::Bool(true))
    } else if str_eq(text, "false") || str_eq(text, "f") || str_eq(text, "0") {
        Ok(Value::Bool(false))
    } else {
        Err(ParseFailure::Bool)
    }
}

proof fn lemma_option_unique(opts: Seq<Seq<char>>, t: Seq<char>, i: int)
    requires
        distinct_ignoring_case(opts),
        0 <= i < opts.len(),
        eq_ignore_case(opts[i], t),
    ensures
        option_index(opts, t) == Some(i),
{
    let j = choose|j: int| 0 <= j < opts.len() && eq_ignore_case(#[trigger] opts[j], t);
    if j != i {
        assert forall|k: int| 0 <= k < opts[i].len() implies crate::text::ascii_lower(
            #[trigger] opts[i][k],
        ) == crate::text::ascii_lower(opts[j][k]) by {
            assert(crate::text::ascii_lower(opts[i][k]) == crate::text::ascii_lower(t[k]));
            assert(crate::text::ascii_lower(opts[j][k]) == crate::text::ascii_lower(t[k]));
        }
        assert(eq_ignore_case(opts[i], opts[j]));
    }
}

fn parse_choice(c: &Choice, text: &str) -> (r: Result<Value, ParseFailure>)
    ensures
        match option_index(c@.0, text@) {
            Some(i) => r matches Ok(v) && v@ == ValueView::Choice(c@.0, i),
            None => r == Err::<Value, ParseFailure>(ParseFailure::Variant),
        },
{
    proof {
        use_type_invariant(c);
    }
    let n = c.options.len();
    let ghost opts = c@.0;
    let mut i: usize = 0;
    while i < n
        invariant
            i <= n,
            n == c.options@.len(),
            opts == texts(c.options@),
            distinct_ignoring_case(opts),
            forall|k: int| 0 <= k < i ==> !eq_ignore_case(#[trigger] opts[k], text@),
        decreases n - i,
    {
        if str_eq_ignore_case(c.options[i].as_str(), text) {
            assert(opts[i as int] == c.options@[i as int]@);
            proof {
                lemma_option_unique(opts, text@, i as int);
            }
            let mut options: Vec<String> = Vec::new();
            let mut k: usize = 0;
            while k < n
                invariant
                    k <= n,
                    i < n,
                    n == c.options@.len(),
                    opts == texts(c.options@),
                    distinct_ignoring_case(opts),
                    options@.len() == k,
                    forall|m: int| 0 <= m < k ==> options@[m]@ == #[trigger] c.options@[m]@,
                decreases n - k,
            {
                options.push(c.options[k].clone());
                k = k + 1;
            }
            assert(texts(options@) =~= opts);
            return Ok(Value::Choice(Choice { options, selected: i }));
        }
        i = i + 1;
    }
    assert(!exists|k: int| 0 <= k < opts.len() && eq_ignore_case(#[trigger] opts[k], text@));
    Err(ParseFailure::Variant)
}

/// A valid value reads back from its own text as itself.
pub proof fn lemma_parse_format(v: ValueView)
    requires
        valid(v),
    ensures
        parse_spec(v, format_spec(v)) == Ok::<ValueView, ParseFailure>(v),
{
    reveal_strlit("true");
    reveal_strlit("false");
    reveal_strlit("t");
    reveal_strlit("f");
    reveal_strlit("1");
    reveal_strlit("0");
    match v {
        ValueView::I32(x) => crate::number::lemma_parse_int_text(
            x as int,
            i32::MIN as int,
            i32::MAX as int,
        ),
        ValueView::I64(x) => crate::number::lemma_parse_int_text(
            x as int,
            i64::MIN as int,
            i64::MAX as int,
        ),
        ValueView::U32(x) => crate::number::lemma_parse_int_text(x as int, 0, u32::MAX as int),
        ValueView::I8(x) => crate::number::lemma_parse_int_text(x as int, i8::MIN as int, i8::MAX as int),
        ValueView::I16(x) => crate::number::lemma_parse_int_text(x as int, i16::MIN as int, i16::MAX as int),
        ValueView::Isize(x) => crate::number::lemma_parse_int_text(x as int, isize::MIN as int, isize::MAX as int),
        ValueView::U8(x) => crate::number::lemma_parse_int_text(x as int, 0, u8::MAX as int),
        ValueView::U16(x) => crate::number::lemma_parse_int_text(x as int, 0, u16::MAX as int),
        ValueView::U64(x) => crate::number::lemma_parse_int_text(x as int, 0, u64::MAX as int),
        ValueView::Usize(x) => crate::number::lemma_parse_int_text(
            x as int,
            0,
            usize::MAX as int,
        ),
        ValueView::Choice(opts, i) => lemma_option_unique(opts, opts[i], i),
        _ => {},
    }
}

/// A text read for a valid value gives a valid value of the same type.
pub proof fn lemma_parse_keeps_type(v: ValueView, t: Seq<char>)
    requires
        valid(v),
        parse_spec(v, t) is Ok,
    ensures
        valid(parse_spec(v, t)->Ok_0),
        same_type(v, parse_spec(v, t)->Ok_0),
{
}

} // verus!
