//! The registry of configuration variables and the dispatch from a variable's
//! name to its value, by text or by type.
use vstd::prelude::*;

use crate::text::{str_eq, texts};
use crate::typed::CvarType;
use crate::value::{
    failure_text, format_spec, lemma_parse_keeps_type, parse_spec, same_options, same_type,
    type_text, valid, Choice, ParseFailure, Value, ValueView,
};

verus! {

/// A configuration variable: its name, its value, and whether it is hidden
/// from lookup by name.
pub struct Field {
    pub name: String,
    pub value: Value,
    pub skip: bool,
}

/// What a `Field` is, as a mathematical object.
pub struct FieldView {
    pub name: Seq<char>,
    pub value: ValueView,
    pub skip: bool,
}

impl View for Field {
    type V = FieldView;

    open spec fn view(&self) -> FieldView {
        FieldView { name: self.name@, value: self.value@, skip: self.skip }
    }
}

/// Why a variable could not be read or written.
#[derive(Debug, PartialEq, Eq)]
pub enum CvarError {
    /// No variable that lookup can see has this name.
    NotFound { name: String },
    /// No variable that lookup can see has this name and the requested type.
    TypeMismatch { name: String, requested: String },
    /// The text is not a value of the variable's type.
    Parse { name: String, text: String, expected: String, failure: ParseFailure },
    /// A variable of this name is registered already.
    Duplicate { name: String },
}

/// What a `CvarError` is, as a mathematical object.
pub enum ErrorView {
    NotFound(Seq<char>),
    /// The name and the requested type.
    TypeMismatch(Seq<char>, Seq<char>),
    /// The name, the text, the expected type and why the text was refused.
    Parse(Seq<char>, Seq<char>, Seq<char>, ParseFailure),
    Duplicate(Seq<char>),
}

impl View for CvarError {
    type V = ErrorView;

    open spec fn view(&self) -> ErrorView {
        match self {
            CvarError::NotFound { name } => ErrorView::NotFound(name@),
            CvarError::TypeMismatch { name, requested } => ErrorView::TypeMismatch(
                name@,
                requested@,
            ),
            CvarError::Parse { name, text, expected, failure } => ErrorView::Parse(
                name@,
                text@,
                expected@,
                *failure,
            ),
            CvarError::Duplicate { name } => ErrorView::Duplicate(name@),
        }
    }
}

/// The message that tells what went wrong.
pub open spec fn error_text(e: ErrorView) -> Seq<char> {
    match e {
        ErrorView::NotFound(n) => "Cvar named "@ + n + " not found"@,
        ErrorView::TypeMismatch(n, t) => "Cvar named "@ + n + " with type "@ + t + " not found"@,
        ErrorView::Parse(_, x, t, f) => "failed to parse "@ + x + " as type "@ + t + ": "@
            + failure_text(f),
        ErrorView::Duplicate(n) => "Cvar named "@ + n + " already exists"@,
    }
}

impl CvarError {
    /// The message that tells what went wrong.
    pub fn message(&self) -> (r: String)
        ensures
            r@ == error_text(self@),
    {
        let mut s = String::new();
        match self {
            CvarError::NotFound { name } => {
                s.append("Cvar named ");
                s.append(name.as_str());
                s.append(" not found");
            },
            CvarError::TypeMismatch { name, requested } => {
                s.append("Cvar named ");
                s.append(name.as_str());
                s.append(" with type ");
                s.append(requested.as_str());
                s.append(" not found");
            },
            CvarError::Parse { text, expected, failure, .. } => {
                s.append("failed to parse ");
                s.append(text.as_str());
                s.append(" as type ");
                s.append(expected.as_str());
                s.append(": ");
                s.append(failure.message());
            },
            CvarError::Duplicate { name } => {
                s.append("Cvar named ");
                s.append(name.as_str());
                s.append(" already exists");
            },
        }
        assert(s@ =~= error_text(self@));
        s
    }
}

/// Whether no two fields share a name.
pub open spec fn unique_names(fs: Seq<FieldView>) -> bool {
    forall|i: int, j: int|
        0 <= i < fs.len() && 0 <= j < fs.len() && i != j ==> #[trigger] fs[i].name
            != #[trigger] fs[j].name
}

/// Whether some field, skipped or not, is named `name`.
pub open spec fn name_taken(fs: Seq<FieldView>, name: Seq<char>) -> bool {
    exists|i: int| 0 <= i < fs.len() && #[trigger] fs[i].name == name
}

/// Whether the fields can be those of a `Cvars`: no two share a name, and
/// each holds a valid value.
pub open spec fn well_formed(fs: Seq<FieldView>) -> bool {
    &&& unique_names(fs)
    &&& forall|i: int| 0 <= i < fs.len() ==> valid(#[trigger] fs[i].value)
}

/// Whether the field at `i` is the one that lookup finds under `name`.
pub open spec fn visible_as(fs: Seq<FieldView>, name: Seq<char>, i: int) -> bool {
    0 <= i < fs.len() && fs[i].name == name && !fs[i].skip
}

/// The index of the field that lookup by `name` finds: one of that name that
/// is not skipped.
pub open spec fn lookup(fs: Seq<FieldView>, name: Seq<char>) -> Option<int> {
    if exists|i: int| visible_as(fs, name, i) {
        Some(choose|i: int| visible_as(fs, name, i))
    } else {
        None
    }
}

/// The number of fields that lookup can find.
pub open spec fn visible_count(fs: Seq<FieldView>) -> nat
    decreases fs.len(),
{
    if fs.len() == 0 {
        0
    } else {
        visible_count(fs.drop_last()) + if fs.last().skip {
            0nat
        } else {
            1nat
        }
    }
}

/// What reading `name` as text gives.
pub open spec fn get_string_spec(fs: Seq<FieldView>, name: Seq<char>) -> Result<
    Seq<char>,
    ErrorView,
> {
    match lookup(fs, name) {
        Some(i) => Ok(format_spec(fs[i].value)),
        None => Err(ErrorView::NotFound(name)),
    }
}

/// The fields after the value at `i` is replaced with `v`.
pub open spec fn with_value(fs: Seq<FieldView>, i: int, v: ValueView) -> Seq<FieldView> {
    fs.update(i, FieldView { value: v, ..fs[i] })
}

/// What writing `text` to `name` gives: the fields after, or the error.
pub open spec fn set_str_spec(fs: Seq<FieldView>, name: Seq<char>, text: Seq<char>) -> Result<
    Seq<FieldView>,
    ErrorView,
> {
    match lookup(fs, name) {
        Some(i) => match parse_spec(fs[i].value, text) {
            Ok(v) => Ok(with_value(fs, i, v)),
            Err(f) => Err(ErrorView::Parse(name, text, type_text(fs[i].value), f)),
        },
        None => Err(ErrorView::NotFound(name)),
    }
}

/// The index of the field that typed reading of `name` as a `T` finds: the
/// one lookup finds, where it holds a `T`.
pub open spec fn typed_index<T: CvarType>(fs: Seq<FieldView>, name: Seq<char>) -> Option<int> {
    match lookup(fs, name) {
        Some(i) => if T::holds(fs[i].value) {
            Some(i)
        } else {
            None
        },
        None => None,
    }
}

/// The index of the field that typed writing of `v` to `name` finds: the one
/// lookup finds, where it has the type of `v`.
pub open spec fn assign_index(fs: Seq<FieldView>, name: Seq<char>, v: ValueView) -> Option<int> {
    match lookup(fs, name) {
        Some(i) => if same_type(fs[i].value, v) {
            Some(i)
        } else {
            None
        },
        None => None,
    }
}

/// The index of the field that reading `name` as a choice among `opts`
/// finds: the one lookup finds, where it is a choice among exactly `opts`.
pub open spec fn choice_index(fs: Seq<FieldView>, name: Seq<char>, opts: Seq<Seq<char>>) -> Option<
    int,
> {
    match lookup(fs, name) {
        Some(i) => match fs[i].value {
            ValueView::Choice(o, _) => if o == opts {
                Some(i)
            } else {
                None
            },
            _ => None,
        },
        None => None,
    }
}

/// The set of configuration variables.
pub struct Cvars {
    fields: Vec<Field>,
}

impl View for Cvars {
    type V = Seq<FieldView>;

    closed spec fn view(&self) -> Seq<FieldView> {
        self.fields@.map_values(|f: Field| f@)
    }
}

impl Cvars {
    #[verifier::type_invariant]
    spec fn inv(&self) -> bool {
        well_formed(self@)
    }

    /// A set with no variables.
    pub fn new() -> (r: Cvars)
        ensures
            r@ == Seq::<FieldView>::empty(),
            well_formed(r@),
    {
        let r = Cvars { fields: Vec::new() };
        assert(r@ =~= Seq::<FieldView>::empty());
        r
    }

    /// Adds a variable named `name` holding `value`; with `skip` it is hidden
    /// from lookup by name. Fails where a variable of that name exists.
    pub fn register(&mut self, name: &str, value: Value, skip: bool) -> (r: Result<(), CvarError>)
        ensures
            if name_taken(old(self)@, name@) {
                &&& r matches Err(e) && e@ == ErrorView::Duplicate(name@)
                &&& final(self)@ == old(self)@
            } else {
                &&& r is Ok
                &&& final(self)@ == old(self)@.push(FieldView { name: name@, value: value@, skip })
            },
            well_formed(final(self)@),
    {
        proof {
            use_type_invariant(&*self);
        }
        let n = self.fields.len();
        let mut i: usize = 0;
        while i < n
            invariant
                i <= n,
                n == self@.len(),
                n == self.fields@.len(),
                well_formed(self@),
                forall|k: int| 0 <= k < i ==> #[trigger] self@[k].name != name@,
            decreases n - i,
        {
            if str_eq(self.fields[i].name.as_str(), name) {
                assert(self@[i as int].name == name@);
                return Err(CvarError::Duplicate { name: name.to_owned() });
            }
            i = i + 1;
        }
        match &value {
            Value::Choice(c) => {
                proof {
                    use_type_invariant(c);
                }
            },
            _ => {},
        }
        let ghost before = self@;
        let mut fields = self.take_fields();
        fields.push(Field { name: name.to_owned(), value, skip });
        let ghost after = fields@.map_values(|f: Field| f@);
        assert(after =~= before.push(FieldView { name: name@, value: value@, skip }));
        *self = Cvars { fields };
        Ok(())
    }

    /// Takes the fields out, leaving no variables.
    fn take_fields(&mut self) -> (r: Vec<Field>)
        ensures
            r@.map_values(|f: Field| f@) == old(self)@,
            well_formed(old(self)@),
            final(self)@ == Seq::<FieldView>::empty(),
    {
        proof {
            use_type_invariant(&*self);
        }
        let mut taken = Cvars::new();
        std::mem::swap(self, &mut taken);
        let Cvars { fields } = taken;
        fields
    }

    /// All variables, the skipped ones too, in the order they were registered.
    pub fn fields(&self) -> (r: &Vec<Field>)
        ensures
            r@.map_values(|f: Field| f@) == self@,
    {
        &self.fields
    }

    /// The index of the variable that lookup by `name` finds.
    fn find(&self, name: &str) -> (r: Option<usize>)
        ensures
            r matches Some(i) ==> lookup(self@, name@) == Some(i as int) && i < self.fields@.len(),
            r is None ==> lookup(self@, name@) is None,
    {
        proof {
            use_type_invariant(self);
        }
        let n = self.fields.len();
        let mut i: usize = 0;
        while i < n
            invariant
                i <= n,
                n == self@.len(),
                n == self.fields@.len(),
                unique_names(self@),
                forall|k: int| 0 <= k < i ==> !visible_as(self@, name@, k),
            decreases n - i,
        {
            if !self.fields[i].skip && str_eq(self.fields[i].name.as_str(), name) {
                assert(visible_as(self@, name@, i as int));
                let ghost j = choose|j: int| visible_as(self@, name@, j);
                assert(j == i);
                return Some(i);
            }
            i = i + 1;
        }
        None
    }

    /// The number of variables that lookup can find.
    pub fn cvar_count(&self) -> (r: usize)
        ensures
            r == visible_count(self@),
    {
        let n = self.fields.len();
        let mut count: usize = 0;
        let mut i: usize = 0;
        while i < n
            invariant
                i <= n,
                n == self@.len(),
                n == self.fields@.len(),
                count <= i,
                count == visible_count(self@.take(i as int)),
            decreases n - i,
        {
            assert(self@.take(i + 1).drop_last() =~= self@.take(i as int));
            if !self.fields[i].skip {
                count = count + 1;
            }
            i = i + 1;
        }
        assert(self@.take(n as int) =~= self@);
        count
    }

    /// The value of the variable `name`, which must hold a `T`.
    pub fn get<T: CvarType>(&self, name: &str) -> (r: Result<T, CvarError>)
        ensures
            match typed_index::<T>(self@, name@) {
                Some(i) => r matches Ok(x) && T::value_of(x) == self@[i].value,
                None => r matches Err(e) && e@ == ErrorView::TypeMismatch(name@, T::label()),
            },
    {
        match self.find(name) {
            Some(i) => {
                assert(self@[i as int] == self.fields@[i as int]@);
                match T::from_value(&self.fields[i].value) {
                    Some(x) => Ok(x),
                    None => Err(
                        CvarError::TypeMismatch {
                            name: name.to_owned(),
                            requested: T::label_text().to_owned(),
                        },
                    ),
                }
            },
            None => Err(
                CvarError::TypeMismatch {
                    name: name.to_owned(),
                    requested: T::label_text().to_owned(),
                },
            ),
        }
    }

    /// The value of the variable `name`, which must be a choice among exactly
    /// `options`, in that order.
    pub fn get_choice(&self, name: &str, options: &Vec<String>) -> (r: Result<Choice, CvarError>)
        ensures
            match choice_index(self@, name@, texts(options@)) {
                Some(i) => r matches Ok(c) && ValueView::Choice(c@.0, c@.1) == self@[i].value,
                None => r matches Err(e) && e@ == ErrorView::TypeMismatch(name@, "enum"@),
            },
    {
        let mismatch = CvarError::TypeMismatch { name: name.to_owned(), requested: "enum".to_owned() };
        match self.find(name) {
            Some(i) => {
                assert(self@[i as int] == self.fields@[i as int]@);
                match &self.fields[i].value {
                    Value::Choice(c) => {
                        if same_options(c.options(), options) {
                            Ok(c.duplicate())
                        } else {
                            Err(mismatch)
                        }
                    },
                    _ => Err(mismatch),
                }
            },
            None => Err(mismatch),
        }
    }

    /// Stores `value` in the field at `index`, skipped or not, where it has
    /// the field's type; tells whether it did.
    pub fn set_at(&mut self, index: usize, value: Value) -> (r: bool)
        ensures
            r == (index < old(self)@.len() && same_type(old(self)@[index as int].value, value@)),
            r ==> final(self)@ == with_value(old(self)@, index as int, value@),
            !r ==> final(self)@ == old(self)@,
            well_formed(final(self)@),
    {
        proof {
            use_type_invariant(&*self);
        }
        if index >= self.fields.len() {
            return false;
        }
        assert(self@[index as int] == self.fields@[index as int]@);
        if !self.fields[index].value.same_type_as(&value) {
            return false;
        }
        match &value {
            Value::Choice(c) => {
                proof {
                    use_type_invariant(c);
                }
            },
            _ => {},
        }
        let ghost before = self@;
        let ghost w = value@;
        let mut fields = self.take_fields();
        assert(fields@.map_values(|f: Field| f@).len() == fields@.len());
        fields[index].value = value;
        let ghost after = fields@.map_values(|f: Field| f@);
        assert(after =~= with_value(before, index as int, w));
        *self = Cvars { fields };
        true
    }

    /// Stores `value` in the variable `name`, which must have its type.
    pub fn set<T: CvarType>(&mut self, name: &str, value: T) -> (r: Result<(), CvarError>)
        ensures
            match assign_index(old(self)@, name@, T::value_of(value)) {
                Some(i) => r is Ok && final(self)@ == with_value(
                    old(self)@,
                    i,
                    T::value_of(value),
                ),
                None => r matches Err(e) && e@ == ErrorView::TypeMismatch(name@, T::label())
                    && final(self)@ == old(self)@,
            },
            well_formed(final(self)@),
    {
        proof {
            use_type_invariant(&*self);
        }
        let mismatch = CvarError::TypeMismatch {
            name: name.to_owned(),
            requested: T::label_text().to_owned(),
        };
        match self.find(name) {
            Some(i) => {
                assert(self@[i as int] == self.fields@[i as int]@);
                let v = value.into_value();
                if self.fields[i].value.same_type_as(&v) {
                    let ghost before = self@;
                    let ghost w = v@;
                    let mut fields = self.take_fields();
                    fields[i].value = v;
                    let ghost after = fields@.map_values(|f: Field| f@);
                    assert(after =~= with_value(before, i as int, w));
                    *self = Cvars { fields };
                    Ok(())
                } else {
                    Err(mismatch)
                }
            },
            None => Err(mismatch),
        }
    }

    /// The value of the variable `name`, as text.
    pub fn get_string(&self, name: &str) -> (r: Result<String, CvarError>)
        ensures
            match get_string_spec(self@, name@) {
                Ok(s) => r matches Ok(t) && t@ == s,
                Err(e) => r matches Err(x) && x@ == e,
            },
    {
        match self.find(name) {
            Some(i) => {
                assert(self@[i as int] == self.fields@[i as int]@);
                Ok(self.fields[i].value.format())
            },
            None => Err(CvarError::NotFound { name: name.to_owned() }),
        }
    }

    /// Reads `text` as a value of the type of the variable `name` and stores
    /// it there.
    pub fn set_str(&mut self, name: &str, text: &str) -> (r: Result<(), CvarError>)
        ensures
            match set_str_spec(old(self)@, name@, text@) {
                Ok(fs) => r is Ok && final(self)@ == fs,
                Err(e) => r matches Err(x) && x@ == e && final(self)@ == old(self)@,
            },
            well_formed(final(self)@),
    {
        proof {
            use_type_invariant(&*self);
        }
        match self.find(name) {
            Some(i) => match {
                assert(self@[i as int] == self.fields@[i as int]@);
                self.fields[i].value.parse(text)
            } {
                Ok(v) => {
                    let ghost before = self@;
                    let ghost w = v@;
                    proof {
                        lemma_parse_keeps_type(before[i as int].value, text@);
                    }
                    let mut fields = self.take_fields();
                    fields[i].value = v;
                    let ghost after = fields@.map_values(|f: Field| f@);
                    assert(after =~= with_value(before, i as int, w));
                    *self = Cvars { fields };
                    Ok(())
                },
                Err(f) => {
                    let expected = self.fields[i].value.kind_name().to_owned();
                    Err(
                        CvarError::Parse {
                            name: name.to_owned(),
                            text: text.to_owned(),
                            expected,
                            failure: f,
                        },
                    )
                },
            },
            None => Err(CvarError::NotFound { name: name.to_owned() }),
        }
    }
}

/// Access by name and text alone, for code that does not know which
/// variables there are.
pub trait SetGet {
    /// The variables.
    spec fn vars(&self) -> Seq<FieldView>;

    /// Reads the variable `name` as text.
    fn get_string(&self, name: &str) -> (r: Result<String, CvarError>)
        ensures
            match get_string_spec(self.vars(), name@) {
                Ok(s) => r matches Ok(t) && t@ == s,
                Err(e) => r matches Err(x) && x@ == e,
            },
    ;

    /// Reads `text` as a value of the type of the variable `name` and stores it.
    fn set_str(&mut self, name: &str, text: &str) -> (r: Result<(), CvarError>)
        ensures
            match set_str_spec(old(self).vars(), name@, text@) {
                Ok(fs) => r is Ok && final(self).vars() == fs,
                Err(e) => r matches Err(x) && x@ == e && final(self).vars() == old(self).vars(),
            },
    ;
}

impl SetGet for Cvars {
    open spec fn vars(&self) -> Seq<FieldView> {
        self@
    }

    fn get_string(&self, name: &str) -> (r: Result<String, CvarError>) {
        Cvars::get_string(self, name)
    }

    fn set_str(&mut self, name: &str, text: &str) -> (r: Result<(), CvarError>) {
        Cvars::set_str(self, name, text)
    }
}

} // verus!
