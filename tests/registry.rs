use cvars::number::IntError;
use cvars::{Choice, CvarError, Cvars, ParseFailure, SetGet, Value};

fn enum_options() -> Vec<String> {
    vec!["One".to_owned(), "Two".to_owned()]
}

fn enum_value(selected: usize) -> Choice {
    Choice::new(enum_options(), selected).unwrap()
}

/// The variables of the shared fixture, with a skipped one.
fn fixture() -> Cvars {
    let mut cvars = Cvars::new();
    cvars.register("g_bool", Value::Bool(true), false).unwrap();
    cvars.register("g_int", Value::I32(42), false).unwrap();
    cvars.register("g_usize", Value::Usize(987654), false).unwrap();
    cvars.register("g_long", Value::I64(-9_000_000_000), false).unwrap();
    cvars.register("g_u32", Value::U32(7), false).unwrap();
    cvars.register("g_u64", Value::U64(18_446_744_073_709_551_615), false).unwrap();
    cvars.register("g_string", Value::Text("String".to_owned()), false).unwrap();
    cvars.register("g_enum", Value::Choice(enum_value(1)), false).unwrap();
    cvars.register("g_skipped", Value::I32(666), true).unwrap();
    cvars
}

fn not_found(name: &str) -> CvarError {
    CvarError::NotFound { name: name.to_owned() }
}

fn mismatch(name: &str, requested: &str) -> CvarError {
    CvarError::TypeMismatch { name: name.to_owned(), requested: requested.to_owned() }
}

fn skipped_value(cvars: &Cvars) -> i32 {
    let field = cvars.fields().iter().find(|f| f.name == "g_skipped").unwrap();
    match field.value {
        Value::I32(x) => x,
        _ => panic!("g_skipped is an i32"),
    }
}

#[test]
fn test_getters() {
    let cvars = fixture();
    assert_eq!(cvars.get::<bool>("g_bool"), Ok(true));
    assert_eq!(cvars.get::<i32>("g_int"), Ok(42));
    assert_eq!(cvars.get::<usize>("g_usize"), Ok(987654));
    assert_eq!(cvars.get::<i64>("g_long"), Ok(-9_000_000_000));
    assert_eq!(cvars.get::<u32>("g_u32"), Ok(7));
    assert_eq!(cvars.get::<u64>("g_u64"), Ok(u64::MAX));
    assert_eq!(cvars.get::<String>("g_string"), Ok("String".to_owned()));
    assert_eq!(cvars.get::<Choice>("g_enum").unwrap().selected(), 1);

    let err = cvars.get::<i32>("bla").unwrap_err();
    assert_eq!(err, mismatch("bla", "i32"));
    assert_eq!(err.message(), "Cvar named bla with type i32 not found");
}

#[test]
fn test_typed_get_needs_exact_type() {
    let cvars = fixture();
    assert_eq!(cvars.get::<usize>("g_int"), Err(mismatch("g_int", "usize")));
    assert_eq!(cvars.get::<i64>("g_int"), Err(mismatch("g_int", "i64")));
    assert_eq!(cvars.get::<bool>("g_int"), Err(mismatch("g_int", "bool")));
    assert_eq!(cvars.get::<String>("g_enum").unwrap_err(), mismatch("g_enum", "String"));
}

#[test]
fn test_setters() {
    let mut cvars = fixture();
    cvars.set("g_bool", false).unwrap();
    cvars.set("g_int", 43).unwrap();
    cvars.set("g_usize", 987655_usize).unwrap();
    cvars.set("g_string", "other".to_owned()).unwrap();
    cvars.set("g_enum", enum_value(0)).unwrap();

    assert_eq!(cvars.get::<bool>("g_bool"), Ok(false));
    assert_eq!(cvars.get::<i32>("g_int"), Ok(43));
    assert_eq!(cvars.get::<usize>("g_usize"), Ok(987655));
    assert_eq!(cvars.get::<String>("g_string"), Ok("other".to_owned()));
    assert_eq!(cvars.get_string("g_enum"), Ok("One".to_owned()));

    let err = cvars.set("bla", 666).unwrap_err();
    assert_eq!(err, mismatch("bla", "i32"));
    assert_eq!(err.message(), "Cvar named bla with type i32 not found");
}

#[test]
fn test_typed_set_needs_exact_type() {
    let mut cvars = fixture();
    assert_eq!(cvars.set("g_usize", 5_i32), Err(mismatch("g_usize", "i32")));
    assert_eq!(cvars.get::<usize>("g_usize"), Ok(987654));
    let other = Choice::new(vec!["Red".to_owned(), "Green".to_owned()], 0).unwrap();
    assert_eq!(cvars.set("g_enum", other), Err(mismatch("g_enum", "enum")));
    assert_eq!(cvars.get_string("g_enum"), Ok("Two".to_owned()));
}

#[test]
fn test_string_getters() {
    let cvars = fixture();
    assert_eq!(cvars.get_string("g_bool"), Ok("true".to_owned()));
    assert_eq!(cvars.get_string("g_int"), Ok("42".to_owned()));
    assert_eq!(cvars.get_string("g_usize"), Ok("987654".to_owned()));
    assert_eq!(cvars.get_string("g_long"), Ok("-9000000000".to_owned()));
    assert_eq!(cvars.get_string("g_u32"), Ok("7".to_owned()));
    assert_eq!(cvars.get_string("g_u64"), Ok("18446744073709551615".to_owned()));
    assert_eq!(cvars.get_string("g_string"), Ok("String".to_owned()));
    assert_eq!(cvars.get_string("g_enum"), Ok("Two".to_owned()));
}

#[test]
fn test_string_setters() {
    let mut cvars = fixture();
    cvars.set_str("g_bool", "false").unwrap();
    cvars.set_str("g_int", "43").unwrap();
    cvars.set_str("g_usize", "987655").unwrap();
    cvars.set_str("g_long", "-1").unwrap();
    cvars.set_str("g_string", "two words").unwrap();
    cvars.set_str("g_enum", "one").unwrap();

    assert_eq!(cvars.get::<bool>("g_bool"), Ok(false));
    assert_eq!(cvars.get::<i32>("g_int"), Ok(43));
    assert_eq!(cvars.get::<usize>("g_usize"), Ok(987655));
    assert_eq!(cvars.get::<i64>("g_long"), Ok(-1));
    assert_eq!(cvars.get::<String>("g_string"), Ok("two words".to_owned()));
    assert_eq!(cvars.get::<Choice>("g_enum").unwrap().selected(), 0);

    let err = cvars.set_str("bla", "666").unwrap_err();
    assert_eq!(err, not_found("bla"));
    assert_eq!(err.message(), "Cvar named bla not found");
}

#[test]
fn test_malformed_text() {
    let mut cvars = fixture();
    let err = cvars.set_str("g_int", "not a num").unwrap_err();
    assert_eq!(
        err,
        CvarError::Parse {
            name: "g_int".to_owned(),
            text: "not a num".to_owned(),
            expected: "i32".to_owned(),
            failure: ParseFailure::Int(IntError::InvalidDigit),
        }
    );
    assert_eq!(
        err.message(),
        "failed to parse not a num as type i32: invalid digit found in string"
    );
    assert_eq!(cvars.get::<i32>("g_int"), Ok(42));
}

#[test]
fn test_parse_failures() {
    let mut cvars = fixture();
    let failure = |r: Result<(), CvarError>| match r {
        Err(CvarError::Parse { failure, .. }) => failure,
        other => panic!("expected a parse error, got {:?}", other),
    };
    assert_eq!(failure(cvars.set_str("g_int", "")), ParseFailure::Int(IntError::Empty));
    assert_eq!(failure(cvars.set_str("g_int", "+")), ParseFailure::Int(IntError::InvalidDigit));
    assert_eq!(failure(cvars.set_str("g_int", "2147483648")), ParseFailure::Int(IntError::PosOverflow));
    assert_eq!(failure(cvars.set_str("g_int", "-2147483649")), ParseFailure::Int(IntError::NegOverflow));
    assert_eq!(failure(cvars.set_str("g_u32", "-1")), ParseFailure::Int(IntError::InvalidDigit));
    assert_eq!(failure(cvars.set_str("g_bool", "yes")), ParseFailure::Bool);
    assert_eq!(failure(cvars.set_str("g_enum", "three")), ParseFailure::Variant);
    assert_eq!(
        cvars.set_str("g_bool", "yes").unwrap_err().message(),
        "failed to parse yes as type bool: provided string was not `true` or `false`"
    );
    assert_eq!(cvars.get_string("g_int"), Ok("42".to_owned()));
    assert_eq!(cvars.get_string("g_bool"), Ok("true".to_owned()));
}

#[test]
fn test_integer_limits() {
    let mut cvars = fixture();
    cvars.set_str("g_int", "-2147483648").unwrap();
    assert_eq!(cvars.get::<i32>("g_int"), Ok(i32::MIN));
    assert_eq!(cvars.get_string("g_int"), Ok("-2147483648".to_owned()));
    cvars.set_str("g_int", "+2147483647").unwrap();
    assert_eq!(cvars.get::<i32>("g_int"), Ok(i32::MAX));
    cvars.set_str("g_long", "-9223372036854775808").unwrap();
    assert_eq!(cvars.get::<i64>("g_long"), Ok(i64::MIN));
    assert_eq!(cvars.get_string("g_long"), Ok("-9223372036854775808".to_owned()));
    cvars.set_str("g_u32", "0004294967295").unwrap();
    assert_eq!(cvars.get_string("g_u32"), Ok("4294967295".to_owned()));
}

#[test]
fn test_skip() {
    let mut cvars = fixture();
    let old_value = skipped_value(&cvars);
    assert_eq!(old_value, 666);
    assert_eq!(cvars.get::<i32>("g_skipped"), Err(mismatch("g_skipped", "i32")));
    assert_eq!(
        cvars.get::<i32>("g_skipped").unwrap_err().message(),
        "Cvar named g_skipped with type i32 not found"
    );
    assert_eq!(cvars.get_string("g_skipped"), Err(not_found("g_skipped")));
    assert_eq!(cvars.set("g_skipped", 1), Err(mismatch("g_skipped", "i32")));
    assert_eq!(cvars.set_str("g_skipped", "1"), Err(not_found("g_skipped")));
    assert_eq!(skipped_value(&cvars), old_value);
}

#[test]
fn test_bool() {
    let mut cvars = fixture();
    cvars.set_str("g_bool", "false").unwrap();
    assert_eq!(cvars.get::<bool>("g_bool"), Ok(false));
    cvars.set_str("g_bool", "true").unwrap();
    assert_eq!(cvars.get::<bool>("g_bool"), Ok(true));

    cvars.set_str("g_bool", "f").unwrap();
    assert_eq!(cvars.get::<bool>("g_bool"), Ok(false));
    cvars.set_str("g_bool", "t").unwrap();
    assert_eq!(cvars.get::<bool>("g_bool"), Ok(true));

    cvars.set_str("g_bool", "0").unwrap();
    assert_eq!(cvars.get::<bool>("g_bool"), Ok(false));
    cvars.set_str("g_bool", "1").unwrap();
    assert_eq!(cvars.get::<bool>("g_bool"), Ok(true));
}

#[test]
fn test_unknown_name() {
    let mut cvars = fixture();
    assert_eq!(cvars.get_string("nonexistent"), Err(not_found("nonexistent")));
    assert_eq!(cvars.set_str("nonexistent", "x"), Err(not_found("nonexistent")));
}

#[test]
fn test_round_trip() {
    let mut cvars = fixture();
    for name in ["g_bool", "g_int", "g_usize", "g_long", "g_u32", "g_u64", "g_string", "g_enum"] {
        let text = cvars.get_string(name).unwrap();
        cvars.set_str(name, &text).unwrap();
        assert_eq!(cvars.get_string(name), Ok(text));
    }
}

fn take_dyn(cvars: &mut dyn SetGet) {
    cvars.set_str("g_bool", "false").unwrap();
    cvars.set_str("g_int", "43").unwrap();
    cvars.set_str("g_usize", "987655").unwrap();
    cvars.set_str("g_enum", "one").unwrap();

    assert_eq!(cvars.set_str("bla", "666"), Err(not_found("bla")));
    assert_eq!(
        cvars.set_str("g_int", "not a num").unwrap_err().message(),
        "failed to parse not a num as type i32: invalid digit found in string"
    );

    assert_eq!(cvars.get_string("g_bool"), Ok("false".to_owned()));
    assert_eq!(cvars.get_string("g_int"), Ok("43".to_owned()));
    assert_eq!(cvars.get_string("g_usize"), Ok("987655".to_owned()));
    assert_eq!(cvars.get_string("g_enum"), Ok("One".to_owned()));
    assert_eq!(cvars.get_string("bla"), Err(not_found("bla")));
}

#[test]
fn test_dyn() {
    let mut cvars = fixture();
    take_dyn(&mut cvars);
}

#[test]
fn test_example_scenario() {
    let mut cvars = Cvars::new();
    cvars.register("g_bool", Value::Bool(true), false).unwrap();
    cvars.register("g_int", Value::I32(42), false).unwrap();
    assert_eq!(cvars.set_str("g_int", "43"), Ok(()));
    assert_eq!(cvars.get_string("g_int"), Ok("43".to_owned()));
    assert_eq!(cvars.get::<i32>("g_int"), Ok(43));
    assert_eq!(cvars.get::<bool>("g_int"), Err(mismatch("g_int", "bool")));
    assert_eq!(cvars.set_str("bla", "1"), Err(not_found("bla")));
}

#[test]
fn test_cvar_count() {
    let cvars = fixture();
    assert_eq!(cvars.cvar_count(), 8);
    assert_eq!(cvars.fields().len(), 9);
    assert_eq!(Cvars::new().cvar_count(), 0);
}

#[test]
fn test_register_duplicate() {
    let mut cvars = fixture();
    let err = cvars.register("g_int", Value::Bool(false), false).unwrap_err();
    assert_eq!(err, CvarError::Duplicate { name: "g_int".to_owned() });
    assert_eq!(err.message(), "Cvar named g_int already exists");
    assert_eq!(
        cvars.register("g_skipped", Value::I32(1), false),
        Err(CvarError::Duplicate { name: "g_skipped".to_owned() })
    );
    assert_eq!(cvars.get::<i32>("g_int"), Ok(42));
    assert_eq!(cvars.cvar_count(), 8);
}

#[test]
fn test_choice() {
    assert!(Choice::new(enum_options(), 2).is_none());
    assert!(Choice::new(vec!["One".to_owned(), "ONE".to_owned()], 0).is_none());
    let c = Choice::new(vec!["Low".to_owned(), "High".to_owned()], 1).unwrap();
    assert_eq!(c.options(), &vec!["Low".to_owned(), "High".to_owned()]);
    assert_eq!(c.selected(), 1);
    assert_eq!(c.duplicate().selected(), 1);

    let mut cvars = fixture();
    cvars.set_str("g_enum", "TWO").unwrap();
    assert_eq!(cvars.get_string("g_enum"), Ok("Two".to_owned()));
    cvars.set_str("g_enum", "oNe").unwrap();
    assert_eq!(cvars.get_string("g_enum"), Ok("One".to_owned()));
}

#[test]
fn test_get_choice_exact_options() {
    let cvars = fixture();
    assert_eq!(cvars.get_choice("g_enum", &enum_options()).unwrap().selected(), 1);
    let other = vec!["Two".to_owned(), "One".to_owned()];
    assert_eq!(cvars.get_choice("g_enum", &other).unwrap_err(), mismatch("g_enum", "enum"));
    assert_eq!(cvars.get_choice("g_int", &enum_options()).unwrap_err(), mismatch("g_int", "enum"));
    assert_eq!(cvars.get_choice("bla", &enum_options()).unwrap_err(), mismatch("bla", "enum"));
}

#[test]
fn test_set_at() {
    let mut cvars = fixture();
    let skipped = cvars.fields().iter().position(|f| f.name == "g_skipped").unwrap();
    assert!(cvars.set_at(skipped, Value::I32(1)));
    assert_eq!(skipped_value(&cvars), 1);
    assert!(!cvars.set_at(skipped, Value::U32(2)));
    assert_eq!(skipped_value(&cvars), 1);
    assert!(!cvars.set_at(100, Value::I32(2)));
    assert_eq!(cvars.get_string("g_skipped"), Err(not_found("g_skipped")));
    assert!(cvars.set_at(1, Value::I32(-5)));
    assert_eq!(cvars.get::<i32>("g_int"), Ok(-5));
}

#[test]
fn test_small_integer_kinds() {
    let mut cvars = Cvars::new();
    cvars.register("g_i8", Value::I8(-128), false).unwrap();
    cvars.register("g_i16", Value::I16(300), false).unwrap();
    cvars.register("g_isize", Value::Isize(-1), false).unwrap();
    cvars.register("g_u8", Value::U8(255), false).unwrap();
    cvars.register("g_u16", Value::U16(65535), false).unwrap();
    assert_eq!(cvars.get_string("g_i8"), Ok("-128".to_owned()));
    assert_eq!(cvars.get_string("g_u8"), Ok("255".to_owned()));
    assert_eq!(cvars.get::<i16>("g_i16"), Ok(300));
    assert_eq!(cvars.get::<u16>("g_u16"), Ok(65535));
    assert_eq!(cvars.get::<isize>("g_isize"), Ok(-1));
    assert_eq!(cvars.get::<u8>("g_i8"), Err(mismatch("g_i8", "u8")));

    let failure = |r: Result<(), CvarError>| match r {
        Err(CvarError::Parse { failure, .. }) => failure,
        other => panic!("expected a parse error, got {:?}", other),
    };
    assert_eq!(failure(cvars.set_str("g_i8", "128")), ParseFailure::Int(IntError::PosOverflow));
    assert_eq!(failure(cvars.set_str("g_i8", "-129")), ParseFailure::Int(IntError::NegOverflow));
    assert_eq!(failure(cvars.set_str("g_u8", "256")), ParseFailure::Int(IntError::PosOverflow));
    cvars.set_str("g_isize", "-9223372036854775808").unwrap();
    assert_eq!(cvars.get::<isize>("g_isize"), Ok(isize::MIN));
    cvars.set("g_u16", 7_u16).unwrap();
    assert_eq!(cvars.get_string("g_u16"), Ok("7".to_owned()));
    cvars.set("g_i8", 5_i8).unwrap();
    assert_eq!(cvars.get::<i8>("g_i8"), Ok(5));
}
