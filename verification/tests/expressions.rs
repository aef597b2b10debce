use regex::Regex;
use remap_core::expression::{Context, Expression, RuntimeError};
use remap_core::is_regex::IsRegexFn;
use remap_core::kind::{Kind, Tag};
use remap_core::segment::SegmentBuf;
use remap_core::state::Compiler;
use remap_core::type_def::TypeDef;
use remap_core::value::Value;

fn text(s: &str) -> Value {
    Value::Bytes(s.as_bytes().to_vec())
}

fn object(members: Vec<(&str, Value)>) -> Value {
    Value::Object(members.into_iter().map(|(name, value)| (name.to_string(), value)).collect())
}

fn query(names: &[&str]) -> Expression {
    Expression::Query(names.iter().map(|name| SegmentBuf::field(name.to_string(), false)).collect())
}

fn abort(message: &str) -> Expression {
    Expression::Abort { message: message.to_string() }
}

fn is_regex(argument: Expression) -> Expression {
    Expression::IsRegex(IsRegexFn { value: Box::new(argument) })
}

fn empty_event() -> Context {
    Context::new(Value::Object(vec![]))
}

fn event() -> Value {
    object(vec![
        ("message", text("hello")),
        ("nothing", Value::Null),
        ("pattern", Value::Regex(Regex::new("a+").unwrap())),
        ("inner", object(vec![("count", Value::Integer(3))])),
    ])
}

#[test]
fn literal_evaluates_to_its_value() {
    let mut ctx = empty_event();
    assert!(matches!(Expression::Literal(Value::Integer(4)).resolve(&mut ctx), Ok(Value::Integer(4))));
    assert!(matches!(Expression::Literal(Value::Null).resolve(&mut ctx), Ok(Value::Null)));
}

#[test]
fn query_evaluates_to_what_the_path_finds() {
    let mut ctx = Context::new(event());
    assert!(matches!(query(&["inner", "count"]).resolve(&mut ctx), Ok(Value::Integer(3))));
    match query(&["message"]).resolve(&mut ctx) {
        Ok(Value::Bytes(bytes)) => assert_eq!(bytes, b"hello"),
        other => panic!("got {:?}", other),
    }
}

#[test]
fn query_of_the_empty_path_evaluates_to_the_event() {
    let mut ctx = Context::new(Value::Integer(9));
    assert!(matches!(Expression::Query(vec![]).resolve(&mut ctx), Ok(Value::Integer(9))));
}

#[test]
fn query_that_leads_nowhere_evaluates_to_null() {
    let mut ctx = Context::new(event());
    assert!(matches!(query(&["absent"]).resolve(&mut ctx), Ok(Value::Null)));
    assert!(matches!(query(&["message", "deeper"]).resolve(&mut ctx), Ok(Value::Null)));
    let mut ctx = empty_event();
    assert!(matches!(query(&["message"]).resolve(&mut ctx), Ok(Value::Null)));
}

#[test]
fn abort_fails_with_its_message() {
    let mut ctx = empty_event();
    assert_eq!(
        abort("stop here").resolve(&mut ctx).unwrap_err(),
        RuntimeError { message: "stop here".to_string() }
    );
}

#[test]
fn coalesce_skips_null_and_absent() {
    let mut ctx = Context::new(event());
    let expression = Expression::Coalesce(vec![
        query(&["nothing"]),
        query(&["absent"]),
        query(&["inner", "count"]),
    ]);
    assert!(matches!(expression.resolve(&mut ctx), Ok(Value::Integer(3))));
}

#[test]
fn coalesce_of_a_null_and_a_concrete_value_is_the_concrete_value() {
    let mut ctx = empty_event();
    let expression =
        Expression::Coalesce(vec![Expression::Literal(Value::Null), Expression::Literal(Value::Integer(2))]);
    assert!(matches!(expression.resolve(&mut ctx), Ok(Value::Integer(2))));
}

#[test]
fn coalesce_of_nulls_is_null() {
    let mut ctx = Context::new(event());
    let expression = Expression::Coalesce(vec![query(&["nothing"]), query(&["absent"])]);
    assert!(matches!(expression.resolve(&mut ctx), Ok(Value::Null)));
    assert!(matches!(Expression::Coalesce(vec![]).resolve(&mut ctx), Ok(Value::Null)));
}

#[test]
fn coalesce_never_evaluates_what_follows_a_concrete_value() {
    let mut ctx = Context::new(event());
    let expression = Expression::Coalesce(vec![query(&["message"]), abort("must not run")]);
    match expression.resolve(&mut ctx) {
        Ok(Value::Bytes(bytes)) => assert_eq!(bytes, b"hello"),
        other => panic!("got {:?}", other),
    }
}

#[test]
fn coalesce_meets_a_failure_that_comes_before_a_concrete_value() {
    let mut ctx = Context::new(event());
    let expression =
        Expression::Coalesce(vec![query(&["nothing"]), abort("first"), query(&["message"]), abort("second")]);
    assert_eq!(
        expression.resolve(&mut ctx).unwrap_err(),
        RuntimeError { message: "first".to_string() }
    );
}

#[test]
fn is_regex_of_a_string_is_false() {
    let mut ctx = empty_event();
    assert!(matches!(
        is_regex(Expression::Literal(text("foobar"))).resolve(&mut ctx),
        Ok(Value::Boolean(false))
    ));
}

#[test]
fn is_regex_of_a_compiled_pattern_is_true() {
    let mut ctx = empty_event();
    let pattern = Value::Regex(Regex::new(r"\d+").unwrap());
    assert!(matches!(is_regex(Expression::Literal(pattern)).resolve(&mut ctx), Ok(Value::Boolean(true))));
}

#[test]
fn is_regex_of_null_is_false() {
    let mut ctx = empty_event();
    assert!(matches!(
        is_regex(Expression::Literal(Value::Null)).resolve(&mut ctx),
        Ok(Value::Boolean(false))
    ));
}

#[test]
fn is_regex_of_every_other_kind_is_false() {
    let others = vec![
        Value::Integer(1),
        Value::Float(2.5f64.to_bits()),
        Value::Boolean(true),
        Value::Array(vec![Value::Regex(Regex::new("x").unwrap())]),
        object(vec![("re", Value::Regex(Regex::new("x").unwrap()))]),
        Value::Timestamp(0),
        Value::Error("bad".to_string()),
    ];
    let mut ctx = empty_event();
    for value in others {
        assert!(matches!(
            is_regex(Expression::Literal(value)).resolve(&mut ctx),
            Ok(Value::Boolean(false))
        ));
    }
}

#[test]
fn is_regex_looks_at_what_a_query_finds() {
    let mut ctx = Context::new(event());
    assert!(matches!(is_regex(query(&["pattern"])).resolve(&mut ctx), Ok(Value::Boolean(true))));
    assert!(matches!(is_regex(query(&["message"])).resolve(&mut ctx), Ok(Value::Boolean(false))));
    assert!(matches!(is_regex(query(&["absent"])).resolve(&mut ctx), Ok(Value::Boolean(false))));
}

#[test]
fn is_regex_of_an_answer_is_false() {
    let mut ctx = Context::new(event());
    let inner = is_regex(query(&["pattern"]));
    assert!(matches!(is_regex(inner).resolve(&mut ctx), Ok(Value::Boolean(false))));
}

#[test]
fn is_regex_passes_on_the_failure_of_its_argument() {
    let mut ctx = empty_event();
    assert_eq!(
        is_regex(abort("no value")).resolve(&mut ctx).unwrap_err(),
        RuntimeError { message: "no value".to_string() }
    );
}

#[test]
fn classify_answers_for_a_value_and_passes_on_a_failure() {
    assert!(matches!(IsRegexFn::classify(Ok(Value::Null)), Ok(Value::Boolean(false))));
    assert!(matches!(
        IsRegexFn::classify(Ok(Value::Regex(Regex::new("a").unwrap()))),
        Ok(Value::Boolean(true))
    ));
    assert_eq!(
        IsRegexFn::classify(Err(RuntimeError { message: "as it is".to_string() })).unwrap_err(),
        RuntimeError { message: "as it is".to_string() }
    );
}

#[test]
fn resolving_twice_gives_the_same_outcome() {
    let expression = Expression::Coalesce(vec![
        query(&["absent"]),
        is_regex(query(&["pattern"])),
        abort("unreached"),
    ]);
    let mut ctx = Context::new(event());
    let first = format!("{:?}", expression.resolve(&mut ctx));
    let second = format!("{:?}", expression.resolve(&mut ctx));
    let third = format!("{:?}", expression.resolve(&mut ctx));
    assert_eq!(first, "Ok(Boolean(true))");
    assert_eq!(first, second);
    assert_eq!(second, third);
}

#[test]
fn events_with_the_same_content_give_the_same_outcome() {
    let expressions = vec![
        query(&["inner", "count"]),
        is_regex(query(&["pattern"])),
        Expression::Coalesce(vec![query(&["nothing"]), query(&["message"])]),
        Expression::Coalesce(vec![query(&["nothing"]), abort("gone")]),
    ];
    let mut one = Context::new(event());
    let mut other = Context::new(event().clone());
    for expression in &expressions {
        let left = format!("{:?}", expression.resolve(&mut one));
        let right = format!("{:?}", expression.resolve(&mut other));
        assert_eq!(left, right);
        // and again, the other way round
        let right = format!("{:?}", expression.resolve(&mut other));
        let left = format!("{:?}", expression.resolve(&mut one));
        assert_eq!(left, right);
    }
}

#[test]
fn resolving_leaves_the_event_as_it_was() {
    let mut ctx = Context::new(event());
    let before = format!("{:?}", ctx.event());
    let _ = is_regex(query(&["pattern"])).resolve(&mut ctx);
    let _ = abort("x").resolve(&mut ctx);
    let _ = Expression::Coalesce(vec![query(&["a"]), query(&["message"])]).resolve(&mut ctx);
    assert_eq!(format!("{:?}", ctx.event()), before);
}

#[test]
fn rebinding_changes_what_queries_find() {
    let mut ctx = Context::new(object(vec![("a", Value::Integer(1))]));
    assert!(matches!(query(&["a"]).resolve(&mut ctx), Ok(Value::Integer(1))));
    ctx.rebind(object(vec![("a", Value::Integer(2))]));
    assert!(matches!(query(&["a"]).resolve(&mut ctx), Ok(Value::Integer(2))));
    assert!(matches!(ctx.event(), Value::Object(_)));
}

#[test]
fn literal_is_described_by_the_kind_of_its_value() {
    let description = Expression::Literal(Value::Integer(1)).type_def(&Compiler::new());
    assert_eq!(description, TypeDef::new().infallible().with_kind(Kind::only(Tag::Integer)));
    let description = Expression::Literal(Value::Regex(Regex::new("a").unwrap())).type_def(&Compiler::new());
    assert_eq!(description.kind(), Kind::only(Tag::Regex));
    assert!(!description.is_fallible());
}

#[test]
fn query_is_described_as_anything_and_infallible() {
    assert_eq!(query(&["a"]).type_def(&Compiler::new()), TypeDef::new().infallible());
    assert_eq!(query(&["a"]).type_def(&Compiler::new()).kind(), Kind::any());
}

#[test]
fn query_of_the_empty_path_is_described_as_the_event_is() {
    let state = Compiler::expecting(Kind::only(Tag::Object)).unwrap();
    let description = Expression::Query(vec![]).type_def(&state);
    assert_eq!(description.kind(), Kind::only(Tag::Object));
    assert!(!description.is_fallible());
    // What lies inside the event is not known.
    assert_eq!(query(&["a"]).type_def(&state).kind(), Kind::any());
    assert_eq!(Expression::Query(vec![]).type_def(&Compiler::new()).kind(), Kind::any());
}

#[test]
fn coalesce_over_the_event_is_described_with_the_kinds_of_the_event() {
    let state = Compiler::expecting(Kind::only(Tag::Bytes)).unwrap();
    let expression =
        Expression::Coalesce(vec![Expression::Query(vec![]), Expression::Literal(Value::Integer(1))]);
    let expected = Kind::only(Tag::Null).union(Kind::only(Tag::Bytes)).union(Kind::only(Tag::Integer));
    assert_eq!(expression.type_def(&state).kind(), expected);
}

#[test]
fn compiler_state_names_at_least_one_kind() {
    assert!(Compiler::expecting(Kind::empty()).is_none());
    assert_eq!(Compiler::expecting(Kind::any()), Some(Compiler::new()));
    assert_eq!(Compiler::new().target(), Kind::any());
    let narrow = Kind::only(Tag::Array).union(Kind::only(Tag::Object));
    assert_eq!(Compiler::expecting(narrow).unwrap().target(), narrow);
}

#[test]
fn is_regex_is_described_as_an_infallible_boolean() {
    let expected = TypeDef::new().infallible().boolean();
    assert_eq!(is_regex(Expression::Literal(text("x"))).type_def(&Compiler::new()), expected);
    assert_eq!(is_regex(query(&["a"])).type_def(&Compiler::new()), expected);
    // The description is the function's own: it does not follow the argument.
    assert_eq!(is_regex(abort("x")).type_def(&Compiler::new()), expected);
    assert_eq!(IsRegexFn { value: Box::new(Expression::Literal(Value::Null)) }.type_def(&Compiler::new()), expected);
}

#[test]
fn abort_is_described_as_fallible() {
    let description = abort("x").type_def(&Compiler::new());
    assert!(description.is_fallible());
    assert_eq!(description.kind(), Kind::only(Tag::Null));
}

#[test]
fn coalesce_is_described_by_its_alternatives_and_null() {
    let expression = Expression::Coalesce(vec![
        Expression::Literal(Value::Integer(1)),
        is_regex(query(&["a"])),
    ]);
    let description = expression.type_def(&Compiler::new());
    let expected = Kind::only(Tag::Null).union(Kind::only(Tag::Integer)).union(Kind::only(Tag::Boolean));
    assert_eq!(description.kind(), expected);
    assert!(!description.is_fallible());

    let description = Expression::Coalesce(vec![]).type_def(&Compiler::new());
    assert_eq!(description.kind(), Kind::only(Tag::Null));
    assert!(!description.is_fallible());
}

#[test]
fn coalesce_is_fallible_if_an_alternative_is() {
    let expression = Expression::Coalesce(vec![Expression::Literal(Value::Integer(1)), abort("x")]);
    assert!(expression.type_def(&Compiler::new()).is_fallible());
    let nested = Expression::Coalesce(vec![Expression::Literal(Value::Null), expression]);
    assert!(nested.type_def(&Compiler::new()).is_fallible());
}

#[test]
fn described_kind_is_never_empty() {
    let expressions = vec![
        Expression::Literal(Value::Null),
        query(&[]),
        Expression::Coalesce(vec![]),
        is_regex(abort("x")),
        abort("x"),
    ];
    for expression in expressions {
        assert!(!expression.type_def(&Compiler::new()).kind().is_empty());
    }
}

#[test]
fn outcome_is_of_a_described_kind() {
    let expressions = vec![
        Expression::Literal(text("x")),
        query(&["inner"]),
        query(&["absent"]),
        Expression::Coalesce(vec![query(&["nothing"]), query(&["pattern"])]),
        Expression::Coalesce(vec![query(&["nothing"])]),
        is_regex(query(&["pattern"])),
    ];
    let mut ctx = Context::new(event());
    for expression in expressions {
        let value = expression.resolve(&mut ctx).unwrap();
        assert!(expression.type_def(&Compiler::new()).kind().contains(value.tag()));
    }
    let state = Compiler::expecting(Kind::only(Tag::Object)).unwrap();
    let whole = Expression::Query(vec![]);
    let value = whole.resolve(&mut ctx).unwrap();
    assert!(whole.type_def(&state).kind().contains(value.tag()));
}

#[test]
fn context_reads_the_event_by_path() {
    let ctx = Context::new(event());
    let path = [
        SegmentBuf::field("inner".to_string(), false),
        SegmentBuf::field("count".to_string(), true),
    ];
    assert!(matches!(ctx.get(&path), Some(Value::Integer(3))));
    assert!(matches!(ctx.get(&[]), Some(Value::Object(_))));
    assert!(ctx.get(&[SegmentBuf::index(0)]).is_none());
    let either = [SegmentBuf::coalesce(vec![
        SegmentBuf::field("nothing".to_string(), false),
        SegmentBuf::field("message".to_string(), false),
    ])];
    assert!(matches!(ctx.get(&either), Some(Value::Bytes(_))));
}
