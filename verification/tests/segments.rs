use remap_core::segment::{Segment, SegmentBuf};
use remap_core::text::{order_texts, Order};
use std::cmp::Ordering;
use std::collections::{BTreeSet, HashMap};

fn field(name: &str, requires_quoting: bool) -> SegmentBuf {
    SegmentBuf::field(name.to_string(), requires_quoting)
}

#[test]
fn constructors_build_the_matching_variant() {
    assert_eq!(
        field("foo", false),
        SegmentBuf::Field { name: "foo".to_string(), requires_quoting: false }
    );
    assert_eq!(SegmentBuf::index(3), SegmentBuf::Index(3));
    assert_eq!(
        SegmentBuf::coalesce(vec![SegmentBuf::index(1), field("a", true)]),
        SegmentBuf::Coalesce(vec![SegmentBuf::Index(1), field("a", true)])
    );
}

#[test]
fn predicates_tell_the_variants_apart() {
    let f = field("foo", false);
    let i = SegmentBuf::index(0);
    let c = SegmentBuf::coalesce(vec![]);
    assert!(f.is_field() && !f.is_index() && !f.is_coalesce());
    assert!(!i.is_field() && i.is_index() && !i.is_coalesce());
    assert!(!c.is_field() && !c.is_index() && c.is_coalesce());
}

#[test]
fn borrowed_predicates_tell_the_variants_apart() {
    let f = Segment::field("foo", false);
    let i = Segment::index(0);
    let c = Segment::coalesce(vec![]);
    assert!(f.is_field() && !f.is_index() && !f.is_coalesce());
    assert!(!i.is_field() && i.is_index() && !i.is_coalesce());
    assert!(!c.is_field() && !c.is_index() && c.is_coalesce());
}

#[test]
fn index_renders_as_its_decimal_numeral() {
    assert_eq!(SegmentBuf::index(0).to_string(), "0");
    assert_eq!(SegmentBuf::index(7).to_string(), "7");
    assert_eq!(SegmentBuf::index(10).to_string(), "10");
    assert_eq!(SegmentBuf::index(42).to_string(), "42");
    assert_eq!(SegmentBuf::index(1_234_567_890).to_string(), "1234567890");
    assert_eq!(SegmentBuf::index(usize::MAX).to_string(), format!("{}", usize::MAX));
}

#[test]
fn field_renders_with_quotes_only_if_it_requires_quoting() {
    assert_eq!(field("foo", false).to_string(), "foo");
    assert_eq!(field("foo", true).to_string(), "\"foo\"");
    assert_eq!(field("foo.bar", true).to_string(), "\"foo.bar\"");
    assert_eq!(field("", false).to_string(), "");
    assert_eq!(field("", true).to_string(), "\"\"");
    assert_eq!(field("né", true).to_string(), "\"né\"");
}

#[test]
fn coalesce_renders_its_alternatives_joined_by_a_bar() {
    let c = SegmentBuf::coalesce(vec![field("a", false), field("b c", true), SegmentBuf::index(3)]);
    assert_eq!(c.to_string(), "a | \"b c\" | 3");
    assert_eq!(SegmentBuf::coalesce(vec![]).to_string(), "");
    assert_eq!(SegmentBuf::coalesce(vec![field("only", false)]).to_string(), "only");
}

#[test]
fn nested_coalesce_renders_inner_alternatives_in_place() {
    let inner = SegmentBuf::coalesce(vec![field("b", false), field("c", false)]);
    let outer = SegmentBuf::coalesce(vec![field("a", false), inner, field("d", false)]);
    assert_eq!(outer.to_string(), "a | b | c | d");
}

#[test]
fn quoted_text_is_stripped_of_one_layer_of_quotes() {
    let segment = SegmentBuf::from_text("\"foo\"".to_string());
    assert_eq!(segment, field("foo", true));
}

#[test]
fn unquoted_text_is_the_name_as_it_stands() {
    let segment = SegmentBuf::from_text("foo".to_string());
    assert_eq!(segment, field("foo", false));
    assert_eq!(SegmentBuf::from_text(String::new()), field("", false));
    assert_eq!(SegmentBuf::from_text("a\"b\"".to_string()), field("a\"b\"", false));
}

#[test]
fn quoting_fidelity() {
    let quoted = SegmentBuf::from_text("\"foo\"".to_string());
    let plain = SegmentBuf::from_text("foo".to_string());
    match &quoted {
        SegmentBuf::Field { name, requires_quoting } => {
            assert_eq!(name, "foo");
            assert!(*requires_quoting);
        }
        _ => panic!("a field text gives a field"),
    }
    match &plain {
        SegmentBuf::Field { name, requires_quoting } => {
            assert_eq!(name, "foo");
            assert!(!*requires_quoting);
        }
        _ => panic!("a field text gives a field"),
    }
    assert_ne!(quoted.to_string(), plain.to_string());
    assert_ne!(quoted, plain);
}

#[test]
fn only_the_leading_character_decides_on_quoting() {
    // No closing quote is asked for: the last character goes, whatever it is.
    assert_eq!(SegmentBuf::from_text("\"foo".to_string()), field("fo", true));
    assert_eq!(SegmentBuf::from_text("\"a\"b\"".to_string()), field("a\"b", true));
    assert_eq!(SegmentBuf::from_text("\"\"".to_string()), field("", true));
    assert_eq!(SegmentBuf::from_text("\"é\"".to_string()), field("é", true));
}

#[test]
fn try_from_text_takes_what_from_text_takes() {
    assert_eq!(SegmentBuf::try_from_text("foo".to_string()), Some(field("foo", false)));
    assert_eq!(SegmentBuf::try_from_text("\"foo\"".to_string()), Some(field("foo", true)));
    assert_eq!(SegmentBuf::try_from_text("\"x".to_string()), Some(field("", true)));
    assert_eq!(SegmentBuf::try_from_text("é".to_string()), Some(field("é", false)));
}

#[test]
fn try_from_text_refuses_a_lone_quote() {
    assert_eq!(SegmentBuf::try_from_text("\"".to_string()), None);
}

#[test]
fn try_from_text_refuses_a_quoted_text_that_ends_in_a_wide_character() {
    assert_eq!(SegmentBuf::try_from_text("\"foé".to_string()), None);
    assert_eq!(SegmentBuf::try_from_text("\"é".to_string()), None);
    assert_eq!(SegmentBuf::try_from_text("\"\u{80}".to_string()), None);
    assert_eq!(SegmentBuf::try_from_text("\"\u{7f}".to_string()), Some(field("", true)));
}

#[test]
fn field_text_round_trips() {
    let texts = ["foo", "\"foo\"", "\"foo.bar\"", "", "\"\"", "a b", "\"a | b\"", "\"\"x\"\"", "\"fo"];
    for text in texts {
        let first = SegmentBuf::from_text(text.to_string());
        let again = SegmentBuf::from_text(first.to_string());
        assert_eq!(again, first, "for the text {:?}", text);
    }
}

#[test]
fn rendering_a_parsed_quoted_text_gives_the_text_back() {
    for text in ["foo", "\"foo\"", "\"a.b\"", "\"\""] {
        assert_eq!(SegmentBuf::from_text(text.to_string()).to_string(), text);
    }
}

#[test]
fn owned_and_borrowed_forms_convert_without_loss() {
    let segments = vec![
        field("foo", false),
        field("b a r", true),
        SegmentBuf::index(9),
        SegmentBuf::coalesce(vec![]),
        SegmentBuf::coalesce(vec![
            field("a", false),
            SegmentBuf::coalesce(vec![SegmentBuf::index(1), field("z", true)]),
        ]),
    ];
    for segment in &segments {
        assert_eq!(&segment.as_segment().as_segment_buf(), segment);
    }
}

#[test]
fn borrowed_form_shows_the_same_data() {
    let owned = SegmentBuf::coalesce(vec![field("a", true), SegmentBuf::index(2)]);
    let expected =
        Segment::coalesce(vec![Segment::field("a", true), Segment::index(2)]);
    assert_eq!(owned.as_segment(), expected);
    assert_eq!(field("x", false).as_segment(), Segment::Field { name: "x", requires_quoting: false });
    assert_eq!(SegmentBuf::index(5).as_segment(), Segment::Index(5));
}

#[test]
fn segments_convert_from_plain_values() {
    assert_eq!(SegmentBuf::from(4usize), SegmentBuf::index(4));
    assert_eq!(
        SegmentBuf::from(vec![SegmentBuf::index(1), SegmentBuf::index(2)]),
        SegmentBuf::coalesce(vec![SegmentBuf::index(1), SegmentBuf::index(2)])
    );
    assert_eq!(SegmentBuf::from(Segment::field("foo", true)), field("foo", true));
    let through_into: SegmentBuf = 7usize.into();
    assert_eq!(through_into, SegmentBuf::Index(7));
}

#[test]
fn clone_is_equal_to_its_source() {
    let segment = SegmentBuf::coalesce(vec![
        field("a", true),
        SegmentBuf::index(2),
        SegmentBuf::coalesce(vec![field("b", false)]),
    ]);
    assert_eq!(segment.clone(), segment);
}

#[test]
fn equality_is_structural() {
    assert_eq!(field("a", false), field("a", false));
    assert_ne!(field("a", false), field("a", true));
    assert_ne!(field("a", false), field("b", false));
    assert_ne!(SegmentBuf::index(1), SegmentBuf::index(2));
    assert_ne!(field("1", false), SegmentBuf::index(1));
    assert_ne!(
        SegmentBuf::coalesce(vec![SegmentBuf::index(1), SegmentBuf::index(2)]),
        SegmentBuf::coalesce(vec![SegmentBuf::index(2), SegmentBuf::index(1)])
    );
}

#[test]
fn ordering_goes_by_variant_and_then_by_data() {
    assert!(field("z", true) < SegmentBuf::index(0));
    assert!(SegmentBuf::index(usize::MAX) < SegmentBuf::coalesce(vec![]));
    assert!(field("a", true) < field("b", false));
    assert!(field("a", false) < field("a", true));
    assert!(SegmentBuf::index(1) < SegmentBuf::index(2));
    assert!(
        SegmentBuf::coalesce(vec![SegmentBuf::index(1)])
            < SegmentBuf::coalesce(vec![SegmentBuf::index(1), SegmentBuf::index(0)])
    );
}

#[test]
fn segments_deduplicate_in_an_ordered_set() {
    let mut set = BTreeSet::new();
    set.insert(field("a", false));
    set.insert(SegmentBuf::index(1));
    set.insert(field("a", false));
    set.insert(field("a", true));
    set.insert(SegmentBuf::index(1));
    assert_eq!(set.len(), 3);
    let in_order: Vec<SegmentBuf> = set.into_iter().collect();
    assert_eq!(in_order, vec![field("a", false), field("a", true), SegmentBuf::index(1)]);
}

fn assorted() -> Vec<SegmentBuf> {
    vec![
        field("", false),
        field("", true),
        field("a", false),
        field("a", true),
        field("ab", false),
        field("b", false),
        field("z", false),
        field("é", false),
        field("\u{ffff}", false),
        field("\u{10000}", false),
        SegmentBuf::index(0),
        SegmentBuf::index(1),
        SegmentBuf::index(usize::MAX),
        SegmentBuf::coalesce(vec![]),
        SegmentBuf::coalesce(vec![field("a", false)]),
        SegmentBuf::coalesce(vec![field("a", false), SegmentBuf::index(0)]),
        SegmentBuf::coalesce(vec![field("b", false)]),
        SegmentBuf::coalesce(vec![SegmentBuf::index(0)]),
        SegmentBuf::coalesce(vec![SegmentBuf::coalesce(vec![])]),
        SegmentBuf::coalesce(vec![SegmentBuf::coalesce(vec![]), field("a", false)]),
    ]
}

#[test]
fn assorted_segments_are_listed_in_ascending_order() {
    let segments = assorted();
    for pair in segments.windows(2) {
        assert!(pair[0] < pair[1], "{:?} comes before {:?}", pair[0], pair[1]);
        assert_eq!(pair[0].order(&pair[1]), Order::Less);
        assert_eq!(pair[1].order(&pair[0]), Order::Greater);
    }
}

#[test]
fn order_agrees_with_the_total_order_on_every_pair() {
    let segments = assorted();
    for (i, left) in segments.iter().enumerate() {
        for (j, right) in segments.iter().enumerate() {
            let expected = i.cmp(&j);
            assert_eq!(left.cmp(right), expected, "{:?} against {:?}", left, right);
            assert_eq!(left.partial_cmp(right), Some(expected), "{:?} against {:?}", left, right);
            let order = match left.order(right) {
                Order::Less => Ordering::Less,
                Order::Equal => Ordering::Equal,
                Order::Greater => Ordering::Greater,
            };
            assert_eq!(order, expected, "{:?} against {:?}", left, right);
            assert_eq!(left == right, expected == Ordering::Equal);
            assert_eq!(left < right, expected == Ordering::Less);
            assert_eq!(left >= right, expected != Ordering::Less);
        }
    }
}

#[test]
fn texts_are_ordered_by_code_point() {
    assert_eq!(order_texts("", ""), Order::Equal);
    assert_eq!(order_texts("", "a"), Order::Less);
    assert_eq!(order_texts("a", ""), Order::Greater);
    assert_eq!(order_texts("abc", "abc"), Order::Equal);
    assert_eq!(order_texts("abc", "abd"), Order::Less);
    assert_eq!(order_texts("abd", "abc"), Order::Greater);
    assert_eq!(order_texts("ab", "abc"), Order::Less);
    assert_eq!(order_texts("Z", "a"), Order::Less);
    assert_eq!(order_texts("z", "é"), Order::Less);
    assert_eq!(order_texts("\u{ffff}", "\u{10000}"), Order::Less);
}

#[test]
fn text_order_is_the_order_of_strings() {
    let texts = ["", "a", "ab", "b", "Z", "é", "e\u{301}", "\u{7f}", "\u{80}", "\u{7ff}", "\u{800}", "\u{ffff}", "\u{10000}", "日本"];
    for left in texts {
        for right in texts {
            let expected = match left.cmp(right) {
                Ordering::Less => Order::Less,
                Ordering::Equal => Order::Equal,
                Ordering::Greater => Order::Greater,
            };
            assert_eq!(order_texts(left, right), expected, "{:?} against {:?}", left, right);
        }
    }
}

#[test]
fn borrowed_form_renders_like_the_owned_form() {
    for segment in assorted() {
        assert_eq!(segment.as_segment().to_string(), segment.to_string());
    }
    assert_eq!(Segment::field("a b", true).to_string(), "\"a b\"");
    assert_eq!(
        Segment::coalesce(vec![Segment::index(1), Segment::field("x", false)]).to_string(),
        "1 | x"
    );
}

#[test]
fn borrowed_clone_is_equal_to_its_source() {
    for segment in assorted() {
        let borrowed = segment.as_segment();
        assert_eq!(borrowed.clone(), borrowed);
    }
}

#[test]
fn borrowed_forms_are_ordered_like_the_owned_forms() {
    let segments = assorted();
    for left in &segments {
        for right in &segments {
            let expected = left.cmp(right);
            assert_eq!(left.as_segment().cmp(&right.as_segment()), expected);
            assert_eq!(left.as_segment().partial_cmp(&right.as_segment()), Some(expected));
            assert_eq!(left.as_segment() == right.as_segment(), expected == Ordering::Equal);
            assert_eq!(left.as_segment().order(&right.as_segment()), left.order(right));
        }
    }
}

#[test]
fn segments_serve_as_map_keys() {
    let mut seen: HashMap<SegmentBuf, usize> = HashMap::new();
    for segment in assorted().into_iter().chain(assorted()) {
        *seen.entry(segment).or_insert(0) += 1;
    }
    assert_eq!(seen.len(), assorted().len());
    assert!(seen.values().all(|count| *count == 2));
    assert_eq!(seen.get(&field("a", true)), Some(&2));
    assert_eq!(seen.get(&field("missing", true)), None);
}
