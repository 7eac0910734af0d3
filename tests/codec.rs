use avmnif::atom_table::AtomIndex;
use avmnif::term::{CodecError, MockHeap, ResourceRef, Term, TermValue};

fn sample() -> TermValue {
    TermValue::tuple(vec![
        TermValue::integer(-5),
        TermValue::Atom(AtomIndex(3)),
        TermValue::list(vec![TermValue::integer(1), TermValue::Nil, TermValue::list(vec![])]),
        TermValue::Binary(vec![0, 7, 255]),
        TermValue::Float(0x4009_21FB_5444_2D18),
        TermValue::Resource(ResourceRef { type_id: 2, handle: 41 }),
        TermValue::tuple(vec![]),
        TermValue::Invalid,
    ])
}

fn same(a: &TermValue, b: &TermValue) -> bool {
    format!("{:?}", a) == format!("{:?}", b)
}

#[test]
fn round_trip_nested_value() {
    let mut heap = MockHeap::new();
    let v = sample();
    let t = Term::from_value(sample(), &mut heap).unwrap();
    let back = t.to_value(&heap).unwrap();
    assert!(same(&v, &back));
}

#[test]
fn round_trip_after_other_terms() {
    let mut heap = MockHeap::new();
    let first = Term::from_value(TermValue::integer(7), &mut heap).unwrap();
    let second = Term::from_value(sample(), &mut heap).unwrap();
    let _third = Term::from_value(TermValue::Nil, &mut heap).unwrap();
    assert_eq!(first, Term(0));
    assert_eq!(second, Term(2));
    assert_eq!(first.to_int(&heap), Ok(7));
    assert!(same(&second.to_value(&heap).unwrap(), &sample()));
}

#[test]
fn small_int_bounds() {
    let mut heap = MockHeap::new();
    let hi = Term::from_value(TermValue::integer(134_217_727), &mut heap).unwrap();
    let lo = Term::from_value(TermValue::integer(-134_217_728), &mut heap).unwrap();
    assert_eq!(hi.to_int(&heap), Ok(134_217_727));
    assert_eq!(lo.to_int(&heap), Ok(-134_217_728));
    let used = heap.used();
    assert!(matches!(Term::from_value(TermValue::integer(134_217_728), &mut heap), Err(CodecError::Overflow)));
    assert!(matches!(Term::from_value(TermValue::integer(-134_217_729), &mut heap), Err(CodecError::Overflow)));
    assert_eq!(heap.used(), used);
}

#[test]
fn overflow_inside_a_tuple() {
    let mut heap = MockHeap::new();
    let v = TermValue::tuple(vec![TermValue::integer(1), TermValue::integer(i32::MAX)]);
    assert!(matches!(Term::from_value(v, &mut heap), Err(CodecError::Overflow)));
    assert_eq!(heap.used(), 0);
}

#[test]
fn arena_exhausted() {
    let mut heap = MockHeap::with_capacity(3);
    assert!(matches!(
        Term::from_value(TermValue::Binary(vec![1, 2]), &mut heap),
        Err(CodecError::ArenaExhausted)
    ));
    assert_eq!(heap.used(), 0);
    let t = Term::from_value(TermValue::integer(9), &mut heap).unwrap();
    assert_eq!(t.to_int(&heap), Ok(9));
    assert!(matches!(Term::from_value(TermValue::integer(1), &mut heap), Err(CodecError::ArenaExhausted)));
}

#[test]
fn encoded_words() {
    let mut heap = MockHeap::new();
    Term::from_value(TermValue::tuple(vec![TermValue::integer(-1), TermValue::Nil]), &mut heap).unwrap();
    assert_eq!(heap.words, vec![3, 2, 1, 0x7FFF_FFFF, 0]);
}

#[test]
fn corrupt_and_mismatch() {
    let mut heap = MockHeap::new();
    heap.words = vec![9];
    assert!(matches!(Term(0).to_value(&heap), Err(CodecError::Corrupt)));
    assert!(matches!(Term(5).to_value(&heap), Err(CodecError::Corrupt)));
    heap.words = vec![3, 2, 0];
    assert!(matches!(Term(0).to_value(&heap), Err(CodecError::Corrupt)));
    heap.words = vec![5, 1, 300];
    assert!(matches!(Term(0).to_value(&heap), Err(CodecError::Corrupt)));
    heap.words = vec![0];
    assert_eq!(Term(0).to_int(&heap), Err(CodecError::TypeMismatch));
}

#[test]
fn empty_list_and_tuple_are_not_nil() {
    let mut heap = MockHeap::new();
    let l = Term::from_value(TermValue::list(vec![]), &mut heap).unwrap();
    let t = Term::from_value(TermValue::tuple(vec![]), &mut heap).unwrap();
    let n = Term::from_value(TermValue::Nil, &mut heap).unwrap();
    assert!(matches!(l.to_value(&heap).unwrap(), TermValue::List(ref v) if v.is_empty()));
    assert!(matches!(t.to_value(&heap).unwrap(), TermValue::Tuple(ref v) if v.is_empty()));
    assert!(matches!(n.to_value(&heap).unwrap(), TermValue::Nil));
}

#[test]
fn helpers() {
    let v = TermValue::list(vec![TermValue::integer(1), TermValue::integer(2)]);
    let items = v.list_to_vec();
    assert_eq!(items.len(), 2);
    assert_eq!(items[1].as_int(), Some(2));
    assert_eq!(TermValue::Atom(AtomIndex(4)).as_atom(), Some(AtomIndex(4)));
    assert_eq!(TermValue::Nil.as_int(), None);
    assert!(same(&sample().deep_clone(), &sample()));
    assert!(TermValue::integer(3).list_to_vec().is_empty());
}
