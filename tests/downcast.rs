use better_any::{Decl, DynAny, DynTid, Scope, Tid, TidExt, TypeTerm};
use std::borrow::Cow;

// struct S1(usize);
fn s1() -> TypeTerm {
    TypeTerm::Named { decl: Decl::new("S1", false, vec![]), scope: Scope::Unlimited, args: vec![] }
}

// struct S2<'a>(&'a str);
fn s2(scope: Scope) -> TypeTerm {
    TypeTerm::Named { decl: Decl::new("S2", true, vec![]), scope, args: vec![] }
}

enum Field<'a> {
    Number(usize),
    Text(&'a str),
}

#[test]
fn test_static() {
    let a = DynTid::new(s1(), Scope::Unlimited, 5usize);
    assert_eq!(*a.downcast_ref(&s1()).unwrap(), 5);

    let a = DynTid::from_any(DynAny::new(s1(), 5usize), Scope::Unlimited);
    assert_eq!(*a.downcast_any_ref(&s1()).unwrap(), 5);
}

#[test]
fn test_simple() {
    let _s7 = DynTid::new(s1(), Scope::Unlimited, 5usize);

    let s = String::from("test");
    let region = Scope::Region(1);
    let a = DynTid::new(s2(region), region, s.as_str());
    assert_eq!(*a.downcast_ref(&s2(region)).unwrap(), "test");
}

#[test]
fn test_downcast_trait_object() {
    let s = String::from("xx");
    let region = Scope::Region(7);
    let to = DynTid::new(s2(region), region, s.as_str());
    let downcasted = to.downcast_ref(&s2(region)).unwrap();
    assert_eq!(s.as_str(), *downcasted);
}

fn generic<'a>(x: DynTid<Field<'a>>) -> Cow<'a, str> {
    let scope = x.bound_scope();
    if let Some(Field::Number(n)) = x.downcast_ref(&s1()) {
        return Cow::Owned(n.to_string());
    }
    if let Some(Field::Text(t)) = x.downcast_ref(&s2(scope)) {
        return Cow::Borrowed(*t);
    }
    panic!("unsupported type")
}

#[test]
fn test_generic_context() {
    assert_eq!(generic(DynTid::new(s1(), Scope::Unlimited, Field::Number(5))).as_ref(), "5");
    assert_eq!(
        generic(DynTid::new(s2(Scope::Unlimited), Scope::Unlimited, Field::Text("x"))).as_ref(),
        "x"
    );
}

#[test]
fn reflexive_for_every_kind_of_type() {
    let region = Scope::Region(3);
    let wrapper = Decl::new("Wrapper", true, vec![false]);
    let terms = vec![
        s1(),
        s2(region),
        TypeTerm::Named { decl: wrapper, scope: region, args: vec![s2(region)] },
        TypeTerm::Borrow { scope: region, exclusive: false, target: Box::new(s1()) },
        TypeTerm::Object { name: String::from("Tid"), scope: region },
    ];
    for t in terms {
        let h = DynTid::new(t.clone(), region, 0u8);
        assert!(h.is(&t));
        assert!(h.downcast_ref(&t).is_some());
    }
}

#[test]
fn direct_downcast_to_another_type_fails() {
    let h = DynTid::new(s1(), Scope::Unlimited, 1u32);
    assert!(!h.is(&s2(Scope::Unlimited)));
    assert!(h.downcast_ref(&s2(Scope::Unlimited)).is_none());
    let h = h.downcast_move(&s2(Scope::Unlimited)).err().unwrap();
    assert_eq!(*h.downcast_ref(&s1()).unwrap(), 1);
}

#[test]
fn downcast_keeps_the_handle_scope() {
    let region = Scope::Region(9);
    let text = String::from("scoped");
    let h = DynTid::new(s2(region), region, text.as_str());
    let found = h.downcast_ref(&s2(region)).unwrap();
    assert_eq!(*found, "scoped");
    assert_eq!(h.bound_scope(), region);
}

#[test]
fn downcast_mut_changes_the_value_in_place() {
    let mut h = DynTid::new(s1(), Scope::Unlimited, 10i64);
    *h.downcast_mut(&s1()).unwrap() += 5;
    assert_eq!(*h.downcast_ref(&s1()).unwrap(), 15);
    assert!(h.downcast_mut(&s2(Scope::Unlimited)).is_none());
    assert_eq!(h.downcast_move(&s1()).ok(), Some(15));
}

#[test]
fn bridged_value_is_only_found_by_the_bridge() {
    let a = DynAny::new(s1(), 42u16);
    let mut h = DynTid::from_any(a, Scope::Region(2));
    assert!(h.downcast_ref(&s1()).is_none());
    assert!(!h.is(&s1()));
    assert_eq!(*h.downcast_any_ref(&s1()).unwrap(), 42);
    *h.downcast_any_mut(&s1()).unwrap() = 43;
    assert_eq!(*h.downcast_any_ref(&s1()).unwrap(), 43);
    assert!(h.downcast_any_mut(&s2(Scope::Unlimited)).is_none());
    assert!(h.downcast_ref(&s1()).is_none());
    assert_eq!(h.bound_scope(), Scope::Region(2));
    assert!(h.downcast_any_ref(&s2(Scope::Unlimited)).is_none());

    let direct = DynTid::new(s1(), Scope::Region(2), 42u16);
    assert!(direct.downcast_any_ref(&s1()).is_none());
    assert!(direct.downcast_ref(&s1()).is_some());
}

#[test]
fn bridged_box_returns_to_the_host() {
    let h = Box::new(DynTid::from_any(DynAny::new(s1(), 8u8), Scope::Unlimited));
    let back = DynTid::downcast_any_box(h, &s2(Scope::Unlimited));
    let h = back.err().unwrap();
    let host = DynTid::downcast_any_box(h, &s1()).ok().unwrap();
    assert!(better_any::AnyExt::downcast_ref(&*host, &s1()).is_some());
}

#[test]
fn unlimited_handle_leaves_for_the_host() {
    let h = DynTid::new(s1(), Scope::Unlimited, 'q');
    let a = h.into_any();
    let a = better_any::AnyExt::downcast_move(a, &s2(Scope::Unlimited)).err().unwrap();
    assert_eq!(better_any::AnyExt::downcast_move(a, &s1()).ok(), Some('q'));
}
