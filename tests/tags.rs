use better_any::{adjust_id, typeid_of, Container, Decl, Scope, ShapeTag, TypeTerm};

fn plain(name: &str) -> TypeTerm {
    TypeTerm::Named { decl: Decl::new(name, false, vec![]), scope: Scope::Unlimited, args: vec![] }
}

fn wrapper(name: &str, scope: Scope, arg: TypeTerm) -> TypeTerm {
    TypeTerm::Named { decl: Decl::new(name, true, vec![false]), scope, args: vec![arg] }
}

fn borrow_i32(scope: Scope) -> TypeTerm {
    TypeTerm::Borrow { scope, exclusive: false, target: Box::new(plain("i32")) }
}

#[test]
fn wrapper_over_borrows_of_different_scopes_shares_a_tag() {
    let a = wrapper("Wrapper", Scope::Region(1), borrow_i32(Scope::Region(1)));
    let b = wrapper("Wrapper", Scope::Region(2), borrow_i32(Scope::Region(2)));
    assert_eq!(typeid_of(&a), typeid_of(&b));
}

#[test]
fn wrapper_over_different_shapes_differs() {
    let a = wrapper("Wrapper", Scope::Region(1), plain("A"));
    let b = wrapper("Wrapper", Scope::Region(1), plain("B"));
    assert_ne!(typeid_of(&a), typeid_of(&b));
    let c = wrapper("Wrapper", Scope::Region(1), TypeTerm::Borrow {
        scope: Scope::Region(1),
        exclusive: true,
        target: Box::new(plain("i32")),
    });
    assert_ne!(typeid_of(&c), typeid_of(&wrapper("Wrapper", Scope::Region(1), borrow_i32(Scope::Region(1)))));
}

#[test]
fn nominally_distinct_declarations_never_share_a_tag() {
    let a = wrapper("First", Scope::Region(1), plain("A"));
    let b = wrapper("Second", Scope::Region(1), plain("A"));
    assert_ne!(typeid_of(&a), typeid_of(&b));

    let pinned = TypeTerm::Named {
        decl: Decl::new("First", true, vec![true]),
        scope: Scope::Region(1),
        args: vec![plain("A")],
    };
    assert_ne!(typeid_of(&a), typeid_of(&pinned));
    assert_ne!(typeid_of(&plain("A")), typeid_of(&plain("B")));
}

#[test]
fn scope_is_erased_but_shape_is_kept() {
    let s2 = |s| TypeTerm::Named { decl: Decl::new("S2", true, vec![]), scope: s, args: vec![] };
    assert_eq!(typeid_of(&s2(Scope::Region(4))), typeid_of(&s2(Scope::Unlimited)));
    assert_eq!(typeid_of(&s2(Scope::Region(4))), ShapeTag::host(&s2(Scope::Region(5))));
    assert!(s2(Scope::Region(4)).is_bound_at(Scope::Region(4)));
    assert!(!s2(Scope::Region(4)).is_bound_at(Scope::Region(5)));
    assert!(s2(Scope::Region(4)).erased().same_as(&s2(Scope::Unlimited)));
}

#[test]
fn adjusted_tag_differs_from_every_static_tag() {
    assert_ne!(adjust_id(&plain("S1")), typeid_of(&plain("S1")));
    assert_ne!(adjust_id(&plain("S1")), ShapeTag::host(&plain("S1")));
    assert_eq!(adjust_id(&plain("S1")), adjust_id(&plain("S1")));
}

#[test]
fn containers_carry_the_identity_of_their_contents() {
    let r = Scope::Region(6);
    let s2 = |s| TypeTerm::Named { decl: Decl::new("S2", true, vec![]), scope: s, args: vec![] };
    let boxed = Container::Box.of(vec![s2(r)]);
    assert!(boxed.is_bound_at(r));
    assert!(!boxed.is_bound_at(Scope::Region(7)));
    assert_eq!(typeid_of(&boxed), typeid_of(&Container::Box.of(vec![s2(Scope::Unlimited)])));
    assert_ne!(typeid_of(&boxed), typeid_of(&Container::Rc.of(vec![s2(r)])));
    let result = Container::Result.of(vec![plain("A"), plain("B")]);
    assert_ne!(typeid_of(&result), typeid_of(&Container::Result.of(vec![plain("B"), plain("A")])));
    assert!(result.is_bound_at(r));
}
