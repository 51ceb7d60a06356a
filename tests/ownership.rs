use better_any::{AnyExt, Decl, DynAny, DynTid, Scope, TidExt, TypeTerm};
use std::rc::Rc;
use std::sync::Arc;

fn named(name: &str) -> TypeTerm {
    TypeTerm::Named { decl: Decl::new(name, false, vec![]), scope: Scope::Unlimited, args: vec![] }
}

#[test]
fn rc_downcast_keeps_the_pointer() {
    let h = Rc::new(DynTid::new(named("A"), Scope::Unlimited, vec![1u8, 2, 3]));
    let keep = h.clone();
    let ok = DynTid::downcast_rc(h, &named("A")).ok().unwrap();
    assert!(Rc::ptr_eq(&ok, &keep));

    let err = DynTid::downcast_rc(ok, &named("B")).err().unwrap();
    assert!(Rc::ptr_eq(&err, &keep));
    assert_eq!(err.downcast_ref(&named("A")).unwrap(), &vec![1u8, 2, 3]);
}

#[test]
fn arc_downcast_keeps_the_pointer() {
    let h = Arc::new(DynTid::new(named("A"), Scope::Unlimited, 7u64));
    let keep = h.clone();
    let ok = DynTid::downcast_arc(h, &named("A")).ok().unwrap();
    assert!(Arc::ptr_eq(&ok, &keep));
    let err = DynTid::downcast_arc(ok, &named("B")).err().unwrap();
    assert!(Arc::ptr_eq(&err, &keep));
}

#[test]
fn box_downcast_keeps_the_allocation() {
    let h = Box::new(DynTid::new(named("A"), Scope::Unlimited, String::from("boxed")));
    let before = format!("{:p}", &*h);
    let err = DynTid::downcast_box(h, &named("B")).err().unwrap();
    assert_eq!(format!("{:p}", &*err), before);
    let ok = DynTid::downcast_box(err, &named("A")).ok().unwrap();
    assert_eq!(format!("{:p}", &*ok), before);
    assert_eq!(ok.downcast_ref(&named("A")).unwrap(), "boxed");
}

#[test]
fn host_downcasts_on_every_owner() {
    let a = DynAny::new(named("i32"), 5i32);
    assert_eq!(AnyExt::downcast_ref(&a, &named("i32")), Some(&5));
    assert_eq!(AnyExt::downcast_ref(&a, &named("usize")), None);

    let mut a = a;
    *AnyExt::downcast_mut(&mut a, &named("i32")).unwrap() = 6;
    assert!(AnyExt::downcast_mut(&mut a, &named("usize")).is_none());

    let rc = Rc::new(a);
    let keep = rc.clone();
    let rc = DynAny::downcast_rc(rc, &named("usize")).err().unwrap();
    assert!(Rc::ptr_eq(&rc, &keep));
    let rc = DynAny::downcast_rc(rc, &named("i32")).ok().unwrap();
    assert!(Rc::ptr_eq(&rc, &keep));

    let arc = Arc::new(DynAny::new(named("i32"), 1i32));
    assert!(DynAny::downcast_arc(arc, &named("i32")).is_ok());
    let bx = Box::new(DynAny::new(named("i32"), 1i32));
    assert!(DynAny::downcast_box(bx, &named("u8")).is_err());
    let back = AnyExt::downcast_move(DynAny::new(named("i32"), 9i32), &named("u8")).err().unwrap();
    assert_eq!(AnyExt::downcast_ref(&back, &named("i32")), Some(&9));
    assert_eq!(AnyExt::downcast_move(back, &named("i32")).ok(), Some(9));
}
