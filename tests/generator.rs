use better_any::{
    create_impl, declaration, impl_tid, is_static, my_derive, typeid_of, Bound, DynTid, GenError,
    GenericParam, Generics, ImplHeader, ParamKind, Predicate, Scope, StaticType, Substitute,
    TidExt, TidImpl, TypeTerm,
};

fn lifetime(name: &str) -> GenericParam {
    GenericParam { kind: ParamKind::Lifetime, name: name.to_string(), bounds: vec![], ty: None, default: None }
}

fn type_param(name: &str, bounds: Vec<Bound>, default: Option<&str>) -> GenericParam {
    GenericParam {
        kind: ParamKind::Type,
        name: name.to_string(),
        bounds,
        ty: None,
        default: default.map(|d| d.to_string()),
    }
}

fn static_bound() -> Bound {
    Bound { lifetime: true, text: "static".to_string() }
}

fn trait_bound(text: &str) -> Bound {
    Bound { lifetime: false, text: text.to_string() }
}

fn marker(imp: &TidImpl) -> (&str, Vec<String>) {
    match &imp.static_type {
        StaticType::Marker { name, args } => (
            name.as_str(),
            args.iter()
                .map(|a| match a {
                    Substitute::Pinned(n) => format!("{}", n),
                    Substitute::Static(n) => format!("{}::Static", n),
                    Substitute::Const(n) => format!("const {}", n),
                })
                .collect(),
        ),
        StaticType::SelfType => panic!("no marker"),
    }
}

fn bounds_required(imp: &TidImpl) -> Vec<String> {
    imp.predicates
        .iter()
        .filter_map(|p| match p {
            Predicate::TidAble { param, lifetime } => Some(format!("{}: TidAble<'{}>", param, lifetime)),
            Predicate::Written(_) => None,
        })
        .collect()
}

#[test]
fn static_bound_is_recognised() {
    assert!(is_static(&static_bound()));
    assert!(!is_static(&Bound { lifetime: true, text: "a".to_string() }));
    assert!(!is_static(&trait_bound("static")));
}

#[test]
fn type_without_generics_is_its_own_substitute() {
    let g = Generics { params: vec![], predicates: vec![] };
    let imp = my_derive("S1", &g).unwrap();
    assert_eq!(imp.self_type, "S1");
    assert_eq!(imp.lifetime, "a");
    assert_eq!(imp.params.len(), 1);
    assert_eq!(imp.params[0].kind, ParamKind::Lifetime);
    assert!(matches!(imp.static_type, StaticType::SelfType));
    assert!(imp.predicates.is_empty());
}

#[test]
fn scope_bound_parameter_gets_its_substitute() {
    // struct S3<'a, T>(&'a T);
    let g = Generics { params: vec![lifetime("a"), type_param("T", vec![], None)], predicates: vec![] };
    let imp = my_derive("S3", &g).unwrap();
    assert_eq!(imp.self_type, "S3<'a, T>");
    assert_eq!(imp.lifetime, "a");
    assert_eq!(imp.params.len(), 2);
    let (name, args) = marker(&imp);
    assert_eq!(name, "__S3aT_should_never_exist");
    assert_eq!(args, vec!["T::Static".to_string()]);
    assert_eq!(bounds_required(&imp), vec!["T: TidAble<'a>".to_string()]);
}

#[test]
fn pinned_parameter_stays_itself() {
    // struct S8<T, X: 'static>(T, X);
    let g = Generics {
        params: vec![type_param("T", vec![], None), type_param("X", vec![static_bound()], None)],
        predicates: vec!["T: Clone".to_string()],
    };
    let imp = my_derive("S8", &g).unwrap();
    assert_eq!(imp.lifetime, "a");
    assert_eq!(imp.params.len(), 3);
    assert_eq!(imp.params[0].kind, ParamKind::Lifetime);
    assert_eq!(imp.params[0].name, "a");
    let (name, args) = marker(&imp);
    assert_eq!(name, "__S8TX_should_never_exist");
    assert_eq!(args, vec!["T::Static".to_string(), "X".to_string()]);
    assert_eq!(bounds_required(&imp), vec!["T: TidAble<'a>".to_string()]);
    assert!(matches!(&imp.predicates[0], Predicate::Written(w) if w == "T: Clone"));
}

#[test]
fn defaults_are_dropped() {
    // struct S5<'a, T: Trait = S1>(&'a T);
    let g = Generics {
        params: vec![lifetime("x"), type_param("T", vec![trait_bound("Trait")], Some("S1"))],
        predicates: vec![],
    };
    let imp = my_derive("S5", &g).unwrap();
    assert_eq!(imp.lifetime, "x");
    assert_eq!(imp.params.len(), 2);
    assert_eq!(imp.params[1].default, None);
    assert_eq!(imp.params[1].bounds.len(), 1);
    assert_eq!(bounds_required(&imp), vec!["T: TidAble<'x>".to_string()]);
}

#[test]
fn const_parameters_pass_through() {
    let n = GenericParam {
        kind: ParamKind::Const,
        name: "N".to_string(),
        bounds: vec![],
        ty: Some("usize".to_string()),
        default: Some("3".to_string()),
    };
    let g = Generics { params: vec![n, type_param("T", vec![], None)], predicates: vec![] };
    let imp = create_impl(&g, "Arr < N , T >", None).unwrap();
    let (name, args) = marker(&imp);
    assert_eq!(name, "__ArrNT_should_never_exist");
    assert_eq!(args, vec!["T::Static".to_string(), "const N".to_string()]);
    assert_eq!(imp.params[2].default, None);
}

#[test]
fn two_scopes_are_refused() {
    let g = Generics { params: vec![lifetime("a"), lifetime("b")], predicates: vec![] };
    assert_eq!(my_derive("Two", &g).unwrap_err(), GenError::MultipleScopes);
}

#[test]
fn hand_written_impl_of_the_capability() {
    let header = ImplHeader {
        is_default: false,
        is_unsafe: false,
        trait_path: Some(vec!["better_any".to_string(), "TidAble".to_string()]),
        generics: Generics { params: vec![lifetime("a")], predicates: vec![] },
        self_type: "dyn Trait2 < 'a > + 'a".to_string(),
    };
    let imp = impl_tid(&header).unwrap();
    assert_eq!(imp.qualifier, Some("better_any".to_string()));
    let (name, args) = marker(&imp);
    assert_eq!(name, "__dynTrait2aa_should_never_exist");
    assert!(args.is_empty());
}

#[test]
fn hand_written_impl_of_another_trait_is_refused() {
    let header = ImplHeader {
        is_default: false,
        is_unsafe: false,
        trait_path: Some(vec!["Clone".to_string()]),
        generics: Generics { params: vec![], predicates: vec![] },
        self_type: "S".to_string(),
    };
    assert_eq!(impl_tid(&header).unwrap_err(), GenError::WrongTrait);

    let header = ImplHeader { trait_path: Some(vec!["Tid".to_string()]), is_unsafe: true, ..header };
    assert_eq!(impl_tid(&header).unwrap_err(), GenError::NotATraitImpl);

    let header = ImplHeader { trait_path: None, is_unsafe: false, ..header };
    assert_eq!(impl_tid(&header).unwrap_err(), GenError::NotATraitImpl);

    let header = ImplHeader { trait_path: Some(vec!["Tid".to_string()]), ..header };
    let imp = impl_tid(&header).unwrap();
    assert_eq!(imp.qualifier, None);
    assert!(matches!(imp.static_type, StaticType::SelfType));
}

#[test]
fn declaration_follows_the_signature() {
    // struct S8<T, X: 'static>(T, X);
    let g = Generics {
        params: vec![type_param("T", vec![], None), type_param("X", vec![static_bound()], None)],
        predicates: vec![],
    };
    let d = declaration("S8", &g).unwrap();
    assert_eq!(d.name, "S8");
    assert!(!d.scoped);
    assert_eq!(d.pinned, vec![false, true]);

    let s2 = |s| TypeTerm::Named {
        decl: declaration("S2", &Generics { params: vec![lifetime("a")], predicates: vec![] }).unwrap(),
        scope: s,
        args: vec![],
    };
    let usize_term = TypeTerm::Named {
        decl: declaration("usize", &Generics { params: vec![], predicates: vec![] }).unwrap(),
        scope: Scope::Unlimited,
        args: vec![],
    };
    let region = Scope::Region(11);
    let t = TypeTerm::Named { decl: d.clone(), scope: Scope::Unlimited, args: vec![s2(region), usize_term.clone()] };
    assert!(t.is_bound_at(region));
    let h = DynTid::new(t.clone(), region, (1u8, 2usize));
    assert_eq!(h.downcast_ref(&t), Some(&(1u8, 2usize)));

    let elsewhere = TypeTerm::Named { decl: d, scope: Scope::Unlimited, args: vec![s2(Scope::Region(12)), usize_term] };
    assert_eq!(typeid_of(&t), typeid_of(&elsewhere));

    let two = Generics { params: vec![lifetime("a"), lifetime("b")], predicates: vec![] };
    assert_eq!(declaration("Two", &two).unwrap_err(), GenError::MultipleScopes);
}

#[test]
fn source_of_a_type_without_generics() {
    let imp = my_derive("S1", &Generics { params: vec![], predicates: vec![] }).unwrap();
    assert_eq!(imp.to_source(), "unsafe impl<'a> ::better_any::TidAble<'a> for S1 { type Static = S1; }");
}

#[test]
fn source_of_a_generic_type() {
    let g = Generics { params: vec![lifetime("a"), type_param("T", vec![], None)], predicates: vec![] };
    let imp = my_derive("S3", &g).unwrap();
    assert_eq!(
        imp.to_source(),
        "unsafe impl<'a, T> ::better_any::TidAble<'a> for S3<'a, T> where T: ::better_any::TidAble<'a> \
         { type Static = __S3aT_should_never_exist<T::Static>; } \
         #[allow(warnings)] #[doc(hidden)] pub struct __S3aT_should_never_exist<T: ?Sized>(core::marker::PhantomData<T>);"
    );
}

#[test]
fn source_keeps_bounds_and_pinned_parameters() {
    let n = GenericParam {
        kind: ParamKind::Const,
        name: "N".to_string(),
        bounds: vec![],
        ty: Some("usize".to_string()),
        default: None,
    };
    let g = Generics {
        params: vec![type_param("X", vec![static_bound(), trait_bound("Clone")], Some("u8")), n],
        predicates: vec!["X: Copy".to_string()],
    };
    let header = ImplHeader {
        is_default: false,
        is_unsafe: false,
        trait_path: Some(vec!["crate_x".to_string(), "Tid".to_string()]),
        generics: g,
        self_type: "Pin<X, N>".to_string(),
    };
    let imp = impl_tid(&header).unwrap();
    assert_eq!(
        imp.to_source(),
        "unsafe impl<'a, X: 'static + Clone, const N: usize> crate_x::better_any::TidAble<'a> for Pin<X, N> \
         where X: Copy { type Static = __PinXN_should_never_exist<X, N>; } \
         #[allow(warnings)] #[doc(hidden)] pub struct __PinXN_should_never_exist<X: ?Sized, const N: usize>(core::marker::PhantomData<X>);"
    );
}
