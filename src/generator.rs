//! The code generator: from a type's generic signature to its identity implementation and
//! the declaration of its static substitute.
use vstd::prelude::*;
use crate::term::{Decl, DeclView};

verus! {

/// What kind of generic parameter a [`GenericParam`] is.
#[derive(Clone, Copy, PartialEq, Eq, Debug, Structural)]
pub enum ParamKind {
    Lifetime,
    Type,
    Const,
}

/// A bound written on a generic parameter: a lifetime, named without its leading quote, or
/// any other bound as source text.
#[derive(Debug)]
pub struct Bound {
    pub lifetime: bool,
    pub text: String,
}

pub struct BoundView {
    pub lifetime: bool,
    pub text: Seq<char>,
}

impl View for Bound {
    type V = BoundView;

    open spec fn view(&self) -> BoundView {
        BoundView { lifetime: self.lifetime, text: self.text@ }
    }
}

/// A generic parameter as declared: its kind and name (a lifetime without its quote), its
/// bounds, the type of a const parameter, and its default if one is written.
#[derive(Debug)]
pub struct GenericParam {
    pub kind: ParamKind,
    pub name: String,
    pub bounds: Vec<Bound>,
    pub ty: Option<String>,
    pub default: Option<String>,
}

pub struct ParamView {
    pub kind: ParamKind,
    pub name: Seq<char>,
    pub bounds: Seq<BoundView>,
    pub ty: Option<Seq<char>>,
    pub default: Option<Seq<char>>,
}

pub open spec fn opt_view(o: Option<String>) -> Option<Seq<char>> {
    match o {
        Some(s) => Some(s@),
        None => None,
    }
}

impl View for GenericParam {
    type V = ParamView;

    open spec fn view(&self) -> ParamView {
        ParamView {
            kind: self.kind,
            name: self.name@,
            bounds: self.bounds@.map_values(|b: Bound| b@),
            ty: opt_view(self.ty),
            default: opt_view(self.default),
        }
    }
}

pub open spec fn params_view(ps: Seq<GenericParam>) -> Seq<ParamView> {
    ps.map_values(|p: GenericParam| p@)
}

pub open spec fn predicates_view(ps: Seq<Predicate>) -> Seq<PredicateView> {
    ps.map_values(|p: Predicate| p@)
}

pub open spec fn substitutes_view(ss: Seq<Substitute>) -> Seq<SubstituteView> {
    ss.map_values(|a: Substitute| a@)
}

/// The generic signature of a declaration: its parameters in order and the predicates of
/// its `where` clause, as source text.
#[derive(Debug)]
pub struct Generics {
    pub params: Vec<GenericParam>,
    pub predicates: Vec<String>,
}

pub struct GenericsView {
    pub params: Seq<ParamView>,
    pub predicates: Seq<Seq<char>>,
}

impl View for Generics {
    type V = GenericsView;

    open spec fn view(&self) -> GenericsView {
        GenericsView {
            params: params_view(self.params@),
            predicates: self.predicates@.map_values(|s: String| s@),
        }
    }
}

/// A predicate of the generated implementation's `where` clause: one written on the
/// declaration, or the identity capability required of a scope-bound parameter.
#[derive(Debug)]
pub enum Predicate {
    Written(String),
    TidAble { param: String, lifetime: String },
}

pub enum PredicateView {
    Written(Seq<char>),
    TidAble { param: Seq<char>, lifetime: Seq<char> },
}

impl View for Predicate {
    type V = PredicateView;

    open spec fn view(&self) -> PredicateView {
        match self {
            Predicate::Written(s) => PredicateView::Written(s@),
            Predicate::TidAble { param, lifetime } => PredicateView::TidAble {
                param: param@,
                lifetime: lifetime@,
            },
        }
    }
}

/// What a parameter becomes in the static substitute: a pinned type parameter stays
/// itself, a scope-bound one becomes its own static substitute, a const one passes through.
#[derive(Debug)]
pub enum Substitute {
    Pinned(String),
    Static(String),
    Const(String),
}

pub enum SubstituteView {
    Pinned(Seq<char>),
    Static(Seq<char>),
    Const(Seq<char>),
}

impl View for Substitute {
    type V = SubstituteView;

    open spec fn view(&self) -> SubstituteView {
        match self {
            Substitute::Pinned(s) => SubstituteView::Pinned(s@),
            Substitute::Static(s) => SubstituteView::Static(s@),
            Substitute::Const(s) => SubstituteView::Const(s@),
        }
    }
}

/// The static substitute of the implementing type: the type itself, or a fresh marker
/// declared for it, instantiated with the substitutes of its parameters.
#[derive(Debug)]
pub enum StaticType {
    SelfType,
    Marker { name: String, args: Vec<Substitute> },
}

pub enum StaticTypeView {
    SelfType,
    Marker { name: Seq<char>, args: Seq<SubstituteView> },
}

impl View for StaticType {
    type V = StaticTypeView;

    open spec fn view(&self) -> StaticTypeView {
        match self {
            StaticType::SelfType => StaticTypeView::SelfType,
            StaticType::Marker { name, args } => StaticTypeView::Marker {
                name: name@,
                args: substitutes_view(args@),
            },
        }
    }
}

/// A generated identity implementation: the path qualifier of the capability, the scope
/// parameter, the implementation's generic parameters, the implementing type as source
/// text, its `where` clause, and its static substitute.
#[derive(Debug)]
pub struct TidImpl {
    pub qualifier: Option<String>,
    pub lifetime: String,
    pub params: Vec<GenericParam>,
    pub self_type: String,
    pub predicates: Vec<Predicate>,
    pub static_type: StaticType,
}

pub struct TidImplView {
    pub qualifier: Option<Seq<char>>,
    pub lifetime: Seq<char>,
    pub params: Seq<ParamView>,
    pub self_type: Seq<char>,
    pub predicates: Seq<PredicateView>,
    pub static_type: StaticTypeView,
}

impl View for TidImpl {
    type V = TidImplView;

    open spec fn view(&self) -> TidImplView {
        TidImplView {
            qualifier: opt_view(self.qualifier),
            lifetime: self.lifetime@,
            params: params_view(self.params@),
            self_type: self.self_type@,
            predicates: predicates_view(self.predicates@),
            static_type: self.static_type@,
        }
    }
}

/// The header of an implementation block written by hand: whether it is a default or an
/// unsafe implementation, the path of the implemented trait by segments (none for an
/// inherent block), its signature, and the implementing type as source text.
#[derive(Debug)]
pub struct ImplHeader {
    pub is_default: bool,
    pub is_unsafe: bool,
    pub trait_path: Option<Vec<String>>,
    pub generics: Generics,
    pub self_type: String,
}

pub open spec fn path_view(o: Option<Vec<String>>) -> Option<Seq<Seq<char>>> {
    match o {
        Some(v) => Some(v@.map_values(|s: String| s@)),
        None => None,
    }
}

/// Why a signature cannot be given an identity implementation.
#[derive(Clone, Copy, PartialEq, Eq, Debug, Structural)]
pub enum GenError {
    /// More than one validity-scope parameter.
    MultipleScopes,
    /// The implementation is not of the identity capability.
    WrongTrait,
    /// The item is not a plain, safe trait implementation.
    NotATraitImpl,
}

impl Clone for Bound {
    fn clone(&self) -> (r: Bound)
        ensures
            r@ == self@,
    {
        Bound { lifetime: self.lifetime, text: self.text.clone() }
    }
}

fn clone_opt(o: &Option<String>) -> (r: Option<String>)
    ensures
        opt_view(r) == opt_view(*o),
{
    match o {
        Some(s) => Some(s.clone()),
        None => None,
    }
}

fn clone_bounds(bs: &Vec<Bound>) -> (r: Vec<Bound>)
    ensures
        r@.map_values(|b: Bound| b@) == bs@.map_values(|b: Bound| b@),
{
    let mut out: Vec<Bound> = Vec::new();
    let mut i: usize = 0;
    while i < bs.len()
        invariant
            i <= bs@.len(),
            out@.len() == i,
            forall|j: int| 0 <= j < i ==> out@[j]@ == bs@[j]@,
        decreases bs@.len() - i,
    {
        out.push(bs[i].clone());
        i = i + 1;
    }
    assert(out@.map_values(|b: Bound| b@) =~= bs@.map_values(|b: Bound| b@));
    out
}

impl Clone for GenericParam {
    fn clone(&self) -> (r: GenericParam)
        ensures
            r@ == self@,
    {
        GenericParam {
            kind: self.kind,
            name: self.name.clone(),
            bounds: clone_bounds(&self.bounds),
            ty: clone_opt(&self.ty),
            default: clone_opt(&self.default),
        }
    }
}

/// A bound is the unlimited scope: the lifetime `'static`.
pub open spec fn is_static_bound(b: BoundView) -> bool {
    b.lifetime && b.text == "static"@
}

/// A parameter is pinned when one of its bounds is the unlimited scope.
pub open spec fn is_pinned_param(p: ParamView) -> bool {
    exists|i: int| 0 <= i < p.bounds.len() && is_static_bound(#[trigger] p.bounds[i])
}

/// The names of the lifetime parameters, in order.
pub open spec fn lifetime_names(ps: Seq<ParamView>) -> Seq<Seq<char>>
    decreases ps.len(),
{
    if ps.len() == 0 {
        seq![]
    } else {
        let rest = lifetime_names(ps.drop_last());
        if ps.last().kind == ParamKind::Lifetime {
            rest.push(ps.last().name)
        } else {
            rest
        }
    }
}

/// The scope parameter of the generated implementation: the declared lifetime, or `'a`.
pub open spec fn scope_name(ps: Seq<ParamView>) -> Seq<char> {
    if lifetime_names(ps).len() > 0 {
        lifetime_names(ps)[0]
    } else {
        "a"@
    }
}

/// The substitutes of the type parameters, in order.
pub open spec fn type_substitutes(ps: Seq<ParamView>) -> Seq<SubstituteView>
    decreases ps.len(),
{
    if ps.len() == 0 {
        seq![]
    } else {
        let rest = type_substitutes(ps.drop_last());
        let p = ps.last();
        if p.kind == ParamKind::Type {
            rest.push(
                if is_pinned_param(p) {
                    SubstituteView::Pinned(p.name)
                } else {
                    SubstituteView::Static(p.name)
                },
            )
        } else {
            rest
        }
    }
}

/// The const parameters, in order, passed through.
pub open spec fn const_substitutes(ps: Seq<ParamView>) -> Seq<SubstituteView>
    decreases ps.len(),
{
    if ps.len() == 0 {
        seq![]
    } else {
        let rest = const_substitutes(ps.drop_last());
        if ps.last().kind == ParamKind::Const {
            rest.push(SubstituteView::Const(ps.last().name))
        } else {
            rest
        }
    }
}

/// The identity capability for `lt` required of each scope-bound type parameter, in order.
pub open spec fn required_predicates(ps: Seq<ParamView>, lt: Seq<char>) -> Seq<PredicateView>
    decreases ps.len(),
{
    if ps.len() == 0 {
        seq![]
    } else {
        let rest = required_predicates(ps.drop_last(), lt);
        let p = ps.last();
        if p.kind == ParamKind::Type && !is_pinned_param(p) {
            rest.push(PredicateView::TidAble { param: p.name, lifetime: lt })
        } else {
            rest
        }
    }
}

/// A parameter with its default removed.
pub open spec fn without_default(p: ParamView) -> ParamView {
    ParamView { default: None, ..p }
}

/// A bare lifetime parameter.
pub open spec fn lifetime_param(name: Seq<char>) -> ParamView {
    ParamView { kind: ParamKind::Lifetime, name, bounds: seq![], ty: None, default: None }
}

/// An ASCII letter or digit.
pub open spec fn is_alnum(c: char) -> bool {
    ('0' <= c && c <= '9') || ('a' <= c && c <= 'z') || ('A' <= c && c <= 'Z')
}

/// The ASCII letters and digits of `s`, in order.
pub open spec fn alnum_only(s: Seq<char>) -> Seq<char>
    decreases s.len(),
{
    if s.len() == 0 {
        seq![]
    } else {
        let rest = alnum_only(s.drop_last());
        if is_alnum(s.last()) {
            rest.push(s.last())
        } else {
            rest
        }
    }
}

/// The name of the marker generated for the type written `ty`.
pub open spec fn marker_name(ty: Seq<char>) -> Seq<char> {
    "__"@ + alnum_only(ty) + "_should_never_exist"@
}

/// The implementation generated for a type written `ty` with the signature `g`, the
/// capability's path qualified by `q`.
pub open spec fn generated(g: GenericsView, ty: Seq<char>, q: Option<Seq<char>>) -> Result<
    TidImplView,
    GenError,
> {
    let written = g.predicates.map_values(|s: Seq<char>| PredicateView::Written(s));
    if g.params.len() == 0 {
        Ok(
            TidImplView {
                qualifier: q,
                lifetime: "a"@,
                params: seq![lifetime_param("a"@)],
                self_type: ty,
                predicates: written,
                static_type: StaticTypeView::SelfType,
            },
        )
    } else if lifetime_names(g.params).len() > 1 {
        Err(GenError::MultipleScopes)
    } else {
        let lt = scope_name(g.params);
        let stripped = g.params.map_values(|p: ParamView| without_default(p));
        Ok(
            TidImplView {
                qualifier: q,
                lifetime: lt,
                params: if lifetime_names(g.params).len() == 1 {
                    stripped
                } else {
                    seq![lifetime_param("a"@)] + stripped
                },
                self_type: ty,
                predicates: written + required_predicates(g.params, lt),
                static_type: StaticTypeView::Marker {
                    name: marker_name(ty),
                    args: type_substitutes(g.params) + const_substitutes(g.params),
                },
            },
        )
    }
}

pub open spec fn result_view(r: Result<TidImpl, GenError>) -> Result<TidImplView, GenError> {
    match r {
        Ok(imp) => Ok(imp@),
        Err(e) => Err(e),
    }
}

/// Relies on `String::push`: appends `c` to `s`.
#[verifier::external_body]
fn push_char(s: &mut String, c: char)
    ensures
        final(s)@ == old(s)@.push(c),
{
    s.push(c)
}

/// Whether `bound` is the unlimited scope `'static`.
pub fn is_static(bound: &Bound) -> (r: bool)
    ensures
        r == is_static_bound(bound@),
{
    let word = "static".to_owned();
    bound.lifetime && bound.text == word
}

fn has_static_bound(p: &GenericParam) -> (r: bool)
    ensures
        r == is_pinned_param(p@),
{
    let mut i: usize = 0;
    while i < p.bounds.len()
        invariant
            i <= p.bounds@.len(),
            forall|j: int| 0 <= j < i ==> !is_static_bound(#[trigger] p@.bounds[j]),
        decreases p.bounds@.len() - i,
    {
        if is_static(&p.bounds[i]) {
            assert(is_static_bound(p@.bounds[i as int]));
            return true;
        }
        i = i + 1;
    }
    false
}

fn alnum_of(s: &str) -> (r: String)
    ensures
        r@ == alnum_only(s@),
{
    let n = s.unicode_len();
    let mut out = String::new();
    let mut i: usize = 0;
    while i < n
        invariant
            n == s@.len(),
            i <= n,
            out@ == alnum_only(s@.take(i as int)),
        decreases n - i,
    {
        let c = s.get_char(i);
        assert(s@.take(i + 1).drop_last() == s@.take(i as int));
        if ('0' <= c && c <= '9') || ('a' <= c && c <= 'z') || ('A' <= c && c <= 'Z') {
            push_char(&mut out, c);
        }
        i = i + 1;
    }
    assert(s@.take(n as int) == s@);
    out
}

fn scope_lifetimes(ps: &Vec<GenericParam>) -> (r: (usize, Option<String>))
    ensures
        r.0 == lifetime_names(params_view(ps@)).len(),
        r.0 > 0 ==> r.1 is Some && r.1->Some_0@ == lifetime_names(params_view(ps@))[0],
{
    let ghost pv = params_view(ps@);
    let mut count: usize = 0;
    let mut first: Option<String> = None;
    let mut i: usize = 0;
    while i < ps.len()
        invariant
            pv == params_view(ps@),
            i <= ps@.len(),
            count == lifetime_names(pv.take(i as int)).len(),
            count <= i,
            count > 0 ==> first is Some && first->Some_0@ == lifetime_names(pv.take(i as int))[0],
        decreases ps@.len() - i,
    {
        assert(pv.take(i + 1).drop_last() =~= pv.take(i as int));
        assert(pv.take(i + 1).last() == ps@[i as int]@);
        if ps[i].kind == ParamKind::Lifetime {
            if count == 0 {
                first = Some(ps[i].name.clone());
            }
            count = count + 1;
        }
        i = i + 1;
    }
    assert(pv.take(ps@.len() as int) =~= pv);
    (count, first)
}

fn substitutes_of(ps: &Vec<GenericParam>) -> (r: Vec<Substitute>)
    ensures
        substitutes_view(r@) == type_substitutes(params_view(ps@)) + const_substitutes(
            params_view(ps@),
        ),
{
    let ghost pv = params_view(ps@);
    let mut out: Vec<Substitute> = Vec::new();
    let mut i: usize = 0;
    while i < ps.len()
        invariant
            pv == params_view(ps@),
            i <= ps@.len(),
            substitutes_view(out@) == type_substitutes(pv.take(i as int)),
        decreases ps@.len() - i,
    {
        assert(pv.take(i + 1).drop_last() =~= pv.take(i as int));
        assert(pv.take(i + 1).last() == ps@[i as int]@);
        let p = &ps[i];
        if p.kind == ParamKind::Type {
            let sub = if has_static_bound(p) {
                Substitute::Pinned(p.name.clone())
            } else {
                Substitute::Static(p.name.clone())
            };
            let ghost before = out@;
            out.push(sub);
            assert(substitutes_view(out@) =~= substitutes_view(before).push(sub@));
        }
        i = i + 1;
    }
    assert(pv.take(ps@.len() as int) =~= pv);
    let ghost types = type_substitutes(pv);
    let mut k: usize = 0;
    while k < ps.len()
        invariant
            pv == params_view(ps@),
            k <= ps@.len(),
            substitutes_view(out@) == types + const_substitutes(pv.take(k as int)),
        decreases ps@.len() - k,
    {
        assert(pv.take(k + 1).drop_last() =~= pv.take(k as int));
        assert(pv.take(k + 1).last() == ps@[k as int]@);
        let p = &ps[k];
        if p.kind == ParamKind::Const {
            let sub = Substitute::Const(p.name.clone());
            let ghost before = out@;
            out.push(sub);
            assert(substitutes_view(out@) =~= substitutes_view(before).push(sub@));
            assert(types + const_substitutes(pv.take(k + 1)) =~= (types + const_substitutes(
                pv.take(k as int),
            )).push(sub@));
        }
        k = k + 1;
    }
    assert(pv.take(ps@.len() as int) =~= pv);
    out
}

fn written_predicates(g: &Generics) -> (r: Vec<Predicate>)
    ensures
        predicates_view(r@) == g@.predicates.map_values(
            |s: Seq<char>| PredicateView::Written(s),
        ),
{
    let mut out: Vec<Predicate> = Vec::new();
    let mut i: usize = 0;
    while i < g.predicates.len()
        invariant
            i <= g.predicates@.len(),
            out@.len() == i,
            forall|j: int| 0 <= j < i ==> out@[j]@ == PredicateView::Written(g.predicates@[j]@),
        decreases g.predicates@.len() - i,
    {
        out.push(Predicate::Written(g.predicates[i].clone()));
        i = i + 1;
    }
    assert(predicates_view(out@) =~= g@.predicates.map_values(
        |s: Seq<char>| PredicateView::Written(s),
    ));
    out
}

fn push_required(out: &mut Vec<Predicate>, ps: &Vec<GenericParam>, lt: &String)
    ensures
        predicates_view(final(out)@) == predicates_view(old(out)@) + required_predicates(
            params_view(ps@),
            lt@,
        ),
{
    let ghost pv = params_view(ps@);
    let ghost start = predicates_view(out@);
    let mut i: usize = 0;
    while i < ps.len()
        invariant
            pv == params_view(ps@),
            i <= ps@.len(),
            predicates_view(out@) == start + required_predicates(pv.take(i as int), lt@),
        decreases ps@.len() - i,
    {
        assert(pv.take(i + 1).drop_last() =~= pv.take(i as int));
        assert(pv.take(i + 1).last() == ps@[i as int]@);
        let p = &ps[i];
        if p.kind == ParamKind::Type && !has_static_bound(p) {
            let pred = Predicate::TidAble { param: p.name.clone(), lifetime: lt.clone() };
            let ghost before = out@;
            out.push(pred);
            assert(predicates_view(out@) =~= predicates_view(before).push(pred@));
            assert(start + required_predicates(pv.take(i + 1), lt@) =~= (start
                + required_predicates(pv.take(i as int), lt@)).push(pred@));
        }
        i = i + 1;
    }
    assert(pv.take(ps@.len() as int) =~= pv);
}

fn bare_lifetime(name: &str) -> (r: GenericParam)
    ensures
        r@ == lifetime_param(name@),
{
    let r = GenericParam {
        kind: ParamKind::Lifetime,
        name: name.to_owned(),
        bounds: Vec::new(),
        ty: None,
        default: None,
    };
    assert(r@.bounds =~= seq![]);
    r
}

fn stripped_params(ps: &Vec<GenericParam>, leading: Option<GenericParam>) -> (r: Vec<GenericParam>)
    ensures
        params_view(r@) == match leading {
            Some(l) => seq![l@] + params_view(ps@).map_values(|p: ParamView| without_default(p)),
            None => params_view(ps@).map_values(|p: ParamView| without_default(p)),
        },
{
    let ghost front: Seq<ParamView> = if leading is Some {
        seq![leading->Some_0@]
    } else {
        seq![]
    };
    let mut out: Vec<GenericParam> = Vec::new();
    match leading {
        Some(l) => out.push(l),
        None => {},
    }
    let ghost base = out@.len();
    let mut i: usize = 0;
    while i < ps.len()
        invariant
            i <= ps@.len(),
            base == front.len(),
            out@.len() == base + i,
            forall|j: int| 0 <= j < base ==> out@[j]@ == front[j],
            forall|j: int| 0 <= j < i ==> out@[base + j]@ == without_default(ps@[j]@),
        decreases ps@.len() - i,
    {
        let p = &ps[i];
        out.push(
            GenericParam {
                kind: p.kind,
                name: p.name.clone(),
                bounds: clone_bounds(&p.bounds),
                ty: clone_opt(&p.ty),
                default: None,
            },
        );
        i = i + 1;
    }
    assert(params_view(out@) =~= front + params_view(ps@).map_values(
        |p: ParamView| without_default(p),
    ));
    out
}

fn marker_name_of(ty: &str) -> (r: String)
    ensures
        r@ == marker_name(ty@),
{
    let mut name = "__".to_owned();
    let letters = alnum_of(ty);
    name.append(letters.as_str());
    name.append("_should_never_exist");
    name
}

/// Generates the identity implementation for the type written `self_type` with the
/// signature `generics`. A type without generic parameters is its own static substitute.
/// Otherwise the implementation is bound to the type's single scope parameter (or a fresh
/// `'a`), every type parameter not pinned by a `'static` bound must itself have the
/// identity capability, defaults are dropped, and the static substitute is a fresh marker
/// named after the type, over the substitutes of the parameters. More than one scope
/// parameter is refused.
pub fn create_impl(generics: &Generics, self_type: &str, qualifier: Option<String>) -> (r: Result<
    TidImpl,
    GenError,
>)
    ensures
        result_view(r) == generated(generics@, self_type@, opt_view(qualifier)),
{
    let ghost g = generics@;
    let written = written_predicates(generics);
    if generics.params.len() == 0 {
        let mut params: Vec<GenericParam> = Vec::new();
        params.push(bare_lifetime("a"));
        let imp = TidImpl {
            qualifier,
            lifetime: "a".to_owned(),
            params,
            self_type: self_type.to_owned(),
            predicates: written,
            static_type: StaticType::SelfType,
        };
        assert(imp@.params =~= seq![lifetime_param("a"@)]);
        return Ok(imp);
    }
    let (count, first) = scope_lifetimes(&generics.params);
    if count > 1 {
        return Err(GenError::MultipleScopes);
    }
    let lifetime = if count == 0 {
        "a".to_owned()
    } else {
        match first {
            Some(l) => l,
            None => "a".to_owned(),
        }
    };
    assert(lifetime@ == scope_name(g.params));
    let mut predicates = written;
    push_required(&mut predicates, &generics.params, &lifetime);
    let leading = if count == 0 {
        Some(bare_lifetime("a"))
    } else {
        None
    };
    let params = stripped_params(&generics.params, leading);
    let name = marker_name_of(self_type);
    let args = substitutes_of(&generics.params);
    let imp = TidImpl {
        qualifier,
        lifetime,
        params,
        self_type: self_type.to_owned(),
        predicates,
        static_type: StaticType::Marker { name, args },
    };
    let ghost expected = generated(g, self_type@, opt_view(qualifier))->Ok_0;
    assert(imp@.qualifier == expected.qualifier);
    assert(imp@.lifetime == expected.lifetime);
    assert(imp@.params == expected.params);
    assert(imp@.self_type == expected.self_type);
    assert(imp@.predicates == expected.predicates);
    assert(imp@.static_type == expected.static_type);
    Ok(imp)
}

/// How a parameter is written among a type's arguments.
pub open spec fn param_text(p: ParamView) -> Seq<char> {
    if p.kind == ParamKind::Lifetime {
        "'"@ + p.name
    } else {
        p.name
    }
}

/// The parameters written as arguments, separated by `, `.
pub open spec fn joined(ps: Seq<ParamView>) -> Seq<char>
    decreases ps.len(),
{
    if ps.len() == 0 {
        seq![]
    } else if ps.len() == 1 {
        param_text(ps[0])
    } else {
        joined(ps.drop_last()) + ", "@ + param_text(ps.last())
    }
}

/// A declared type written with its own parameters as arguments: `S3<'a, T>`.
pub open spec fn written_type(name: Seq<char>, ps: Seq<ParamView>) -> Seq<char> {
    if ps.len() == 0 {
        name
    } else {
        name + "<"@ + joined(ps) + ">"@
    }
}

/// What an implementation block written by hand turns into: refused unless it is a plain,
/// safe implementation of `Tid` or `TidAble`, whose path qualifier is kept.
pub open spec fn implemented(
    is_default: bool,
    is_unsafe: bool,
    path: Option<Seq<Seq<char>>>,
    g: GenericsView,
    ty: Seq<char>,
) -> Result<TidImplView, GenError> {
    if is_default || is_unsafe || path is None || path->Some_0.len() == 0 {
        Err(GenError::NotATraitImpl)
    } else {
        let segs = path->Some_0;
        let last = segs.last();
        if last != "Tid"@ && last != "TidAble"@ {
            Err(GenError::WrongTrait)
        } else {
            generated(
                g,
                ty,
                if segs.len() >= 2 {
                    Some(segs[segs.len() - 2])
                } else {
                    None
                },
            )
        }
    }
}

fn text_of(p: &GenericParam) -> (r: String)
    ensures
        r@ == param_text(p@),
{
    if p.kind == ParamKind::Lifetime {
        let mut t = "'".to_owned();
        t.append(p.name.as_str());
        t
    } else {
        p.name.clone()
    }
}

fn type_text(name: &str, ps: &Vec<GenericParam>) -> (r: String)
    ensures
        r@ == written_type(name@, params_view(ps@)),
{
    let ghost pv = params_view(ps@);
    let mut out = name.to_owned();
    if ps.len() == 0 {
        return out;
    }
    out.append("<");
    let mut i: usize = 0;
    while i < ps.len()
        invariant
            pv == params_view(ps@),
            i <= ps@.len(),
            out@ == name@ + "<"@ + joined(pv.take(i as int)),
        decreases ps@.len() - i,
    {
        assert(pv.take(i + 1).drop_last() =~= pv.take(i as int));
        assert(pv.take(i + 1).last() == ps@[i as int]@);
        let ghost before = out@;
        if i > 0 {
            out.append(", ");
        }
        let t = text_of(&ps[i]);
        out.append(t.as_str());
        if i == 0 {
            assert(pv.take(1) =~= seq![pv[0]]);
            assert(out@ =~= name@ + "<"@ + joined(pv.take(1)));
        } else {
            assert(out@ =~= name@ + "<"@ + joined(pv.take(i + 1)));
        }
        i = i + 1;
    }
    assert(pv.take(ps@.len() as int) =~= pv);
    out.append(">");
    out
}

/// Generates the identity implementation for the declaration of `name` with the signature
/// `generics`, written with its own parameters as arguments.
pub fn my_derive(name: &str, generics: &Generics) -> (r: Result<TidImpl, GenError>)
    ensures
        result_view(r) == generated(generics@, written_type(name@, generics@.params), None),
{
    let ty = type_text(name, &generics.params);
    create_impl(generics, ty.as_str(), None)
}

/// Turns an implementation block written by hand into the generated one: the block must be
/// a plain, safe implementation of `Tid` or `TidAble`, and the segment before the trait's
/// name, if any, qualifies the capability's path.
pub fn impl_tid(header: &ImplHeader) -> (r: Result<TidImpl, GenError>)
    ensures
        result_view(r) == implemented(
            header.is_default,
            header.is_unsafe,
            path_view(header.trait_path),
            header.generics@,
            header.self_type@,
        ),
{
    if header.is_default || header.is_unsafe {
        return Err(GenError::NotATraitImpl);
    }
    match &header.trait_path {
        None => Err(GenError::NotATraitImpl),
        Some(segs) => {
            let n = segs.len();
            if n == 0 {
                return Err(GenError::NotATraitImpl);
            }
            let ghost sv = segs@.map_values(|s: String| s@);
            assert(sv.last() == segs@[n - 1]@);
            let tid = "Tid".to_owned();
            let tid_able = "TidAble".to_owned();
            if segs[n - 1] != tid && segs[n - 1] != tid_able {
                return Err(GenError::WrongTrait);
            }
            let qualifier = if n >= 2 {
                assert(sv[n - 2] == segs@[n - 2]@);
                Some(segs[n - 2].clone())
            } else {
                None
            };
            create_impl(&header.generics, header.self_type.as_str(), qualifier)
        },
    }
}

/// Which type parameters are pinned, in order.
pub open spec fn pinned_flags(ps: Seq<ParamView>) -> Seq<bool>
    decreases ps.len(),
{
    if ps.len() == 0 {
        seq![]
    } else {
        let rest = pinned_flags(ps.drop_last());
        if ps.last().kind == ParamKind::Type {
            rest.push(is_pinned_param(ps.last()))
        } else {
            rest
        }
    }
}

/// The declaration, as the identity protocol sees it, of a type named `name` with the
/// signature `generics`: scoped when it has a lifetime parameter, with one flag per type
/// parameter telling whether it is pinned. More than one scope parameter is refused.
pub fn declaration(name: &str, generics: &Generics) -> (r: Result<Decl, GenError>)
    ensures
        lifetime_names(generics@.params).len() > 1 ==> r == Err::<Decl, GenError>(
            GenError::MultipleScopes,
        ),
        lifetime_names(generics@.params).len() <= 1 ==> (r matches Ok(d) && d@ == (DeclView {
            name: name@,
            scoped: lifetime_names(generics@.params).len() == 1,
            pinned: pinned_flags(generics@.params),
        })),
{
    let (count, _first) = scope_lifetimes(&generics.params);
    if count > 1 {
        return Err(GenError::MultipleScopes);
    }
    let ps = &generics.params;
    let ghost pv = params_view(ps@);
    let mut pinned: Vec<bool> = Vec::new();
    let mut i: usize = 0;
    while i < ps.len()
        invariant
            pv == params_view(ps@),
            i <= ps@.len(),
            pinned@ == pinned_flags(pv.take(i as int)),
        decreases ps@.len() - i,
    {
        assert(pv.take(i + 1).drop_last() =~= pv.take(i as int));
        assert(pv.take(i + 1).last() == ps@[i as int]@);
        if ps[i].kind == ParamKind::Type {
            pinned.push(has_static_bound(&ps[i]));
        }
        i = i + 1;
    }
    assert(pv.take(ps@.len() as int) =~= pv);
    Ok(Decl::new(name, count == 1, pinned))
}

/// The generated marker and the declaration agree: the marker keeps a type parameter as
/// itself exactly where the declaration pins it, and takes the static substitute of every
/// other one.
pub proof fn lemma_marker_pins_as_declared(ps: Seq<ParamView>)
    ensures
        type_substitutes(ps).len() == pinned_flags(ps).len(),
        forall|i: int|
            0 <= i < pinned_flags(ps).len() ==> ((type_substitutes(ps)[i] is Pinned)
                == #[trigger] pinned_flags(ps)[i]),
    decreases ps.len(),
{
    if ps.len() > 0 {
        lemma_marker_pins_as_declared(ps.drop_last());
    }
}

} // verus!
