//! Source text of a generated identity implementation.
use vstd::prelude::*;
use crate::generator::{
    Bound, BoundView, GenericParam, ParamKind, ParamView, Predicate, PredicateView, StaticType,
    StaticTypeView, Substitute, SubstituteView, TidImpl, TidImplView, params_view,
    predicates_view, substitutes_view,
};

verus! {

/// `parts` separated by `sep`.
pub open spec fn join(parts: Seq<Seq<char>>, sep: Seq<char>) -> Seq<char>
    decreases parts.len(),
{
    if parts.len() == 0 {
        seq![]
    } else if parts.len() == 1 {
        parts[0]
    } else {
        join(parts.drop_last(), sep) + sep + parts.last()
    }
}

pub open spec fn strings_view(v: Seq<String>) -> Seq<Seq<char>> {
    v.map_values(|s: String| s@)
}

fn join_strings(parts: &Vec<String>, sep: &str) -> (r: String)
    ensures
        r@ == join(strings_view(parts@), sep@),
{
    let ghost pv = strings_view(parts@);
    let mut out = String::new();
    let mut i: usize = 0;
    while i < parts.len()
        invariant
            pv == strings_view(parts@),
            i <= parts@.len(),
            out@ == join(pv.take(i as int), sep@),
        decreases parts@.len() - i,
    {
        assert(pv.take(i + 1).drop_last() =~= pv.take(i as int));
        assert(pv.take(i + 1).last() == parts@[i as int]@);
        if i > 0 {
            out.append(sep);
        } else {
            assert(pv.take(1) =~= seq![pv[0]]);
        }
        out.append(parts[i].as_str());
        i = i + 1;
    }
    assert(pv.take(parts@.len() as int) =~= pv);
    out
}

/// How a bound is written.
pub open spec fn bound_source(b: BoundView) -> Seq<char> {
    if b.lifetime {
        "'"@ + b.text
    } else {
        b.text
    }
}

/// `: B1 + B2` for a non-empty list of bounds, nothing otherwise.
pub open spec fn bounds_source(bs: Seq<BoundView>) -> Seq<char> {
    if bs.len() == 0 {
        seq![]
    } else {
        ": "@ + join(bs.map_values(|b: BoundView| bound_source(b)), " + "@)
    }
}

/// How a generic parameter is declared; a default is never written.
pub open spec fn param_source(p: ParamView) -> Seq<char> {
    match p.kind {
        ParamKind::Lifetime => "'"@ + p.name + bounds_source(p.bounds),
        ParamKind::Type => p.name + bounds_source(p.bounds),
        ParamKind::Const => "const "@ + p.name + ": "@ + match p.ty {
            Some(t) => t,
            None => seq![],
        },
    }
}

/// The path of the identity capability.
pub open spec fn capability_path(q: Option<Seq<char>>) -> Seq<char> {
    match q {
        Some(q) => q + "::better_any::TidAble"@,
        None => "::better_any::TidAble"@,
    }
}

/// How a predicate is written.
pub open spec fn predicate_source(p: PredicateView, path: Seq<char>) -> Seq<char> {
    match p {
        PredicateView::Written(w) => w,
        PredicateView::TidAble { param, lifetime } => param + ": "@ + path + "<'"@ + lifetime
            + ">"@,
    }
}

/// ` where A: X, B: Y` for a non-empty list of predicates, nothing otherwise.
pub open spec fn where_source(ps: Seq<PredicateView>, path: Seq<char>) -> Seq<char> {
    if ps.len() == 0 {
        seq![]
    } else {
        " where "@ + join(ps.map_values(|p: PredicateView| predicate_source(p, path)), ", "@)
    }
}

/// How a substitute is written among the marker's arguments.
pub open spec fn substitute_source(a: SubstituteView) -> Seq<char> {
    match a {
        SubstituteView::Pinned(n) => n,
        SubstituteView::Static(n) => n + "::Static"@,
        SubstituteView::Const(n) => n,
    }
}

/// The parameters of the marker declaration: each type parameter, possibly unsized, then
/// each const parameter.
pub open spec fn marker_params(ps: Seq<ParamView>) -> Seq<Seq<char>>
    decreases ps.len(),
{
    if ps.len() == 0 {
        seq![]
    } else {
        let rest = marker_params(ps.drop_last());
        if ps.last().kind == ParamKind::Type {
            rest.push(ps.last().name + ": ?Sized"@)
        } else {
            rest
        }
    }
}

pub open spec fn marker_consts(ps: Seq<ParamView>) -> Seq<Seq<char>>
    decreases ps.len(),
{
    if ps.len() == 0 {
        seq![]
    } else {
        let rest = marker_consts(ps.drop_last());
        if ps.last().kind == ParamKind::Const {
            rest.push(param_source(ps.last()))
        } else {
            rest
        }
    }
}

/// The fields of the marker declaration: a phantom of each type parameter.
pub open spec fn marker_fields(ps: Seq<ParamView>) -> Seq<Seq<char>>
    decreases ps.len(),
{
    if ps.len() == 0 {
        seq![]
    } else {
        let rest = marker_fields(ps.drop_last());
        if ps.last().kind == ParamKind::Type {
            rest.push("core::marker::PhantomData<"@ + ps.last().name + ">"@)
        } else {
            rest
        }
    }
}

/// The static substitute as written.
pub open spec fn static_source(imp: TidImplView) -> Seq<char> {
    match imp.static_type {
        StaticTypeView::SelfType => imp.self_type,
        StaticTypeView::Marker { name, args } => name + "<"@ + join(
            args.map_values(|a: SubstituteView| substitute_source(a)),
            ", "@,
        ) + ">"@,
    }
}

/// The declaration of the marker, if there is one.
pub open spec fn marker_source(imp: TidImplView) -> Seq<char> {
    match imp.static_type {
        StaticTypeView::SelfType => seq![],
        StaticTypeView::Marker { name, args } => " #[allow(warnings)] #[doc(hidden)] pub struct "@
            + name + "<"@ + join(marker_params(imp.params) + marker_consts(imp.params), ", "@)
            + ">("@ + join(marker_fields(imp.params), ", "@) + ");"@,
    }
}

/// The source text of a generated implementation, followed by its marker's declaration.
pub open spec fn impl_source(imp: TidImplView) -> Seq<char> {
    let path = capability_path(imp.qualifier);
    "unsafe impl<"@ + join(imp.params.map_values(|p: ParamView| param_source(p)), ", "@) + "> "@
        + path + "<'"@ + imp.lifetime + "> for "@ + imp.self_type + where_source(
        imp.predicates,
        path,
    ) + " { type Static = "@ + static_source(imp) + "; }"@ + marker_source(imp)
}

fn bound_source_of(b: &Bound) -> (r: String)
    ensures
        r@ == bound_source(b@),
{
    if b.lifetime {
        let mut t = "'".to_owned();
        t.append(b.text.as_str());
        t
    } else {
        b.text.clone()
    }
}

fn bounds_source_of(bs: &Vec<Bound>) -> (r: String)
    ensures
        r@ == bounds_source(bs@.map_values(|b: Bound| b@)),
{
    if bs.len() == 0 {
        return String::new();
    }
    let mut parts: Vec<String> = Vec::new();
    let mut i: usize = 0;
    while i < bs.len()
        invariant
            i <= bs@.len(),
            parts@.len() == i,
            forall|j: int| 0 <= j < i ==> parts@[j]@ == bound_source(bs@[j]@),
        decreases bs@.len() - i,
    {
        parts.push(bound_source_of(&bs[i]));
        i = i + 1;
    }
    assert(strings_view(parts@) =~= bs@.map_values(|b: Bound| b@).map_values(
        |b: BoundView| bound_source(b),
    ));
    let mut out = ": ".to_owned();
    let joined = join_strings(&parts, " + ");
    out.append(joined.as_str());
    out
}

fn param_source_of(p: &GenericParam) -> (r: String)
    ensures
        r@ == param_source(p@),
{
    let bounds = bounds_source_of(&p.bounds);
    match p.kind {
        ParamKind::Lifetime => {
            let mut t = "'".to_owned();
            t.append(p.name.as_str());
            t.append(bounds.as_str());
            t
        },
        ParamKind::Type => {
            let mut t = p.name.clone();
            t.append(bounds.as_str());
            t
        },
        ParamKind::Const => {
            let mut t = "const ".to_owned();
            t.append(p.name.as_str());
            t.append(": ");
            match &p.ty {
                Some(ty) => t.append(ty.as_str()),
                None => {},
            }
            t
        },
    }
}

fn capability_path_of(q: &Option<String>) -> (r: String)
    ensures
        r@ == capability_path(crate::generator::opt_view(*q)),
{
    match q {
        Some(q) => {
            let mut t = q.clone();
            t.append("::better_any::TidAble");
            t
        },
        None => "::better_any::TidAble".to_owned(),
    }
}

fn predicate_source_of(p: &Predicate, path: &String) -> (r: String)
    ensures
        r@ == predicate_source(p@, path@),
{
    match p {
        Predicate::Written(w) => w.clone(),
        Predicate::TidAble { param, lifetime } => {
            let mut t = param.clone();
            t.append(": ");
            t.append(path.as_str());
            t.append("<'");
            t.append(lifetime.as_str());
            t.append(">");
            t
        },
    }
}

fn where_source_of(ps: &Vec<Predicate>, path: &String) -> (r: String)
    ensures
        r@ == where_source(predicates_view(ps@), path@),
{
    if ps.len() == 0 {
        return String::new();
    }
    let mut parts: Vec<String> = Vec::new();
    let mut i: usize = 0;
    while i < ps.len()
        invariant
            i <= ps@.len(),
            parts@.len() == i,
            forall|j: int| 0 <= j < i ==> parts@[j]@ == predicate_source(ps@[j]@, path@),
        decreases ps@.len() - i,
    {
        parts.push(predicate_source_of(&ps[i], path));
        i = i + 1;
    }
    assert(strings_view(parts@) =~= predicates_view(ps@).map_values(
        |p: PredicateView| predicate_source(p, path@),
    ));
    let mut out = " where ".to_owned();
    let joined = join_strings(&parts, ", ");
    out.append(joined.as_str());
    out
}

fn substitute_source_of(a: &Substitute) -> (r: String)
    ensures
        r@ == substitute_source(a@),
{
    match a {
        Substitute::Pinned(n) => n.clone(),
        Substitute::Static(n) => {
            let mut t = n.clone();
            t.append("::Static");
            t
        },
        Substitute::Const(n) => n.clone(),
    }
}

fn static_source_of(imp: &TidImpl) -> (r: String)
    ensures
        r@ == static_source(imp@),
{
    match &imp.static_type {
        StaticType::SelfType => imp.self_type.clone(),
        StaticType::Marker { name, args } => {
            let mut parts: Vec<String> = Vec::new();
            let mut i: usize = 0;
            while i < args.len()
                invariant
                    i <= args@.len(),
                    parts@.len() == i,
                    forall|j: int| 0 <= j < i ==> parts@[j]@ == substitute_source(args@[j]@),
                decreases args@.len() - i,
            {
                parts.push(substitute_source_of(&args[i]));
                i = i + 1;
            }
            assert(strings_view(parts@) =~= substitutes_view(args@).map_values(
                |a: SubstituteView| substitute_source(a),
            ));
            let mut t = name.clone();
            t.append("<");
            let joined = join_strings(&parts, ", ");
            t.append(joined.as_str());
            t.append(">");
            t
        },
    }
}

fn marker_parts(ps: &Vec<GenericParam>) -> (r: (Vec<String>, Vec<String>))
    ensures
        strings_view(r.0@) == marker_params(params_view(ps@)) + marker_consts(params_view(ps@)),
        strings_view(r.1@) == marker_fields(params_view(ps@)),
{
    let ghost pv = params_view(ps@);
    let mut params: Vec<String> = Vec::new();
    let mut fields: Vec<String> = Vec::new();
    let mut i: usize = 0;
    while i < ps.len()
        invariant
            pv == params_view(ps@),
            i <= ps@.len(),
            strings_view(params@) == marker_params(pv.take(i as int)),
            strings_view(fields@) == marker_fields(pv.take(i as int)),
        decreases ps@.len() - i,
    {
        assert(pv.take(i + 1).drop_last() =~= pv.take(i as int));
        assert(pv.take(i + 1).last() == ps@[i as int]@);
        let p = &ps[i];
        if p.kind == ParamKind::Type {
            let mut a = p.name.clone();
            a.append(": ?Sized");
            let mut f = "core::marker::PhantomData<".to_owned();
            f.append(p.name.as_str());
            f.append(">");
            let ghost (p0, f0) = (params@, fields@);
            params.push(a);
            fields.push(f);
            assert(strings_view(params@) =~= strings_view(p0).push(a@));
            assert(strings_view(fields@) =~= strings_view(f0).push(f@));
        }
        i = i + 1;
    }
    assert(pv.take(ps@.len() as int) =~= pv);
    let ghost types = marker_params(pv);
    let mut k: usize = 0;
    while k < ps.len()
        invariant
            pv == params_view(ps@),
            k <= ps@.len(),
            strings_view(params@) == types + marker_consts(pv.take(k as int)),
        decreases ps@.len() - k,
    {
        assert(pv.take(k + 1).drop_last() =~= pv.take(k as int));
        assert(pv.take(k + 1).last() == ps@[k as int]@);
        if ps[k].kind == ParamKind::Const {
            let c = param_source_of(&ps[k]);
            let ghost p0 = params@;
            params.push(c);
            assert(strings_view(params@) =~= strings_view(p0).push(c@));
            assert(types + marker_consts(pv.take(k + 1)) =~= (types + marker_consts(
                pv.take(k as int),
            )).push(c@));
        }
        k = k + 1;
    }
    assert(pv.take(ps@.len() as int) =~= pv);
    (params, fields)
}

fn marker_source_of(imp: &TidImpl) -> (r: String)
    ensures
        r@ == marker_source(imp@),
{
    match &imp.static_type {
        StaticType::SelfType => String::new(),
        StaticType::Marker { name, args } => {
            let (params, fields) = marker_parts(&imp.params);
            let mut t = " #[allow(warnings)] #[doc(hidden)] pub struct ".to_owned();
            t.append(name.as_str());
            t.append("<");
            let p = join_strings(&params, ", ");
            t.append(p.as_str());
            t.append(">(");
            let f = join_strings(&fields, ", ");
            t.append(f.as_str());
            t.append(");");
            t
        },
    }
}

impl TidImpl {
    /// The source text of the implementation, followed by the declaration of its marker.
    pub fn to_source(&self) -> (r: String)
        ensures
            r@ == impl_source(self@),
    {
        let mut parts: Vec<String> = Vec::new();
        let mut i: usize = 0;
        while i < self.params.len()
            invariant
                i <= self.params@.len(),
                parts@.len() == i,
                forall|j: int| 0 <= j < i ==> parts@[j]@ == param_source(self.params@[j]@),
            decreases self.params@.len() - i,
        {
            parts.push(param_source_of(&self.params[i]));
            i = i + 1;
        }
        assert(strings_view(parts@) =~= self@.params.map_values(
            |p: ParamView| param_source(p),
        ));
        let path = capability_path_of(&self.qualifier);
        let mut t = "unsafe impl<".to_owned();
        let params = join_strings(&parts, ", ");
        t.append(params.as_str());
        t.append("> ");
        t.append(path.as_str());
        t.append("<'");
        t.append(self.lifetime.as_str());
        t.append("> for ");
        t.append(self.self_type.as_str());
        let w = where_source_of(&self.predicates, &path);
        t.append(w.as_str());
        t.append(" { type Static = ");
        let st = static_source_of(self);
        t.append(st.as_str());
        t.append("; }");
        let m = marker_source_of(self);
        t.append(m.as_str());
        assert(t@ =~= impl_source(self@));
        t
    }
}

} // verus!
