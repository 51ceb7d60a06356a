//! Type terms: what a type expression denotes once its validity scopes are written out.
use vstd::prelude::*;

verus! {

/// The validity scope of a value: unlimited, or a bounded region named by an identifier.
#[derive(Clone, Copy, PartialEq, Eq, Debug, Structural)]
pub enum Scope {
    Unlimited,
    Region(u64),
}

/// A type declaration as seen by the identity protocol: its name, whether it takes a
/// validity-scope parameter, and for each type parameter whether that parameter is pinned
/// (explicitly bound to the unlimited scope) or scope-bound.
#[derive(Debug)]
pub struct Decl {
    pub name: String,
    pub scoped: bool,
    pub pinned: Vec<bool>,
}

/// Mathematical form of a [`Decl`].
pub struct DeclView {
    pub name: Seq<char>,
    pub scoped: bool,
    pub pinned: Seq<bool>,
}

impl View for Decl {
    type V = DeclView;

    open spec fn view(&self) -> DeclView {
        DeclView { name: self.name@, scoped: self.scoped, pinned: self.pinned@ }
    }
}

/// A concrete type with its scope arguments.
#[derive(Debug)]
pub enum TypeTerm {
    /// An instance of a declared type: its scope argument (meaningful when the declaration
    /// has a scope parameter) and one argument per type parameter.
    Named { decl: Decl, scope: Scope, args: Vec<TypeTerm> },
    /// A shared or exclusive borrow, within `scope`, of a type with unlimited scope.
    Borrow { scope: Scope, exclusive: bool, target: Box<TypeTerm> },
    /// A polymorphic handle typed only by a capability set, bound to `scope`.
    Object { name: String, scope: Scope },
}

/// Mathematical form of a [`TypeTerm`].
pub enum Ty {
    Named { decl: DeclView, scope: Scope, args: Seq<Ty> },
    Borrow { scope: Scope, exclusive: bool, target: Box<Ty> },
    Object { name: Seq<char>, scope: Scope },
}

pub open spec fn term_view(t: TypeTerm) -> Ty
    decreases t,
{
    match t {
        TypeTerm::Named { decl, scope, args } => Ty::Named {
            decl: decl@,
            scope,
            args: Seq::new(
                args@.len(),
                |i: int|
                    if 0 <= i < args@.len() {
                        term_view(args@[i])
                    } else {
                        Ty::Object { name: Seq::empty(), scope: Scope::Unlimited }
                    },
            ),
        },
        TypeTerm::Borrow { scope, exclusive, target } => Ty::Borrow {
            scope,
            exclusive,
            target: Box::new(term_view(*target)),
        },
        TypeTerm::Object { name, scope } => Ty::Object { name: name@, scope },
    }
}

impl View for TypeTerm {
    type V = Ty;

    open spec fn view(&self) -> Ty {
        term_view(*self)
    }
}

/// The shape of a type: the same term with every scope replaced by the unlimited one.
pub open spec fn erase(t: Ty) -> Ty
    decreases t,
{
    match t {
        Ty::Named { decl, scope, args } => Ty::Named {
            decl,
            scope: Scope::Unlimited,
            args: Seq::new(
                args.len(),
                |i: int|
                    if 0 <= i < args.len() {
                        erase(args[i])
                    } else {
                        Ty::Object { name: Seq::empty(), scope: Scope::Unlimited }
                    },
            ),
        },
        Ty::Borrow { scope, exclusive, target } => Ty::Borrow {
            scope: Scope::Unlimited,
            exclusive,
            target: Box::new(erase(*target)),
        },
        Ty::Object { name, scope } => Ty::Object { name, scope: Scope::Unlimited },
    }
}

/// Parameter `i` of `decl` exists and is pinned.
pub open spec fn is_pinned(decl: DeclView, i: int) -> bool {
    0 <= i < decl.pinned.len() && decl.pinned[i]
}

/// The scope that parameter `i` of `decl` is bound to, in an instance bound to `s`.
pub open spec fn param_scope(decl: DeclView, i: int, s: Scope) -> Scope {
    if is_pinned(decl, i) {
        Scope::Unlimited
    } else {
        s
    }
}

/// `t` is a scope-bound type for scope `s`: every scope it carries is `s`, except inside
/// pinned parameters and borrow targets, which carry only the unlimited scope.
pub open spec fn bound_at(t: Ty, s: Scope) -> bool
    decreases t,
{
    match t {
        Ty::Named { decl, scope, args } => {
            &&& scope == (if decl.scoped {
                s
            } else {
                Scope::Unlimited
            })
            &&& args.len() == decl.pinned.len()
            &&& forall|i: int|
                #![trigger args[i]]
                0 <= i < args.len() ==> bound_at(args[i], param_scope(decl, i, s))
        },
        Ty::Borrow { scope, exclusive, target } => scope == s && bound_at(*target, Scope::Unlimited),
        Ty::Object { name, scope } => scope == s,
    }
}

/// Erasing twice is erasing once.
pub proof fn lemma_erase_idempotent(t: Ty)
    ensures
        erase(erase(t)) == erase(t),
    decreases t,
{
    match t {
        Ty::Named { decl, scope, args } => {
            let e = erase(t);
            assert forall|i: int| 0 <= i < args.len() implies erase(e->Named_args[i]) == erase(
                args[i],
            ) by {
                lemma_erase_idempotent(args[i]);
            }
            assert(erase(e)->Named_args =~= e->Named_args);
        },
        Ty::Borrow { scope, exclusive, target } => {
            lemma_erase_idempotent(*target);
        },
        Ty::Object { .. } => {},
    }
}

/// Two types bound to the same scope that have the same shape are the same type: within
/// one scope, erasure loses nothing.
pub proof fn lemma_erase_rigid(t: Ty, u: Ty, s: Scope)
    requires
        bound_at(t, s),
        bound_at(u, s),
        erase(t) == erase(u),
    ensures
        t == u,
    decreases t,
{
    match t {
        Ty::Named { decl, scope, args } => {
            assert(u is Named);
            assert(u->Named_decl == decl);
            let ua = u->Named_args;
            assert(erase(u)->Named_args == erase(t)->Named_args);
            assert forall|i: int| 0 <= i < args.len() implies args[i] == ua[i] by {
                assert(erase(t)->Named_args[i] == erase(args[i]));
                assert(erase(u)->Named_args[i] == erase(ua[i]));
                assert(bound_at(args[i], param_scope(decl, i, s)));
                assert(bound_at(ua[i], param_scope(decl, i, s)));
                lemma_erase_rigid(args[i], ua[i], param_scope(decl, i, s));
            }
            assert(args =~= ua);
        },
        Ty::Borrow { scope, exclusive, target } => {
            lemma_erase_rigid(*target, *u->Borrow_target, Scope::Unlimited);
        },
        Ty::Object { .. } => {},
    }
}

/// Element-wise equality of two flag sequences.
fn flags_equal(a: &Vec<bool>, b: &Vec<bool>) -> (r: bool)
    ensures
        r == (a@ == b@),
{
    if a.len() != b.len() {
        return false;
    }
    let mut i: usize = 0;
    while i < a.len()
        invariant
            a@.len() == b@.len(),
            i <= a@.len(),
            forall|j: int| 0 <= j < i ==> a@[j] == b@[j],
        decreases a@.len() - i,
    {
        if a[i] != b[i] {
            return false;
        }
        i = i + 1;
    }
    assert(a@ =~= b@);
    true
}

impl Decl {
    /// A declaration named `name`, with a scope parameter when `scoped`, and one type
    /// parameter per entry of `pinned`.
    pub fn new(name: &str, scoped: bool, pinned: Vec<bool>) -> (r: Decl)
        ensures
            r@ == (DeclView { name: name@, scoped, pinned: pinned@ }),
    {
        Decl { name: name.to_owned(), scoped, pinned }
    }

    /// Whether two declarations are the same declaration.
    pub fn same_as(&self, other: &Decl) -> (r: bool)
        ensures
            r == (self@ == other@),
    {
        self.name == other.name && self.scoped == other.scoped && flags_equal(
            &self.pinned,
            &other.pinned,
        )
    }

}

impl Clone for Decl {
    fn clone(&self) -> (r: Decl)
        ensures
            r@ == self@,
    {
        Decl { name: self.name.clone(), scoped: self.scoped, pinned: self.pinned.clone() }
    }
}

impl Clone for TypeTerm {
    fn clone(&self) -> (r: TypeTerm)
        ensures
            r@ == self@,
        decreases self,
    {
        match self {
            TypeTerm::Named { decl, scope, args } => {
                let mut out: Vec<TypeTerm> = Vec::new();
                let mut i: usize = 0;
                while i < args.len()
                    invariant
                        *self == (TypeTerm::Named { decl: *decl, scope: *scope, args: *args }),
                        i <= args@.len(),
                        out@.len() == i,
                        forall|j: int| 0 <= j < i ==> out@[j]@ == args@[j]@,
                    decreases args@.len() - i,
                {
                    proof {
                        assert(decreases_to!(*self => self->Named_args));
                    }
                    out.push(args[i].clone());
                    i = i + 1;
                }
                let r = TypeTerm::Named { decl: decl.clone(), scope: *scope, args: out };
                assert(r@->Named_args =~= self@->Named_args);
                r
            },
            TypeTerm::Borrow { scope, exclusive, target } => {
                let t: &TypeTerm = target;
                TypeTerm::Borrow { scope: *scope, exclusive: *exclusive, target: Box::new(t.clone()) }
            },
            TypeTerm::Object { name, scope } => TypeTerm::Object { name: name.clone(), scope: *scope },
        }
    }
}

impl TypeTerm {
    /// Whether two terms denote the same type, scopes included.
    pub fn same_as(&self, other: &TypeTerm) -> (r: bool)
        ensures
            r == (self@ == other@),
        decreases self,
    {
        match (self, other) {
            (
                TypeTerm::Named { decl: d1, scope: s1, args: a1 },
                TypeTerm::Named { decl: d2, scope: s2, args: a2 },
            ) => {
                if !d1.same_as(d2) || *s1 != *s2 || a1.len() != a2.len() {
                    assert(self@->Named_args.len() == a1@.len());
                    assert(other@->Named_args.len() == a2@.len());
                    return false;
                }
                let mut i: usize = 0;
                while i < a1.len()
                    invariant
                        *self == (TypeTerm::Named { decl: *d1, scope: *s1, args: *a1 }),
                        *other == (TypeTerm::Named { decl: *d2, scope: *s2, args: *a2 }),
                        a1@.len() == a2@.len(),
                        i <= a1@.len(),
                        forall|j: int| 0 <= j < i ==> a1@[j]@ == a2@[j]@,
                    decreases a1@.len() - i,
                {
                    proof {
                        assert(decreases_to!(*self => self->Named_args));
                    }
                    if !a1[i].same_as(&a2[i]) {
                        assert(self@->Named_args[i as int] != other@->Named_args[i as int]);
                        return false;
                    }
                    i = i + 1;
                }
                assert(self@->Named_args =~= other@->Named_args);
                true
            },
            (
                TypeTerm::Borrow { scope: s1, exclusive: e1, target: t1 },
                TypeTerm::Borrow { scope: s2, exclusive: e2, target: t2 },
            ) => {
                let t1: &TypeTerm = t1;
                let t2: &TypeTerm = t2;
                *s1 == *s2 && *e1 == *e2 && t1.same_as(t2)
            },
            (TypeTerm::Object { name: n1, scope: s1 }, TypeTerm::Object { name: n2, scope: s2 }) => {
                *n1 == *n2 && *s1 == *s2
            },
            _ => false,
        }
    }

    /// The shape of this type: every scope replaced by the unlimited one.
    pub fn erased(&self) -> (r: TypeTerm)
        ensures
            r@ == erase(self@),
        decreases self,
    {
        match self {
            TypeTerm::Named { decl, scope, args } => {
                let mut out: Vec<TypeTerm> = Vec::new();
                let mut i: usize = 0;
                while i < args.len()
                    invariant
                        *self == (TypeTerm::Named { decl: *decl, scope: *scope, args: *args }),
                        i <= args@.len(),
                        out@.len() == i,
                        forall|j: int| 0 <= j < i ==> out@[j]@ == erase(args@[j]@),
                    decreases args@.len() - i,
                {
                    proof {
                        assert(decreases_to!(*self => self->Named_args));
                    }
                    out.push(args[i].erased());
                    i = i + 1;
                }
                let r = TypeTerm::Named { decl: decl.clone(), scope: Scope::Unlimited, args: out };
                assert(r@->Named_args =~= erase(self@)->Named_args);
                r
            },
            TypeTerm::Borrow { scope, exclusive, target } => {
                let t: &TypeTerm = target;
                TypeTerm::Borrow {
                    scope: Scope::Unlimited,
                    exclusive: *exclusive,
                    target: Box::new(t.erased()),
                }
            },
            TypeTerm::Object { name, scope } => TypeTerm::Object {
                name: name.clone(),
                scope: Scope::Unlimited,
            },
        }
    }

    /// Whether this type is scope-bound for `s`.
    pub fn is_bound_at(&self, s: Scope) -> (r: bool)
        ensures
            r == bound_at(self@, s),
        decreases self,
    {
        match self {
            TypeTerm::Named { decl, scope, args } => {
                let expected = if decl.scoped {
                    s
                } else {
                    Scope::Unlimited
                };
                if *scope != expected || args.len() != decl.pinned.len() {
                    return false;
                }
                let mut i: usize = 0;
                while i < args.len()
                    invariant
                        *self == (TypeTerm::Named { decl: *decl, scope: *scope, args: *args }),
                        args@.len() == decl.pinned@.len(),
                        i <= args@.len(),
                        forall|j: int|
                            0 <= j < i ==> bound_at(args@[j]@, param_scope(decl@, j, s)),
                    decreases args@.len() - i,
                {
                    proof {
                        assert(decreases_to!(*self => self->Named_args));
                    }
                    let inner = if decl.pinned[i] {
                        Scope::Unlimited
                    } else {
                        s
                    };
                    if !args[i].is_bound_at(inner) {
                        assert(self@->Named_args[i as int] == args@[i as int]@);
                        return false;
                    }
                    i = i + 1;
                }
                proof {
                    assert forall|j: int| 0 <= j < args@.len() implies bound_at(
                        #[trigger] self@->Named_args[j],
                        param_scope(decl@, j, s),
                    ) by {
                        assert(self@->Named_args[j] == args@[j]@);
                    }
                }
                true
            },
            TypeTerm::Borrow { scope, exclusive, target } => {
                let t: &TypeTerm = target;
                *scope == s && t.is_bound_at(Scope::Unlimited)
            },
            TypeTerm::Object { name, scope } => *scope == s,
        }
    }
}

} // verus!
