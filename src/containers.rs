//! Declarations supplied for the standard containers: each has the identity capability
//! whenever the types it contains do.
use vstd::prelude::*;
use crate::term::{Decl, DeclView, Scope, Ty, TypeTerm, bound_at, param_scope};

verus! {

/// A standard container whose declaration is supplied.
#[derive(Clone, Copy, PartialEq, Eq, Debug, Structural)]
pub enum Container {
    Box,
    Rc,
    Arc,
    RefCell,
    Cell,
    Mutex,
    RwLock,
    Option,
    Vec,
    Result,
}

pub open spec fn container_name(c: Container) -> Seq<char> {
    match c {
        Container::Box => "Box"@,
        Container::Rc => "Rc"@,
        Container::Arc => "Arc"@,
        Container::RefCell => "RefCell"@,
        Container::Cell => "Cell"@,
        Container::Mutex => "Mutex"@,
        Container::RwLock => "RwLock"@,
        Container::Option => "Option"@,
        Container::Vec => "Vec"@,
        Container::Result => "Result"@,
    }
}

/// How many types a container holds: two for `Result`, one for the others.
pub open spec fn container_arity(c: Container) -> nat {
    if c == Container::Result {
        2
    } else {
        1
    }
}

/// The declaration of a container: no scope parameter of its own, every type parameter
/// scope-bound.
pub open spec fn container_decl(c: Container) -> DeclView {
    DeclView {
        name: container_name(c),
        scoped: false,
        pinned: Seq::new(container_arity(c), |i: int| false),
    }
}

impl Container {
    /// The supplied declaration of this container.
    pub fn decl(self) -> (r: Decl)
        ensures
            r@ == container_decl(self),
    {
        let name = match self {
            Container::Box => "Box",
            Container::Rc => "Rc",
            Container::Arc => "Arc",
            Container::RefCell => "RefCell",
            Container::Cell => "Cell",
            Container::Mutex => "Mutex",
            Container::RwLock => "RwLock",
            Container::Option => "Option",
            Container::Vec => "Vec",
            Container::Result => "Result",
        };
        let mut pinned: Vec<bool> = Vec::new();
        pinned.push(false);
        if let Container::Result = self {
            pinned.push(false);
        }
        let r = Decl::new(name, false, pinned);
        assert(r@.pinned =~= container_decl(self).pinned);
        r
    }

    /// This container holding `args`.
    pub fn of(self, args: Vec<TypeTerm>) -> (r: TypeTerm)
        requires
            args@.len() == container_arity(self),
        ensures
            r@ == (Ty::Named {
                decl: container_decl(self),
                scope: Scope::Unlimited,
                args: args@.map_values(|a: TypeTerm| a@),
            }),
    {
        let r = TypeTerm::Named { decl: self.decl(), scope: Scope::Unlimited, args };
        assert(r@->Named_args =~= args@.map_values(|a: TypeTerm| a@));
        r
    }
}

/// A container is a scope-bound type for `s` exactly when everything it holds is.
pub proof fn lemma_container_bound(c: Container, args: Seq<Ty>, s: Scope)
    requires
        args.len() == container_arity(c),
    ensures
        bound_at(Ty::Named { decl: container_decl(c), scope: Scope::Unlimited, args }, s)
            <==> (forall|i: int| 0 <= i < args.len() ==> bound_at(#[trigger] args[i], s)),
{
    let t = Ty::Named { decl: container_decl(c), scope: Scope::Unlimited, args };
    assert forall|i: int| 0 <= i < args.len() implies param_scope(container_decl(c), i, s) == s by {
    }
    if forall|i: int| 0 <= i < args.len() ==> bound_at(#[trigger] args[i], s) {
        assert forall|i: int| 0 <= i < args.len() implies bound_at(
            args[i],
            param_scope(container_decl(c), i, s),
        ) by {
            assert(param_scope(container_decl(c), i, s) == s);
        }
    }
}

} // verus!
