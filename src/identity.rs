//! The identity capability: static tags of types and self tags of values.
use vstd::prelude::*;
use crate::tag::{ShapeTag, Tag, tag_of};
use crate::term::{Scope, Ty, TypeTerm, erase};

verus! {

/// Something that denotes a type and so has a static substitute, whose tag identifies the
/// type's shape.
pub trait TidAble {
    /// The tag of the static substitute.
    spec fn static_tag(&self) -> Tag;

    /// Computes the tag of the static substitute.
    fn id(&self) -> (r: ShapeTag)
        ensures
            r@ == self.static_tag(),
    ;
}

impl TidAble for TypeTerm {
    open spec fn static_tag(&self) -> Tag {
        tag_of(self@)
    }

    fn id(&self) -> (r: ShapeTag) {
        ShapeTag::of_term(self)
    }
}

/// The tag of the static substitute of the type `t` denotes.
pub fn typeid_of<T: TidAble>(t: &T) -> (r: ShapeTag)
    ensures
        r@ == t.static_tag(),
{
    t.id()
}

/// The tag that a value of the unlimited-scope type `t` carries once it has entered the
/// scoped identity system through the host bridge: the tag of the adjuster wrapper around
/// `t`, which no static substitute ever has.
pub fn adjust_id(t: &TypeTerm) -> (r: ShapeTag)
    ensures
        r@ == Tag::Adjusted(erase(t@)),
{
    ShapeTag::adjusted(t)
}

/// A value that carries its own identity: its self tag, and the validity scope it is
/// bound to.
pub trait Tid {
    /// The concrete type of the value.
    spec fn concrete(&self) -> Ty;

    /// The self tag of the value.
    spec fn tag(&self) -> Tag;

    /// The validity scope of the value.
    spec fn scope(&self) -> Scope;

    /// The value's type, scope and tag agree with one another.
    spec fn wf(&self) -> bool;

    /// Computes the self tag.
    fn self_id(&self) -> (r: ShapeTag)
        ensures
            r@ == self.tag(),
    ;

    /// The validity scope, at run time.
    fn bound_scope(&self) -> (r: Scope)
        ensures
            r == self.scope(),
    ;
}

} // verus!
