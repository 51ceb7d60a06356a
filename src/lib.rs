//! Type identity and safe downcasting for values bound to a validity scope.
//!
//! The host's own identity of types only serves values of unlimited scope. This library
//! gives values bound to a scope an identity of their own, and lets a handle whose
//! concrete type has been forgotten be downcast back to it, without ever letting a value
//! be seen under a scope other than the one it was bound to.
//!
//! Types are written out as [`TypeTerm`]s, with their scopes made explicit as
//! [`Scope`]s. Every type has a static substitute: the type itself when it has no type
//! parameters, and otherwise a marker declared afresh for its declaration, over the
//! substitutes of its arguments. The [`ShapeTag`] of that substitute identifies the type's
//! shape: two scope-bound types share a tag exactly when they differ in their scopes
//! alone. A [`DynTid`] holds a value with its concrete type, its scope and its self tag;
//! the downcasts of [`TidExt`] compare that tag with a target's static tag, and accept only
//! targets bound to the handle's own scope, so that a successful downcast has found the
//! value's exact type. Values of unlimited scope enter through [`DynAny`] and the bridge
//! [`DynTid::from_any`], which tags them with an adjuster wrapper that no type's substitute
//! ever equals, so the two identity systems never meet.
//!
//! The generator ([`create_impl`], [`my_derive`], [`impl_tid`]) computes, from a
//! declaration's generic signature, the identity implementation and the marker that serves
//! as its static substitute.
pub mod term;
pub mod tag;
pub mod identity;
pub mod handle;
pub mod generator;
pub mod containers;
pub mod render;

pub use term::{Decl, Scope, TypeTerm};
pub use tag::ShapeTag;
pub use identity::{Tid, TidAble, adjust_id, typeid_of};
pub use handle::{AnyExt, DynAny, DynTid, TidExt};
pub use generator::{
    Bound, GenError, GenericParam, Generics, ImplHeader, ParamKind, Predicate, StaticType,
    Substitute, TidImpl, create_impl, declaration, impl_tid, is_static, my_derive,
};
pub use containers::Container;
