//! Handles: values whose concrete type is known only through their identity, and the
//! downcast protocol that recovers it.
use vstd::prelude::*;
use std::rc::Rc;
use std::sync::Arc;
use crate::identity::{Tid, adjust_id};
use crate::tag::{ShapeTag, Tag, lemma_adjusted_apart, lemma_tag_injective, tag_of};
use crate::term::{Scope, Ty, TypeTerm, bound_at, erase, lemma_erase_rigid};

verus! {

/// The downcast protocol on a handle, built on tag equality alone.
pub trait TidExt: Tid + Sized {
    /// What the handle holds.
    type Payload;

    /// The value behind the handle.
    spec fn payload(&self) -> Self::Payload;

    /// Whether the type behind the handle is `target`, up to scopes: its self tag equals
    /// the static tag of `target`.
    fn is(&self, target: &TypeTerm) -> (r: bool)
        ensures
            r == (self.tag() == tag_of(target@)),
    {
        let mine = self.self_id();
        let theirs = ShapeTag::of_term(target);
        mine.same_as(&theirs)
    }

    /// The value, seen as a `target`, when the handle holds one. The target must be bound to
    /// the handle's own scope, so the result never outlives what the handle guarantees.
    fn downcast_ref(&self, target: &TypeTerm) -> (r: Option<&Self::Payload>)
        requires
            bound_at(target@, self.scope()),
        ensures
            r is Some <==> self.tag() == tag_of(target@),
            r matches Some(v) ==> *v == self.payload(),
    ;

    /// The value, mutably, when the handle holds a `target`.
    fn downcast_mut(&mut self, target: &TypeTerm) -> (r: Option<&mut Self::Payload>)
        requires
            bound_at(target@, old(self).scope()),
        ensures
            r is Some <==> old(self).tag() == tag_of(target@),
            r matches Some(v) ==> *v == old(self).payload(),
            r matches Some(v) ==> final(self).payload() == *final(v),
            final(self).concrete() == old(self).concrete(),
            final(self).tag() == old(self).tag(),
            final(self).scope() == old(self).scope(),
            old(self).wf() ==> final(self).wf(),
            r is None ==> *final(self) == *old(self),
    ;

    /// The boxed handle, now known to hold a `target`; or the same box back.
    fn downcast_box(this: Box<Self>, target: &TypeTerm) -> (r: Result<Box<Self>, Box<Self>>)
        requires
            bound_at(target@, this.scope()),
        ensures
            r is Ok <==> this.tag() == tag_of(target@),
            r matches Ok(b) ==> b == this,
            r matches Err(b) ==> b == this,
    {
        if this.is(target) {
            Ok(this)
        } else {
            Err(this)
        }
    }

    /// The shared handle, now known to hold a `target`; or the same pointer back.
    fn downcast_rc(this: Rc<Self>, target: &TypeTerm) -> (r: Result<Rc<Self>, Rc<Self>>)
        requires
            bound_at(target@, this.scope()),
        ensures
            r is Ok <==> this.tag() == tag_of(target@),
            r matches Ok(b) ==> b == this,
            r matches Err(b) ==> b == this,
    {
        if this.is(target) {
            Ok(this)
        } else {
            Err(this)
        }
    }

    /// The atomically shared handle, now known to hold a `target`; or the same pointer back.
    fn downcast_arc(this: Arc<Self>, target: &TypeTerm) -> (r: Result<Arc<Self>, Arc<Self>>)
        requires
            bound_at(target@, this.scope()),
        ensures
            r is Ok <==> this.tag() == tag_of(target@),
            r matches Ok(b) ==> b == this,
            r matches Err(b) ==> b == this,
    {
        if this.is(target) {
            Ok(this)
        } else {
            Err(this)
        }
    }

    /// The value itself when the handle holds a `target`; otherwise the handle, untouched.
    fn downcast_move(self, target: &TypeTerm) -> (r: Result<Self::Payload, Self>)
        requires
            bound_at(target@, self.scope()),
        ensures
            r is Ok <==> self.tag() == tag_of(target@),
            r matches Ok(v) ==> v == self.payload(),
            r matches Err(h) ==> h == self,
    ;
}

/// Downcasts on a value known by the host's own identity of its type. These are
/// associated functions, so that they are never confused with the methods of [`TidExt`].
pub trait AnyExt: Sized {
    /// What the handle holds.
    type Payload;

    /// The host identity of the type behind the handle.
    spec fn host_tag(&self) -> Tag;

    /// The value behind the handle.
    spec fn payload(&self) -> Self::Payload;

    /// Computes the host identity.
    fn host_id(&self) -> (r: ShapeTag)
        ensures
            r@ == self.host_tag(),
    ;

    /// Whether the type behind the handle is `target`.
    fn is_type(this: &Self, target: &TypeTerm) -> (r: bool)
        ensures
            r == (this.host_tag() == Tag::Host(erase(target@))),
    {
        let mine = this.host_id();
        let theirs = ShapeTag::host(target);
        mine.same_as(&theirs)
    }

    /// The value, when the handle holds a `target`.
    fn downcast_ref<'b>(this: &'b Self, target: &TypeTerm) -> (r: Option<&'b Self::Payload>)
        requires
            bound_at(target@, Scope::Unlimited),
        ensures
            r is Some <==> this.host_tag() == Tag::Host(erase(target@)),
            r matches Some(v) ==> *v == this.payload(),
    ;

    /// The value, mutably, when the handle holds a `target`.
    fn downcast_mut<'b>(this: &'b mut Self, target: &TypeTerm) -> (r: Option<&'b mut Self::Payload>)
        requires
            bound_at(target@, Scope::Unlimited),
        ensures
            r is Some <==> old(this).host_tag() == Tag::Host(erase(target@)),
            r matches Some(v) ==> *v == old(this).payload(),
            r matches Some(v) ==> final(this).payload() == *final(v),
            final(this).host_tag() == old(this).host_tag(),
            r is None ==> *final(this) == *old(this),
    ;

    /// The boxed handle, now known to hold a `target`; or the same box back.
    fn downcast_box(this: Box<Self>, target: &TypeTerm) -> (r: Result<Box<Self>, Box<Self>>)
        requires
            bound_at(target@, Scope::Unlimited),
        ensures
            r is Ok <==> this.host_tag() == Tag::Host(erase(target@)),
            r matches Ok(b) ==> b == this,
            r matches Err(b) ==> b == this,
    {
        if Self::is_type(&*this, target) {
            Ok(this)
        } else {
            Err(this)
        }
    }

    /// The shared handle, now known to hold a `target`; or the same pointer back.
    fn downcast_rc(this: Rc<Self>, target: &TypeTerm) -> (r: Result<Rc<Self>, Rc<Self>>)
        requires
            bound_at(target@, Scope::Unlimited),
        ensures
            r is Ok <==> this.host_tag() == Tag::Host(erase(target@)),
            r matches Ok(b) ==> b == this,
            r matches Err(b) ==> b == this,
    {
        if Self::is_type(&*this, target) {
            Ok(this)
        } else {
            Err(this)
        }
    }

    /// The atomically shared handle, now known to hold a `target`; or the same pointer back.
    fn downcast_arc(this: Arc<Self>, target: &TypeTerm) -> (r: Result<Arc<Self>, Arc<Self>>)
        requires
            bound_at(target@, Scope::Unlimited),
        ensures
            r is Ok <==> this.host_tag() == Tag::Host(erase(target@)),
            r matches Ok(b) ==> b == this,
            r matches Err(b) ==> b == this,
    {
        if Self::is_type(&*this, target) {
            Ok(this)
        } else {
            Err(this)
        }
    }

    /// The value itself when the handle holds a `target`; otherwise the handle, untouched.
    fn downcast_move(this: Self, target: &TypeTerm) -> (r: Result<Self::Payload, Self>)
        requires
            bound_at(target@, Scope::Unlimited),
        ensures
            r is Ok <==> this.host_tag() == Tag::Host(erase(target@)),
            r matches Ok(v) ==> v == this.payload(),
            r matches Err(h) ==> h == this,
    ;
}

/// A value of a type with unlimited scope, known by the host's own identity of its type.
pub struct DynAny<V> {
    ty: TypeTerm,
    value: V,
}

impl<V> DynAny<V> {
    /// The type of the value.
    pub closed spec fn concrete(&self) -> Ty {
        self.ty@
    }

    /// The handle is well formed: its type has unlimited scope.
    pub closed spec fn wf(&self) -> bool {
        bound_at(self.ty@, Scope::Unlimited)
    }

    /// Wraps `value`, of the unlimited-scope type `ty`.
    pub fn new(ty: TypeTerm, value: V) -> (r: DynAny<V>)
        requires
            bound_at(ty@, Scope::Unlimited),
        ensures
            r.wf(),
            r.concrete() == ty@,
            r.payload() == value,
    {
        DynAny { ty, value }
    }
}

/// A value whose concrete type is known only through its self tag, bound to a validity
/// scope: either created directly from a scope-bound type, or from a host value through
/// the bridge, in which case its tag is that of the adjuster wrapper.
pub struct DynTid<V> {
    ty: TypeTerm,
    via_host: bool,
    scope: Scope,
    value: V,
}

impl<V> DynTid<V> {
    /// The value entered through the host bridge.
    pub closed spec fn via_host(&self) -> bool {
        self.via_host
    }

    /// Wraps `value`, of the type `ty` bound to `scope`.
    pub fn new(ty: TypeTerm, scope: Scope, value: V) -> (r: DynTid<V>)
        requires
            bound_at(ty@, scope),
        ensures
            r.wf(),
            !r.via_host(),
            r.concrete() == ty@,
            r.scope() == scope,
            r.payload() == value,
            r.tag() == tag_of(ty@),
    {
        DynTid { ty, via_host: false, scope, value }
    }

    /// Brings a host value into the scoped identity system, bound to `scope`; its tag becomes
    /// that of the adjuster wrapper around its type.
    pub fn from_any(a: DynAny<V>, scope: Scope) -> (r: DynTid<V>)
        requires
            a.wf(),
        ensures
            r.wf(),
            r.via_host(),
            r.concrete() == a.concrete(),
            r.scope() == scope,
            r.payload() == a.payload(),
            r.tag() == Tag::Adjusted(erase(a.concrete())),
    {
        DynTid { ty: a.ty, via_host: true, scope, value: a.value }
    }

    /// Gives the value back to the host identity system; only a handle of unlimited scope
    /// may leave.
    pub fn into_any(self) -> (r: DynAny<V>)
        requires
            self.wf(),
            self.scope() == Scope::Unlimited,
        ensures
            r.wf(),
            r.concrete() == self.concrete(),
            r.payload() == self.payload(),
    {
        DynAny { ty: self.ty, value: self.value }
    }

    /// Whether the handle came from a host value of type `target`.
    pub fn is_any(&self, target: &TypeTerm) -> (r: bool)
        ensures
            r == (self.tag() == Tag::Adjusted(erase(target@))),
    {
        let mine = self.self_id();
        let theirs = adjust_id(target);
        mine.same_as(&theirs)
    }

    /// The value, when the handle came through the bridge from a host value of type `target`.
    pub fn downcast_any_ref(&self, target: &TypeTerm) -> (r: Option<&V>)
        requires
            bound_at(target@, Scope::Unlimited),
        ensures
            r is Some <==> self.tag() == Tag::Adjusted(erase(target@)),
            r matches Some(v) ==> *v == self.payload(),
    {
        if self.is_any(target) {
            Some(&self.value)
        } else {
            None
        }
    }

    /// The value, mutably, when the handle came through the bridge from a host `target`.
    pub fn downcast_any_mut(&mut self, target: &TypeTerm) -> (r: Option<&mut V>)
        requires
            bound_at(target@, Scope::Unlimited),
        ensures
            r is Some <==> old(self).tag() == Tag::Adjusted(erase(target@)),
            r matches Some(v) ==> *v == old(self).payload(),
            r matches Some(v) ==> final(self).payload() == *final(v),
            final(self).tag() == old(self).tag(),
            final(self).scope() == old(self).scope(),
            final(self).via_host() == old(self).via_host(),
            final(self).concrete() == old(self).concrete(),
            old(self).wf() ==> final(self).wf(),
            r is None ==> *final(self) == *old(self),
    {
        if self.is_any(target) {
            Some(&mut self.value)
        } else {
            None
        }
    }

    /// The boxed host value, when the handle came through the bridge from a host `target`;
    /// or the same box back.
    pub fn downcast_any_box(this: Box<Self>, target: &TypeTerm) -> (r: Result<
        Box<DynAny<V>>,
        Box<Self>,
    >)
        requires
            this.wf(),
            bound_at(target@, Scope::Unlimited),
        ensures
            r is Ok <==> this.tag() == Tag::Adjusted(erase(target@)),
            r matches Ok(b) ==> b.wf() && b.concrete() == this.concrete() && b.payload()
                == this.payload(),
            r matches Err(b) ==> b == this,
    {
        if this.is_any(target) {
            let h = *this;
            Ok(Box::new(DynAny { ty: h.ty, value: h.value }))
        } else {
            Err(this)
        }
    }
}

impl<V> AnyExt for DynAny<V> {
    type Payload = V;

    open spec fn host_tag(&self) -> Tag {
        Tag::Host(erase(self.concrete()))
    }

    closed spec fn payload(&self) -> V {
        self.value
    }

    fn host_id(&self) -> (r: ShapeTag) {
        ShapeTag::host(&self.ty)
    }

    fn downcast_ref<'b>(this: &'b Self, target: &TypeTerm) -> (r: Option<&'b V>) {
        if Self::is_type(this, target) {
            Some(&this.value)
        } else {
            None
        }
    }

    fn downcast_mut<'b>(this: &'b mut Self, target: &TypeTerm) -> (r: Option<&'b mut V>) {
        if Self::is_type(this, target) {
            Some(&mut this.value)
        } else {
            None
        }
    }

    fn downcast_move(this: Self, target: &TypeTerm) -> (r: Result<V, Self>) {
        if Self::is_type(&this, target) {
            Ok(this.value)
        } else {
            Err(this)
        }
    }
}

impl<V> Tid for DynTid<V> {
    closed spec fn concrete(&self) -> Ty {
        self.ty@
    }

    open spec fn tag(&self) -> Tag {
        if self.via_host() {
            Tag::Adjusted(erase(self.concrete()))
        } else {
            tag_of(self.concrete())
        }
    }

    closed spec fn scope(&self) -> Scope {
        self.scope
    }

    /// A direct value's type is bound to the handle's scope, a bridged value's type has
    /// unlimited scope.
    closed spec fn wf(&self) -> bool {
        if self.via_host {
            bound_at(self.ty@, Scope::Unlimited)
        } else {
            bound_at(self.ty@, self.scope)
        }
    }

    fn bound_scope(&self) -> (r: Scope) {
        self.scope
    }

    fn self_id(&self) -> (r: ShapeTag) {
        if self.via_host {
            adjust_id(&self.ty)
        } else {
            ShapeTag::of_term(&self.ty)
        }
    }
}

impl<V> TidExt for DynTid<V> {
    type Payload = V;

    closed spec fn payload(&self) -> V {
        self.value
    }

    fn downcast_ref(&self, target: &TypeTerm) -> (r: Option<&V>) {
        if self.is(target) {
            Some(&self.value)
        } else {
            None
        }
    }

    fn downcast_mut(&mut self, target: &TypeTerm) -> (r: Option<&mut V>) {
        if self.is(target) {
            Some(&mut self.value)
        } else {
            None
        }
    }

    fn downcast_move(self, target: &TypeTerm) -> (r: Result<V, Self>) {
        if self.is(target) {
            Ok(self.value)
        } else {
            Err(self)
        }
    }
}

/// Reflexivity: a value wrapped directly as a scope-bound type is recognised as that type.
pub proof fn lemma_is_reflexive<V>(h: DynTid<V>, t: Ty)
    requires
        h.wf(),
        !h.via_host(),
        h.concrete() == t,
    ensures
        h.tag() == tag_of(t),
{
}

/// Scope preservation: a direct downcast (`downcast_ref`, `downcast_mut`, `downcast_move`
/// and the owned forms, whose targets must be bound to the handle's scope) succeeds only on
/// the value's own type, scopes included; the value is never seen under a scope other than
/// the one it was bound to.
pub proof fn lemma_downcast_exact<V>(h: DynTid<V>, target: Ty)
    requires
        h.wf(),
        bound_at(target, h.scope()),
        h.tag() == tag_of(target),
    ensures
        !h.via_host(),
        h.concrete() == target,
{
    if h.via_host() {
        lemma_adjusted_apart(target, erase(h.concrete()));
    } else {
        lemma_tag_injective(h.concrete(), target, h.scope(), h.scope());
        lemma_erase_rigid(h.concrete(), target, h.scope());
    }
}

/// Bridge separation: a handle that came from a host value is never recovered by a direct
/// downcast, and the bridge-aware downcast recovers it exactly at its own type; a handle
/// created directly is never recovered by the bridge-aware downcast.
pub proof fn lemma_bridge_separation<V>(h: DynTid<V>, target: Ty)
    requires
        h.wf(),
        bound_at(target, Scope::Unlimited),
    ensures
        h.via_host() ==> h.tag() != tag_of(target),
        h.via_host() ==> ((h.tag() == Tag::Adjusted(erase(target))) <==> h.concrete() == target),
        !h.via_host() ==> h.tag() != Tag::Adjusted(erase(target)),
{
    lemma_adjusted_apart(target, erase(h.concrete()));
    lemma_adjusted_apart(h.concrete(), erase(target));
    if h.via_host() && h.tag() == Tag::Adjusted(erase(target)) {
        lemma_erase_rigid(h.concrete(), target, Scope::Unlimited);
    }
}

/// A host downcast to a type of unlimited scope succeeds exactly on the value's own type.
pub proof fn lemma_host_exact<V>(a: DynAny<V>, target: Ty)
    requires
        a.wf(),
        bound_at(target, Scope::Unlimited),
    ensures
        (a.host_tag() == Tag::Host(erase(target))) <==> a.concrete() == target,
{
    if a.host_tag() == Tag::Host(erase(target)) {
        lemma_erase_rigid(a.concrete(), target, Scope::Unlimited);
    }
}

} // verus!
