//! Shape tags: the identity of a type with its scopes erased, derived from the type's
//! static substitute.
use vstd::prelude::*;
use crate::term::{Decl, DeclView, Scope, Ty, TypeTerm, bound_at, erase, is_pinned, param_scope, lemma_erase_idempotent};

verus! {

/// Mathematical form of a shape tag.
pub enum Tag {
    /// The identity the host gives a type of unlimited scope: the type itself.
    Host(Ty),
    /// A declaration's own marker, instantiated with the images of its type parameters.
    Marker { decl: DeclView, args: Seq<Tag> },
    /// The adjuster wrapper around a type of unlimited scope that entered through the
    /// host bridge.
    Adjusted(Ty),
}

/// The image of a type argument in a marker: a pinned argument stands for itself, a
/// scope-bound one for its own static substitute.
pub open spec fn arg_image(decl: DeclView, i: int, a: Ty) -> Tag {
    if is_pinned(decl, i) {
        Tag::Host(erase(a))
    } else {
        tag_of(a)
    }
}

/// The shape tag of `t`, computed from its static substitute: a type without type
/// parameters is its own substitute; a generic one becomes its declaration's marker over
/// the images of its arguments; a borrow or a capability-set handle is its own substitute.
pub open spec fn tag_of(t: Ty) -> Tag
    decreases t,
{
    match t {
        Ty::Named { decl, scope, args } => {
            if decl.pinned.len() == 0 {
                Tag::Host(erase(t))
            } else {
                Tag::Marker {
                    decl,
                    args: Seq::new(
                        args.len(),
                        |i: int|
                            if 0 <= i < args.len() {
                                if is_pinned(decl, i) {
                                    Tag::Host(erase(args[i]))
                                } else {
                                    tag_of(args[i])
                                }
                            } else {
                                Tag::Host(erase(args[i]))
                            },
                    ),
                }
            }
        },
        _ => Tag::Host(erase(t)),
    }
}

#[derive(Debug)]
enum TagNode {
    Host(TypeTerm),
    Marker { decl: Decl, args: Vec<TagNode> },
    Adjusted(TypeTerm),
}

spec fn node_view(n: TagNode) -> Tag
    decreases n,
{
    match n {
        TagNode::Host(t) => Tag::Host(t@),
        TagNode::Marker { decl, args } => Tag::Marker {
            decl: decl@,
            args: Seq::new(
                args@.len(),
                |i: int|
                    if 0 <= i < args@.len() {
                        node_view(args@[i])
                    } else {
                        Tag::Host(t_empty())
                    },
            ),
        },
        TagNode::Adjusted(t) => Tag::Adjusted(t@),
    }
}

spec fn t_empty() -> Ty {
    Ty::Object { name: Seq::empty(), scope: Scope::Unlimited }
}

/// An opaque identifier of a type's shape; two tags can only be compared for equality.
#[derive(Debug)]
pub struct ShapeTag {
    node: TagNode,
}

impl View for ShapeTag {
    type V = Tag;

    closed spec fn view(&self) -> Tag {
        node_view(self.node)
    }
}

fn node_of(t: &TypeTerm) -> (r: TagNode)
    ensures
        node_view(r) == tag_of(t@),
    decreases t,
{
    match t {
        TypeTerm::Named { decl, scope, args } => {
            if decl.pinned.len() == 0 {
                return TagNode::Host(t.erased());
            }
            let mut out: Vec<TagNode> = Vec::new();
            let mut i: usize = 0;
            while i < args.len()
                invariant
                    *t == (TypeTerm::Named { decl: *decl, scope: *scope, args: *args }),
                    i <= args@.len(),
                    out@.len() == i,
                    forall|j: int|
                        0 <= j < i ==> node_view(#[trigger] out@[j]) == arg_image(decl@, j, args@[j]@),
                decreases args@.len() - i,
            {
                proof {
                    assert(decreases_to!(*t => t->Named_args));
                }
                let image = if i < decl.pinned.len() && decl.pinned[i] {
                    TagNode::Host(args[i].erased())
                } else {
                    node_of(&args[i])
                };
                out.push(image);
                i = i + 1;
            }
            let r = TagNode::Marker { decl: decl.clone(), args: out };
            assert(node_view(r)->Marker_args =~= tag_of(t@)->Marker_args);
            r
        },
        _ => TagNode::Host(t.erased()),
    }
}

fn node_equal(a: &TagNode, b: &TagNode) -> (r: bool)
    ensures
        r == (node_view(*a) == node_view(*b)),
    decreases a,
{
    match (a, b) {
        (TagNode::Host(x), TagNode::Host(y)) => x.same_as(y),
        (TagNode::Adjusted(x), TagNode::Adjusted(y)) => x.same_as(y),
        (TagNode::Marker { decl: d1, args: a1 }, TagNode::Marker { decl: d2, args: a2 }) => {
            if !d1.same_as(d2) || a1.len() != a2.len() {
                assert(node_view(*a)->Marker_args.len() == a1@.len());
                assert(node_view(*b)->Marker_args.len() == a2@.len());
                return false;
            }
            let mut i: usize = 0;
            while i < a1.len()
                invariant
                    *a == (TagNode::Marker { decl: *d1, args: *a1 }),
                    *b == (TagNode::Marker { decl: *d2, args: *a2 }),
                    a1@.len() == a2@.len(),
                    i <= a1@.len(),
                    forall|j: int| 0 <= j < i ==> node_view(a1@[j]) == node_view(a2@[j]),
                decreases a1@.len() - i,
            {
                proof {
                    assert(decreases_to!(*a => a->Marker_args));
                }
                if !node_equal(&a1[i], &a2[i]) {
                    assert(node_view(*a)->Marker_args[i as int] != node_view(
                        *b,
                    )->Marker_args[i as int]);
                    return false;
                }
                i = i + 1;
            }
            assert(node_view(*a)->Marker_args =~= node_view(*b)->Marker_args);
            true
        },
        _ => false,
    }
}

impl ShapeTag {
    /// The tag of `t`'s static substitute.
    pub fn of_term(t: &TypeTerm) -> (r: ShapeTag)
        ensures
            r@ == tag_of(t@),
    {
        ShapeTag { node: node_of(t) }
    }

    /// The host identity of `t`: the type itself, scopes erased.
    pub fn host(t: &TypeTerm) -> (r: ShapeTag)
        ensures
            r@ == Tag::Host(erase(t@)),
    {
        ShapeTag { node: TagNode::Host(t.erased()) }
    }

    /// The tag of the adjuster wrapper around `t`.
    pub fn adjusted(t: &TypeTerm) -> (r: ShapeTag)
        ensures
            r@ == Tag::Adjusted(erase(t@)),
    {
        ShapeTag { node: TagNode::Adjusted(t.erased()) }
    }

    /// Whether two tags are equal.
    pub fn same_as(&self, other: &ShapeTag) -> (r: bool)
        ensures
            r == (self@ == other@),
    {
        node_equal(&self.node, &other.node)
    }
}

impl PartialEq for ShapeTag {
    fn eq(&self, other: &ShapeTag) -> (r: bool) {
        self.same_as(other)
    }
}

impl vstd::std_specs::cmp::PartialEqSpecImpl for ShapeTag {
    open spec fn obeys_eq_spec() -> bool {
        true
    }

    open spec fn eq_spec(&self, other: &ShapeTag) -> bool {
        self@ == other@
    }
}

/// A tag is a function of the shape alone: scopes never enter it.
pub proof fn lemma_tag_of_shape(t: Ty)
    ensures
        tag_of(erase(t)) == tag_of(t),
    decreases t,
{
    lemma_erase_idempotent(t);
    match t {
        Ty::Named { decl, scope, args } => {
            if decl.pinned.len() != 0 {
                let e = erase(t);
                assert forall|i: int| 0 <= i < args.len() implies arg_image(
                    decl,
                    i,
                    e->Named_args[i],
                ) == arg_image(decl, i, args[i]) by {
                    lemma_erase_idempotent(args[i]);
                    lemma_tag_of_shape(args[i]);
                }
                assert(tag_of(e)->Marker_args =~= tag_of(t)->Marker_args);
            }
        },
        _ => {},
    }
}

/// Scope-bound types with equal tags have the same shape.
pub proof fn lemma_tag_injective(t: Ty, u: Ty, s1: Scope, s2: Scope)
    requires
        bound_at(t, s1),
        bound_at(u, s2),
        tag_of(t) == tag_of(u),
    ensures
        erase(t) == erase(u),
    decreases t,
{
    match t {
        Ty::Named { decl, scope, args } => {
            if decl.pinned.len() != 0 {
                assert(tag_of(u) is Marker);
                assert(u is Named);
                let ua = u->Named_args;
                assert(u->Named_decl == decl);
                assert forall|i: int| 0 <= i < args.len() implies erase(args[i]) == erase(
                    ua[i],
                ) by {
                    assert(ua.len() == args.len());
                    assert(tag_of(t)->Marker_args[i] == tag_of(u)->Marker_args[i]);
                    assert(tag_of(t)->Marker_args[i] == arg_image(decl, i, args[i]));
                    assert(tag_of(u)->Marker_args[i] == arg_image(decl, i, ua[i]));
                    assert(bound_at(args[i], param_scope(decl, i, s1)));
                    assert(bound_at(ua[i], param_scope(decl, i, s2)));
                    if !is_pinned(decl, i) {
                        lemma_tag_injective(args[i], ua[i], s1, s2);
                    }
                }
                assert(erase(t)->Named_args =~= erase(u)->Named_args);
            } else {
                lemma_erase_idempotent(t);
            }
        },
        _ => {},
    }
}

/// Exclusivity: two scope-bound types have equal shape tags exactly when they have the same
/// shape, that is, when they are the same type once their scopes are erased. Types that
/// differ only in their scopes share a tag; types of different shape never do.
pub proof fn lemma_exclusivity(t: Ty, u: Ty, s1: Scope, s2: Scope)
    requires
        bound_at(t, s1),
        bound_at(u, s2),
    ensures
        (tag_of(t) == tag_of(u)) <==> (erase(t) == erase(u)),
{
    if tag_of(t) == tag_of(u) {
        lemma_tag_injective(t, u, s1, s2);
    }
    if erase(t) == erase(u) {
        lemma_tag_of_shape(t);
        lemma_tag_of_shape(u);
    }
}

/// Generic substitution: two instances of a declaration whose single type parameter is
/// scope-bound have equal tags exactly when their arguments have equal tags, whatever
/// scopes the instances carry.
pub proof fn lemma_generic_substitution(decl: DeclView, s1: Scope, s2: Scope, a: Ty, b: Ty)
    requires
        decl.pinned == seq![false],
    ensures
        (tag_of(Ty::Named { decl, scope: s1, args: seq![a] }) == tag_of(
            Ty::Named { decl, scope: s2, args: seq![b] },
        )) <==> (tag_of(a) == tag_of(b)),
{
    let x = Ty::Named { decl, scope: s1, args: seq![a] };
    let y = Ty::Named { decl, scope: s2, args: seq![b] };
    assert(tag_of(x)->Marker_args[0] == tag_of(a));
    assert(tag_of(y)->Marker_args[0] == tag_of(b));
    if tag_of(a) == tag_of(b) {
        assert(tag_of(x)->Marker_args =~= tag_of(y)->Marker_args);
    }
}

/// No static substitute is an adjuster wrapper: the tags of values that entered through
/// the host bridge never meet the tags of types.
pub proof fn lemma_adjusted_apart(t: Ty, u: Ty)
    ensures
        tag_of(t) != Tag::Adjusted(u),
{
}

} // verus!
