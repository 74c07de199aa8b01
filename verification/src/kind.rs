//! Kind descriptors and kind bundles.
//!
//! A kind is declared once, as a descriptor value naming the kind's marker
//! id, the component ids a caller must supply (the mandatory set) and the
//! components the kind populates on its own (the default set). A kind bundle
//! is the ephemeral, composite insertable unit that establishes the kind on
//! an entity: the marker, freshly built defaults, and the supplied mandatory
//! components, inserted together.

use vstd::prelude::*;

use crate::store::comp_ids;
use crate::store::comps_view;
use crate::store::lemma_comps_view_push;
use crate::store::Component;
use crate::store::ComponentView;
use crate::store::Value;
use crate::store::ValueView;

verus! {

/// The marker component recording membership in the kind with id `kind_id`.
pub open spec fn marker_comp(kind_id: int) -> ComponentView {
    ComponentView { id: kind_id, value: ValueView::Flag }
}

/// The flattened component sequence a kind bundle inserts: the kind's
/// marker, then its default components, then the supplied mandatory
/// components.
pub open spec fn kind_bundle_view(
    kind_id: int,
    defaults: Seq<ComponentView>,
    mandatory: Seq<ComponentView>,
) -> Seq<ComponentView> {
    seq![marker_comp(kind_id)] + defaults + mandatory
}

/// A kind of entity with an expected set of components.
///
/// The descriptor declares which component ids a caller must supply to
/// construct the kind and which components every entity of the kind receives
/// by default. Overlapping mandatory and default ids are not rejected; they
/// are an authoring mistake this layer leaves to review.
pub struct EntityKind {
    id: u64,
    mandatory: Vec<u64>,
    defaults: Vec<Component>,
}

impl EntityKind {
    /// The id of the kind's marker component, which identifies the kind.
    pub closed spec fn kind_id(self) -> int {
        self.id as int
    }

    /// The component ids a caller must supply to construct this kind.
    pub closed spec fn mandatory_ids(self) -> Seq<int> {
        self.mandatory@.map(|i: int, c: u64| c as int)
    }

    /// The components every entity of this kind receives with no caller
    /// input.
    pub closed spec fn defaults_view(self) -> Seq<ComponentView> {
        comps_view(self.defaults@)
    }

    /// Declares a kind: its marker id, its mandatory component ids and its
    /// default components. Applications call this once per kind.
    pub fn new(id: u64, mandatory: Vec<u64>, defaults: Vec<Component>) -> (r: EntityKind)
        ensures
            r.kind_id() == id as int,
            r.mandatory_ids() == mandatory@.map(|i: int, c: u64| c as int),
            r.defaults_view() == comps_view(defaults@),
    {
        EntityKind { id, mandatory, defaults }
    }

    /// The declared mandatory component ids.
    pub fn mandatory_components(&self) -> (r: &Vec<u64>)
        ensures
            r@.map(|i: int, c: u64| c as int) == self.mandatory_ids(),
    {
        &self.mandatory
    }

    /// The declared default components.
    pub fn default_components(&self) -> (r: &Vec<Component>)
        ensures
            comps_view(r@) == self.defaults_view(),
    {
        &self.defaults
    }

    /// The raw marker id of this kind.
    pub fn id(&self) -> (r: u64)
        ensures
            r as int == self.kind_id(),
    {
        self.id
    }

    /// A fresh marker component for this kind.
    pub fn marker(&self) -> (r: Component)
        ensures
            r@ == marker_comp(self.kind_id()),
    {
        Component::new(self.id, Value::Flag)
    }
}

/// The composite bundle inserted into every entity constructed as a given
/// kind: the kind's marker, its freshly built default components and the
/// mandatory components the caller supplied. A bundle is built immediately
/// before insertion and consumed by it.
pub struct KindBundle {
    kind: u64,
    components: Vec<Component>,
}

impl KindBundle {
    /// The id of the kind this bundle establishes.
    pub closed spec fn kind_id(self) -> int {
        self.kind as int
    }

    /// The flattened components this bundle inserts, in insertion order.
    pub closed spec fn components_view(self) -> Seq<ComponentView> {
        comps_view(self.components@)
    }

    /// Creates a new bundle for `kind` from the kind's mandatory components.
    /// The default components and the marker are built fresh; the caller
    /// supplies exactly the declared mandatory components.
    pub fn new(kind: &EntityKind, bundle: Vec<Component>) -> (r: KindBundle)
        requires
            comp_ids(comps_view(bundle@)) == kind.mandatory_ids(),
        ensures
            r.kind_id() == kind.kind_id(),
            r.components_view() == kind_bundle_view(
                kind.kind_id(),
                kind.defaults_view(),
                comps_view(bundle@),
            ),
    {
        let mut components: Vec<Component> = Vec::new();
        components.push(kind.marker());
        proof {
            assert(comps_view(components@) =~= seq![marker_comp(kind.kind_id())]);
        }
        let mut i: usize = 0;
        while i < kind.defaults.len()
            invariant
                i <= kind.defaults@.len(),
                comps_view(components@) == seq![marker_comp(kind.kind_id())] + comps_view(
                    kind.defaults@.take(i as int),
                ),
            decreases kind.defaults@.len() - i,
        {
            let ghost c0 = components@;
            let c = kind.defaults[i].clone();
            components.push(c);
            proof {
                assert(kind.defaults@.take(i as int + 1) =~= kind.defaults@.take(i as int).push(
                    kind.defaults@[i as int],
                ));
                lemma_comps_view_push(c0, kind.defaults@[i as int]);
                lemma_comps_view_push(kind.defaults@.take(i as int), kind.defaults@[i as int]);
                assert(comps_view(components@) =~= seq![marker_comp(kind.kind_id())] + comps_view(
                    kind.defaults@.take(i as int + 1),
                ));
            }
            i = i + 1;
        }
        proof {
            assert(kind.defaults@.take(kind.defaults@.len() as int) =~= kind.defaults@);
        }
        let mut mandatory = bundle;
        let ghost m0 = mandatory@;
        components.append(&mut mandatory);
        proof {
            assert(comps_view(components@) =~= seq![marker_comp(kind.kind_id())] + comps_view(
                kind.defaults@,
            ) + comps_view(m0));
        }
        KindBundle { kind: kind.id, components }
    }

    /// The raw id of the kind this bundle establishes.
    pub fn kind(&self) -> (r: u64)
        ensures
            r as int == self.kind_id(),
    {
        self.kind
    }

    /// Consumes the bundle into its flattened components, for insertion.
    pub fn into_components(self) -> (r: Vec<Component>)
        ensures
            comps_view(r@) == self.components_view(),
    {
        self.components
    }

    /// Flattens another bundle into this one, composing nested kinds: the
    /// result inserts this bundle's components followed by the other's, so
    /// one insertion establishes both kinds.
    pub fn nest(self, other: KindBundle) -> (r: KindBundle)
        ensures
            r.kind_id() == self.kind_id(),
            r.components_view() == self.components_view() + other.components_view(),
    {
        let mut components = self.components;
        let mut tail = other.components;
        let ghost c0 = components@;
        let ghost t0 = tail@;
        components.append(&mut tail);
        proof {
            assert(comps_view(components@) =~= comps_view(c0) + comps_view(t0));
        }
        KindBundle { kind: self.kind, components }
    }
}

impl Clone for KindBundle {
    /// Cloning a bundle re-derives an equal component sequence, marker and
    /// defaults included, for insertion into a different entity.
    fn clone(&self) -> (r: Self)
        ensures
            r.kind_id() == self.kind_id(),
            r.components_view() == self.components_view(),
    {
        let components = self.components.clone();
        proof {
            assert(comps_view(components@) =~= comps_view(self.components@));
        }
        KindBundle { kind: self.kind, components }
    }
}

} // verus!
