//! Entities: an identifier and an ordered list of components, queried by
//! the first component of a kind.

use vstd::prelude::*;

use vstd::arithmetic::div_mod::{lemma_add_mod_noop, lemma_small_mod};
use vstd::utf8::encode_utf8;

use crate::components::audio::{audio_from, AudioComponent};
use crate::components::physics::PhysicsComponent;
use crate::components::position::{position_from, PositionComponent};
use crate::components::sprite::{sprite_from, SpriteComponent};
use crate::components::{kind_of, Component, ComponentKind};
use crate::fixed::SCALE;
use crate::markup::{attribute, last_value, text_is, SceneElement};

pub use crate::systems::collision::{Axis, Edge};

verus! {

/// A simulated object.
#[derive(Clone, Debug)]
pub struct Entity {
    pub id: u32,
    pub components: Vec<Component>,
}

/// Index of the first component of `kind` at or after `i`.
pub open spec fn find_from(cs: Seq<Component>, kind: ComponentKind, i: int) -> Option<int>
    decreases cs.len() - i,
{
    if i < 0 || i >= cs.len() {
        None
    } else if kind_of(cs[i]) == kind {
        Some(i)
    } else {
        find_from(cs, kind, i + 1)
    }
}

/// Index of the first component of `kind`: the one the systems honour.
pub open spec fn find_kind(cs: Seq<Component>, kind: ComponentKind) -> Option<int> {
    find_from(cs, kind, 0)
}

/// The list holds a component of `kind`.
pub open spec fn has_kind(cs: Seq<Component>, kind: ComponentKind) -> bool {
    find_kind(cs, kind) is Some
}

/// The first position component of the list, if any.
pub open spec fn position_in(cs: Seq<Component>) -> Option<PositionComponent> {
    match find_kind(cs, ComponentKind::Position) {
        Some(i) => match cs[i] {
            Component::Position(p) => Some(p),
            _ => None,
        },
        None => None,
    }
}

/// The first physics component of the list, if any.
pub open spec fn physics_in(cs: Seq<Component>) -> Option<PhysicsComponent> {
    match find_kind(cs, ComponentKind::Physics) {
        Some(i) => match cs[i] {
            Component::Physics(p) => Some(p),
            _ => None,
        },
        None => None,
    }
}

/// The first position and physics components are well formed.
pub open spec fn components_wf(cs: Seq<Component>) -> bool {
    &&& (position_in(cs) matches Some(p) ==> p.wf())
    &&& (physics_in(cs) matches Some(q) ==> q.wf())
}

/// What `find_from` returns: the first match at or after `i`, or none.
pub proof fn lemma_find_from(cs: Seq<Component>, kind: ComponentKind, i: int)
    requires
        0 <= i <= cs.len(),
    ensures
        match find_from(cs, kind, i) {
            Some(j) => i <= j < cs.len() && kind_of(cs[j]) == kind && forall|m: int|
                i <= m < j ==> kind_of(#[trigger] cs[m]) != kind,
            None => forall|m: int| i <= m < cs.len() ==> kind_of(#[trigger] cs[m]) != kind,
        },
    decreases cs.len() - i,
{
    if i < cs.len() && kind_of(cs[i]) != kind {
        lemma_find_from(cs, kind, i + 1);
    }
}

/// Replacing a component by one of the same kind keeps every lookup.
pub proof fn lemma_find_same_kind(cs: Seq<Component>, k: int, c: Component, kind: ComponentKind)
    requires
        0 <= k < cs.len(),
        kind_of(c) == kind_of(cs[k]),
    ensures
        find_kind(cs.update(k, c), kind) == find_kind(cs, kind),
{
    lemma_find_from(cs, kind, 0);
    lemma_find_from(cs.update(k, c), kind, 0);
    let a = find_kind(cs.update(k, c), kind);
    let b = find_kind(cs, kind);
    if a != b {
        match (a, b) {
            (Some(x), Some(y)) => {
                if x < y {
                    assert(kind_of(cs[x]) == kind);
                } else {
                    assert(kind_of(cs.update(k, c)[y]) == kind);
                }
            },
            (Some(x), None) => {
                assert(kind_of(cs[x]) == kind);
            },
            (None, Some(y)) => {
                assert(kind_of(cs.update(k, c)[y]) == kind);
            },
            (None, None) => {},
        }
    }
}

/// Sum of the bytes of `b`.
pub open spec fn byte_sum(b: Seq<u8>) -> int
    decreases b.len(),
{
    if b.len() == 0 {
        0
    } else {
        byte_sum(b.drop_last()) + b.last()
    }
}

/// The identifier an `id` attribute gives: the sum of its bytes, wrapped
/// to a byte.
pub open spec fn id_of(t: Seq<char>) -> u32 {
    (byte_sum(encode_utf8(t)) % 256) as u32
}

/// The component one element of a description gives, by its tag name.
pub open spec fn element_component(e: SceneElement) -> Option<Component> {
    if e.tag@ == "audio"@ {
        Some(audio_from(e.attributes@))
    } else if e.tag@ == "position"@ {
        position_from(e.attributes@)
    } else if e.tag@ == "sprite"@ {
        Some(sprite_from(e.children@, e.texture))
    } else if e.tag@ == "physics"@ {
        Some(
            Component::Physics(
                PhysicsComponent {
                    mass: SCALE,
                    acceleration: (0, 0),
                    velocity: (0, 0),
                    friction: (SCALE / 2) as i64,
                    bounciness: SCALE,
                },
            ),
        )
    } else {
        None
    }
}

/// The components a list of elements gives, in order.
pub open spec fn elements_components(es: Seq<SceneElement>) -> Seq<Component>
    decreases es.len(),
{
    if es.len() == 0 {
        Seq::empty()
    } else {
        match element_component(es.last()) {
            Some(c) => elements_components(es.drop_last()).push(c),
            None => elements_components(es.drop_last()),
        }
    }
}

/// The identifier of the last element with an `id` attribute, or zero.
pub open spec fn elements_id(es: Seq<SceneElement>) -> u32
    decreases es.len(),
{
    if es.len() == 0 {
        0
    } else {
        match last_value(es.last().attributes@, "id"@) {
            Some(t) => id_of(t@),
            None => elements_id(es.drop_last()),
        }
    }
}

/// The identifier text `s` gives.
pub fn id_from_text(s: &str) -> (r: u32)
    ensures
        r == id_of(s@),
{
    let b = s.as_bytes();
    assert(b@ == encode_utf8(s@));
    let mut acc: u32 = 0;
    let mut i: usize = 0;
    assert(b@.take(0) =~= Seq::<u8>::empty());
    while i < b.len()
        invariant
            i <= b@.len(),
            b@ == encode_utf8(s@),
            acc < 256,
            acc == byte_sum(b@.take(i as int)) % 256,
        decreases b@.len() - i,
    {
        assert(b@.take(i + 1).drop_last() =~= b@.take(i as int));
        proof {
            lemma_add_mod_noop(byte_sum(b@.take(i as int)), b@[i as int] as int, 256);
            lemma_small_mod(b@[i as int] as nat, 256);
        }
        acc = (acc + b[i] as u32) % 256;
        i = i + 1;
    }
    assert(b@.take(b@.len() as int) =~= b@);
    acc
}

impl Entity {
    /// The entity a list of description elements gives: its identifier from
    /// the last `id` attribute, and one component for each `audio`,
    /// `position` (when its attributes are valid), `sprite` and `physics`
    /// element, in order.
    pub fn from_xml(elements: Vec<SceneElement>) -> (e: Entity)
        ensures
            e.id == elements_id(elements@),
            e.components@ == elements_components(elements@),
    {
        let ghost es = elements@;
        let mut elements = elements;
        let mut id: u32 = 0;
        let mut components: Vec<Component> = Vec::new();
        let mut i: usize = 0;
        assert(es.take(0) =~= Seq::<SceneElement>::empty());
        while i < elements.len()
            invariant
                elements@.len() == es.len(),
                i <= es.len(),
                forall|k: int| i <= k < es.len() ==> #[trigger] elements@[k] == es[k],
                id == elements_id(es.take(i as int)),
                components@ == elements_components(es.take(i as int)),
            decreases es.len() - i,
        {
            let ghost el = es[i as int];
            assert(es.take(i + 1).drop_last() =~= es.take(i as int));
            assert(es.take(i + 1).last() == el);
            assert(elements@[i as int] == el);
            if let Some(t) = attribute(&elements[i].attributes, "id") {
                id = id_from_text(t.as_str());
            }
            let tag = elements[i].tag.clone();
            if text_is(tag.as_str(), "audio") {
                components.push(AudioComponent::from_xml(&elements[i].attributes));
            } else if text_is(tag.as_str(), "position") {
                if let Some(c) = PositionComponent::from_xml(&elements[i].attributes) {
                    components.push(c);
                }
            } else if text_is(tag.as_str(), "sprite") {
                let mut texture: Option<Vec<u8>> = None;
                std::mem::swap(&mut elements[i].texture, &mut texture);
                components.push(SpriteComponent::from_xml(&elements[i].children, texture));
            } else if text_is(tag.as_str(), "physics") {
                components.push(PhysicsComponent::from_xml());
            }
            i = i + 1;
        }
        assert(es.take(es.len() as int) =~= es);
        Entity { id, components }
    }

    /// An entity with the given identifier and components.
    pub fn new(id: u32, components: Vec<Component>) -> (e: Entity)
        ensures
            e.id == id,
            e.components@ == components@,
    {
        Entity { id, components }
    }

    /// Appends a component; earlier components of its kind keep precedence.
    pub fn add_component(&mut self, component: Component)
        ensures
            final(self).id == old(self).id,
            final(self).components@ == old(self).components@.push(component),
    {
        self.components.push(component);
    }

    /// Index of the first component of `kind`.
    pub fn find(&self, kind: ComponentKind) -> (r: Option<usize>)
        ensures
            match r {
                Some(i) => i < self.components@.len() && kind_of(self.components@[i as int]) == kind
                    && find_kind(self.components@, kind) == Some(i as int),
                None => find_kind(self.components@, kind) is None,
            },
    {
        let mut i: usize = 0;
        while i < self.components.len()
            invariant
                0 <= i <= self.components@.len(),
                find_kind(self.components@, kind) == find_from(self.components@, kind, i as int),
            decreases self.components@.len() - i,
        {
            if self.components[i].kind() == kind {
                return Some(i);
            }
            i = i + 1;
        }
        None
    }

    /// Whether the first position and physics components are well formed.
    pub fn is_well_formed(&self) -> (r: bool)
        ensures
            r == components_wf(self.components@),
    {
        let position_ok = match self.position() {
            Some(p) => p.is_well_formed(),
            None => true,
        };
        let physics_ok = match self.physics() {
            Some(q) => q.is_well_formed(),
            None => true,
        };
        position_ok && physics_ok
    }

    /// Replaces the component at index `k`.
    pub fn set_component(&mut self, k: usize, component: Component)
        requires
            k < old(self).components@.len(),
        ensures
            final(self).id == old(self).id,
            final(self).components@ == old(self).components@.update(k as int, component),
    {
        self.components[k] = component;
    }

    /// The first position component, if any.
    pub fn position(&self) -> (r: Option<PositionComponent>)
        ensures
            r == position_in(self.components@),
    {
        match self.find(ComponentKind::Position) {
            Some(i) => match &self.components[i] {
                Component::Position(p) => Some(*p),
                _ => None,
            },
            None => None,
        }
    }

    /// The first physics component, if any.
    pub fn physics(&self) -> (r: Option<PhysicsComponent>)
        ensures
            r == physics_in(self.components@),
    {
        match self.find(ComponentKind::Physics) {
            Some(i) => match &self.components[i] {
                Component::Physics(p) => Some(*p),
                _ => None,
            },
            None => None,
        }
    }
}

} // verus!
