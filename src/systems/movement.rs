//! Movement: the four direction signals become a force on every entity
//! that is moveable and has physics.

use vstd::prelude::*;

use crate::components::physics::PhysicsComponent;
use crate::components::{Component, ComponentKind};
use crate::entity::{
    components_wf, find_kind, has_kind, lemma_find_from, lemma_find_same_kind, physics_in, Entity,
};
use vstd::arithmetic::div_mod::{lemma_fundamental_div_mod, lemma_mod_pos_bound};

use crate::fixed::{checked_mul_fixed, fits_i64, fixed_mul, SCALE};
use crate::global::{Global, Signal, Signals};
use crate::systems::{ids_kept, world_of, world_wf, System};

verus! {

/// Force per axis of a full unit of input, in fixed point.
pub const MOVEMENT_STRENGTH: i64 = 1000;

/// Turns the direction signals into forces.
#[derive(Clone, Copy, Debug, PartialEq, Eq, Structural)]
pub struct MovementSystem {}

/// `k` is the largest length with `k * k * m <= SCALE * SCALE`: it scales a
/// vector of squared length `m` to at most one unit.
pub open spec fn is_unit_factor(m: int, k: int) -> bool {
    &&& 0 <= k
    &&& k * k * m <= SCALE * SCALE
    &&& SCALE * SCALE < (k + 1) * (k + 1) * m
}

/// The unit factor of squared length `m`.
pub open spec fn unit_factor(m: int) -> int {
    choose|k: int| is_unit_factor(m, k)
}

/// A direction `v`, each component -1, 0 or 1, scaled to unit length in
/// fixed point with its length rounded down to a whole step; the zero vector
/// stays zero.
pub open spec fn normalised(v: (int, int)) -> (int, int) {
    let m = v.0 * v.0 + v.1 * v.1;
    if m == 0 {
        (0, 0)
    } else {
        (v.0 * unit_factor(m), v.1 * unit_factor(m))
    }
}

/// One for a set flag, zero otherwise.
pub open spec fn flag(b: bool) -> int {
    if b {
        1
    } else {
        0
    }
}

/// Raw direction of the signals: right minus left, down minus up.
pub open spec fn direction(signals: Signals) -> (int, int) {
    (
        flag(signals.right_pressed) - flag(signals.left_pressed),
        flag(signals.down_pressed) - flag(signals.up_pressed),
    )
}

/// The force the signals ask for: the normalised direction scaled by
/// `strength` on each axis.
pub open spec fn movement_force(signals: Signals, strength: (i64, i64)) -> (int, int) {
    let n = normalised(direction(signals));
    (fixed_mul(n.0, strength.0 as int), fixed_mul(n.1, strength.1 as int))
}

/// The physics component after the movement force is applied, or `None`
/// when a value would leave `i64`.
pub open spec fn moved(q: PhysicsComponent, signals: Signals, strength: (i64, i64)) -> Option<
    PhysicsComponent,
> {
    let f = movement_force(signals, strength);
    if fits_i64(f.0) && fits_i64(f.1) {
        q.applied_force(f)
    } else {
        None
    }
}

/// An entity's components after the movement force is applied. An entity
/// that is not moveable or has no physics is left as it is, and so is one
/// whose step would leave `i64`.
pub open spec fn movement_tick(cs: Seq<Component>, signals: Signals, strength: (i64, i64)) -> Seq<
    Component,
> {
    if has_kind(cs, ComponentKind::Moveable) && physics_in(cs) is Some {
        match moved(physics_in(cs).unwrap(), signals, strength) {
            Some(q) => cs.update(
                find_kind(cs, ComponentKind::Physics).unwrap(),
                Component::Physics(q),
            ),
            None => cs,
        }
    } else {
        cs
    }
}

/// Every entity moved.
pub open spec fn movement_world(
    world: Seq<Seq<Component>>,
    signals: Signals,
    strength: (i64, i64),
) -> Seq<Seq<Component>> {
    world.map_values(|cs: Seq<Component>| movement_tick(cs, signals, strength))
}

/// At most one length satisfies `is_unit_factor`.
pub proof fn lemma_unit_factor_unique(m: int, k1: int, k2: int)
    requires
        m > 0,
        is_unit_factor(m, k1),
        is_unit_factor(m, k2),
    ensures
        k1 == k2,
{
    if k1 < k2 {
        assert((k1 + 1) * (k1 + 1) * m <= k2 * k2 * m) by (nonlinear_arith)
            requires
                0 <= k1 < k2,
                m > 0,
        ;
    } else if k2 < k1 {
        assert((k2 + 1) * (k2 + 1) * m <= k1 * k1 * m) by (nonlinear_arith)
            requires
                0 <= k2 < k1,
                m > 0,
        ;
    }
}

/// The unit factor of a single axis is one whole unit; the one of a
/// diagonal is 707106, one step short of `SCALE / sqrt(2)`.
proof fn lemma_unit_factors()
    ensures
        unit_factor(1) == SCALE,
        unit_factor(2) == 707106,
        is_unit_factor(2, 707106),
{
    assert(is_unit_factor(1, SCALE as int));
    lemma_unit_factor_unique(1, SCALE as int, unit_factor(1));
    assert(is_unit_factor(2, 707106));
    lemma_unit_factor_unique(2, 707106, unit_factor(2));
}

/// The normalised form of a direction: one unit along an axis, 707106 steps
/// on each axis along a diagonal.
proof fn lemma_normalised_direction(v: (int, int))
    requires
        -1 <= v.0 <= 1,
        -1 <= v.1 <= 1,
    ensures
        ({
            let n = normalised(v);
            &&& v.0 == 0 ==> n.0 == 0
            &&& v.1 == 0 ==> n.1 == 0
            &&& v.0 != 0 && v.1 == 0 ==> n.0 == v.0 * SCALE
            &&& v.0 == 0 && v.1 != 0 ==> n.1 == v.1 * SCALE
            &&& v.0 != 0 && v.1 != 0 ==> n.0 == v.0 * 707106 && n.1 == v.1 * 707106
        }),
{
    lemma_unit_factors();
    assert(v.0 * v.0 == (if v.0 == 0 { 0int } else { 1int })) by (nonlinear_arith)
        requires
            -1 <= v.0 <= 1,
    ;
    assert(v.1 * v.1 == (if v.1 == 0 { 0int } else { 1int })) by (nonlinear_arith)
        requires
            -1 <= v.1 <= 1,
    ;
}

/// `(k * s) / SCALE`, squared twice, stays within `s * s` when `2 * k * k`
/// is at most `SCALE * SCALE`.
proof fn lemma_diagonal_component(k: int, s: int)
    requires
        0 <= k,
        0 <= s,
        2 * k * k <= SCALE * SCALE,
    ensures
        2 * (((k * s) / (SCALE as int)) * ((k * s) / (SCALE as int))) <= s * s,
{
    let sc = SCALE as int;
    let a = (k * s) / sc;
    assert(0 <= k * s) by (nonlinear_arith)
        requires
            0 <= k,
            0 <= s,
    ;
    assert(a * sc <= k * s);
    assert(0 <= a);
    assert(a * sc * (a * sc) <= (k * s) * (k * s)) by (nonlinear_arith)
        requires
            0 <= a * sc <= k * s,
    ;
    assert(2 * (a * a) * (sc * sc) <= (s * s) * (sc * sc)) by (nonlinear_arith)
        requires
            a * sc * (a * sc) <= (k * s) * (k * s),
            2 * k * k <= sc * sc,
            0 <= s,
    ;
    assert(2 * (a * a) <= s * s) by (nonlinear_arith)
        requires
            2 * (a * a) * (sc * sc) <= (s * s) * (sc * sc),
            sc > 0,
    ;
}

/// The diagonal force component `(707106 * s) / SCALE`, squared twice, is
/// at most `s * s` and falls short of it by at most `4 * s * s / SCALE + 4 * s`.
proof fn lemma_diagonal_bounds(s: int)
    requires
        s >= 0,
    ensures
        ({
            let c = SCALE as int;
            let a = (707106 * s) / c;
            &&& a >= 0
            &&& 2 * (a * a) <= s * s
            &&& c * c * (2 * (a * a)) >= c * c * s * s - 4 * c * s * s - 4 * c * c * s
            &&& s >= 2 ==> a >= 1
        }),
{
    let c = SCALE as int;
    let k = 707106int;
    let a = (k * s) / c;
    lemma_diagonal_component(k, s);
    lemma_fundamental_div_mod(k * s, c);
    lemma_mod_pos_bound(k * s, c);
    let r = (k * s) % c;
    assert(a * c + r == k * s);
    assert(0 <= k * s) by (nonlinear_arith)
        requires
            s >= 0,
            k == 707106,
    ;
    assert(a >= 0) by (nonlinear_arith)
        requires
            a * c + r == k * s,
            0 <= k * s,
            r < c,
            c == 1_000_000,
    ;
    if k * s >= c {
        let t = a * c;
        assert(t >= k * s - c);
        assert(t * t >= (k * s - c) * (k * s - c)) by (nonlinear_arith)
            requires
                t >= k * s - c,
                k * s - c >= 0,
        ;
        assert(2 * (t * t) >= c * c * s * s - 4 * c * s * s - 4 * c * c * s) by (nonlinear_arith)
            requires
                t * t >= (k * s - c) * (k * s - c),
                k == 707106,
                c == 1_000_000,
                s >= 0,
        ;
        assert(c * c * (2 * (a * a)) == 2 * (t * t)) by (nonlinear_arith)
            requires
                t == a * c,
        ;
        assert(a >= 1) by (nonlinear_arith)
            requires
                a * c + r == k * s,
                k * s >= c,
                r < c,
                c > 0,
        ;
    } else {
        assert(s <= 1) by (nonlinear_arith)
            requires
                k * s < c,
                k == 707106,
                c == 1_000_000,
        ;
        assert(c * c * s * s - 4 * c * s * s - 4 * c * c * s <= 0) by (nonlinear_arith)
            requires
                0 <= s <= 1,
                c == 1_000_000,
        ;
        assert(0 <= c * c * (2 * (a * a))) by (nonlinear_arith)
            requires
                c > 0,
        ;
    }
}

/// No combination of direction signals moves an entity faster than a
/// single direction does, and a diagonal is slower only by rounding: with
/// the same strength `s` on both axes, the force is exactly `s` long along
/// one axis; along a diagonal its squared length is at most `s * s` and
/// short of it by at most `4 * s * (1 + s / SCALE)`; with no direction it
/// is zero. Each force component points the way of its direction
/// component, and strictly so from a strength of two steps on.
pub proof fn law_movement_normalised(signals: Signals, s: i64)
    requires
        s >= 0,
    ensures
        ({
            let f = movement_force(signals, (s, s));
            let d = direction(signals);
            let c = SCALE as int;
            &&& f.0 * f.0 + f.1 * f.1 <= s * s
            &&& d != (0int, 0int) ==> c * c * (f.0 * f.0 + f.1 * f.1) >= c * c * s * s - 4 * c * s
                * s - 4 * c * c * s
            &&& d.0 * d.0 + d.1 * d.1 == 1 ==> f.0 * f.0 + f.1 * f.1 == s * s
            &&& d == (0int, 0int) ==> f == (0int, 0int)
            &&& d.0 == 0 ==> f.0 == 0
            &&& d.1 == 0 ==> f.1 == 0
            &&& d.0 > 0 ==> f.0 >= 0
            &&& d.0 < 0 ==> f.0 <= 0
            &&& d.1 > 0 ==> f.1 >= 0
            &&& d.1 < 0 ==> f.1 <= 0
            &&& s >= 2 ==> (d.0 > 0 ==> f.0 > 0) && (d.0 < 0 ==> f.0 < 0) && (d.1 > 0 ==> f.1
                > 0) && (d.1 < 0 ==> f.1 < 0)
        }),
{
    let d = direction(signals);
    let c = SCALE as int;
    let si = s as int;
    assert(-1 <= d.0 <= 1 && -1 <= d.1 <= 1);
    lemma_normalised_direction(d);
    let n = normalised(d);
    let f = movement_force(signals, (s, s));
    assert(f == (fixed_mul(n.0, si), fixed_mul(n.1, si)));
    assert(fixed_mul(c, si) == si) by (nonlinear_arith)
        requires
            c == 1_000_000,
            si >= 0,
    ;
    assert(fixed_mul(-c, si) == -si) by (nonlinear_arith)
        requires
            c == 1_000_000,
            si >= 0,
    ;
    assert(0 * si == 0);
    assert(fixed_mul(0, si) == 0);
    let a = (707106 * si) / c;
    lemma_diagonal_bounds(si);
    assert(0 <= 707106 * si) by (nonlinear_arith)
        requires
            si >= 0,
    ;
    assert((-707106) * si == -(707106 * si)) by (nonlinear_arith);
    assert(fixed_mul(707106, si) == a);
    assert(fixed_mul(-707106, si) == -a);
    if d.0 != 0 && d.1 != 0 {
        assert(n.0 == 707106 || n.0 == -707106);
        assert(n.1 == 707106 || n.1 == -707106);
        assert(d.0 == 1 ==> f.0 == a);
        assert(d.0 == -1 ==> f.0 == -a);
        assert(d.1 == 1 ==> f.1 == a);
        assert(d.1 == -1 ==> f.1 == -a);
        assert(f.0 == a || f.0 == -a);
        assert(f.1 == a || f.1 == -a);
        assert(f.0 * f.0 == a * a && f.1 * f.1 == a * a) by (nonlinear_arith)
            requires
                f.0 == a || f.0 == -a,
                f.1 == a || f.1 == -a,
        ;
        assert(f.0 * f.0 + f.1 * f.1 == 2 * (a * a));
        assert(f.0 * f.0 + f.1 * f.1 <= si * si);
        assert(c * c * (f.0 * f.0 + f.1 * f.1) >= c * c * si * si - 4 * c * si * si - 4 * c * c
            * si);
        assert(si >= 2 ==> a >= 1);
    } else if d.0 != 0 {
        assert(n.0 == c || n.0 == -c);
        assert(d.0 == 1 ==> f.0 == si);
        assert(d.0 == -1 ==> f.0 == -si);
        assert(f.1 == 0);
        assert(f.0 == si || f.0 == -si);
        assert(f.0 * f.0 == si * si) by (nonlinear_arith)
            requires
                f.0 == si || f.0 == -si,
        ;
        assert(c * c * (f.0 * f.0 + f.1 * f.1) >= c * c * si * si - 4 * c * si * si - 4 * c * c
            * si) by (nonlinear_arith)
            requires
                f.0 * f.0 + f.1 * f.1 == si * si,
                si >= 0,
                c > 0,
        ;
    } else if d.1 != 0 {
        assert(n.1 == c || n.1 == -c);
        assert(d.1 == 1 ==> f.1 == si);
        assert(d.1 == -1 ==> f.1 == -si);
        assert(f.0 == 0);
        assert(f.1 == si || f.1 == -si);
        assert(f.1 * f.1 == si * si) by (nonlinear_arith)
            requires
                f.1 == si || f.1 == -si,
        ;
        assert(c * c * (f.0 * f.0 + f.1 * f.1) >= c * c * si * si - 4 * c * si * si - 4 * c * c
            * si) by (nonlinear_arith)
            requires
                f.0 * f.0 + f.1 * f.1 == si * si,
                si >= 0,
                c > 0,
        ;
    } else {
        assert(d == (0int, 0int));
        assert(f.0 == 0 && f.1 == 0);
    }
    assert(f.0 * f.0 + f.1 * f.1 <= si * si);
    assert(d.0 > 0 ==> f.0 >= 0);
    assert(d.0 < 0 ==> f.0 <= 0);
    assert(d.1 > 0 ==> f.1 >= 0);
    assert(d.1 < 0 ==> f.1 <= 0);
    assert(d.0 * d.0 == (if d.0 == 0 { 0int } else { 1int })) by (nonlinear_arith)
        requires
            -1 <= d.0 <= 1,
    ;
    assert(d.1 * d.1 == (if d.1 == 0 { 0int } else { 1int })) by (nonlinear_arith)
        requires
            -1 <= d.1 <= 1,
    ;
    assert(d.0 * d.0 + d.1 * d.1 == 1 ==> f.0 * f.0 + f.1 * f.1 == si * si);
    assert(d != (0int, 0int) ==> c * c * (f.0 * f.0 + f.1 * f.1) >= c * c * si * si - 4 * c * si
        * si - 4 * c * c * si);
}


/// A direction (each component -1, 0 or 1, as the four direction signals
/// give it) scaled to unit length; the zero vector stays zero. Each
/// component keeps the sign of the direction's, and the squared length of a
/// non-zero result is within `4 * SCALE` below one unit squared.
pub fn get_vector_normalised(v: (i64, i64)) -> (r: (i64, i64))
    requires
        -1 <= v.0 <= 1,
        -1 <= v.1 <= 1,
    ensures
        r.0 == normalised((v.0 as int, v.1 as int)).0,
        r.1 == normalised((v.0 as int, v.1 as int)).1,
        v.0 == 0 ==> r.0 == 0,
        v.0 > 0 ==> r.0 > 0,
        v.0 < 0 ==> r.0 < 0,
        v.1 == 0 ==> r.1 == 0,
        v.1 > 0 ==> r.1 > 0,
        v.1 < 0 ==> r.1 < 0,
        v != (0i64, 0i64) ==> SCALE * SCALE - 4 * SCALE <= r.0 * r.0 + r.1 * r.1 <= SCALE
            * SCALE,
{
    if v.0 == 0 && v.1 == 0 {
        return (0, 0);
    }
    proof {
        assert(v.0 * v.0 == (if v.0 == 0 { 0int } else { 1int })) by (nonlinear_arith)
            requires
                -1 <= v.0 <= 1,
        ;
        assert(v.1 * v.1 == (if v.1 == 0 { 0int } else { 1int })) by (nonlinear_arith)
            requires
                -1 <= v.1 <= 1,
        ;
    }
    let m: u128 = (v.0 * v.0) as u128 + (v.1 * v.1) as u128;
    let s: u128 = SCALE as u128;
    let mut lo: u128 = 0;
    let mut hi: u128 = s + 1;
    proof {
        assert(0 * 0 * m == 0);
        assert(s * s < (s + 1) * (s + 1) * m) by (nonlinear_arith)
            requires
                m >= 1,
                s == 1_000_000,
        ;
    }
    while lo + 1 < hi
        invariant
            m >= 1,
            m <= 2_000_000_000_000,
            s == SCALE,
            lo < hi <= s + 1,
            lo * lo * m <= s * s,
            s * s < hi * hi * m,
        decreases hi - lo,
    {
        let mid: u128 = lo + (hi - lo) / 2;
        proof {
            assert(mid * mid <= 1_000_001 * 1_000_001) by (nonlinear_arith)
                requires
                    mid <= 1_000_001,
            ;
            assert(mid * mid * m <= 1_000_001 * 1_000_001 * 2_000_000_000_000) by (nonlinear_arith)
                requires
                    mid <= 1_000_001,
                    m <= 2_000_000_000_000,
            ;
        }
        if mid * mid * m <= s * s {
            lo = mid;
        } else {
            hi = mid;
        }
    }
    proof {
        assert(is_unit_factor(m as int, lo as int));
        lemma_unit_factor_unique(m as int, lo as int, unit_factor(m as int));
    }
    let k: i64 = lo as i64;
    proof {
        assert(k <= 1_000_000);
        assert(-1_000_000 <= v.0 * k <= 1_000_000) by (nonlinear_arith)
            requires
                -1 <= v.0 <= 1,
                0 <= k <= 1_000_000,
        ;
        assert(-1_000_000 <= v.1 * k <= 1_000_000) by (nonlinear_arith)
            requires
                -1 <= v.1 <= 1,
                0 <= k <= 1_000_000,
        ;
        lemma_normalised_direction((v.0 as int, v.1 as int));
    }
    let r = (v.0 * k, v.1 * k);
    proof {
        if v.0 != 0 && v.1 != 0 {
            assert(r.0 * r.0 == 707106 * 707106 && r.1 * r.1 == 707106 * 707106) by (nonlinear_arith)
                requires
                    r.0 == 707106 || r.0 == -707106,
                    r.1 == 707106 || r.1 == -707106,
            ;
        } else if v.0 != 0 {
            assert(r.0 * r.0 == SCALE * SCALE) by (nonlinear_arith)
                requires
                    r.0 == 1_000_000 || r.0 == -1_000_000,
            ;
        } else if v.1 != 0 {
            assert(r.1 * r.1 == SCALE * SCALE) by (nonlinear_arith)
                requires
                    r.1 == 1_000_000 || r.1 == -1_000_000,
            ;
        }
    }
    r
}

/// A move keeps the kinds and indices of the components and their
/// well-formedness.
pub proof fn lemma_move_keeps(cs: Seq<Component>, signals: Signals, strength: (i64, i64))
    requires
        components_wf(cs),
    ensures
        movement_tick(cs, signals, strength).len() == cs.len(),
        forall|k: ComponentKind| #[trigger]
            find_kind(movement_tick(cs, signals, strength), k) == find_kind(cs, k),
        components_wf(movement_tick(cs, signals, strength)),
{
    lemma_find_from(cs, ComponentKind::Position, 0);
    lemma_find_from(cs, ComponentKind::Physics, 0);
    if has_kind(cs, ComponentKind::Moveable) && physics_in(cs) is Some && moved(
        physics_in(cs).unwrap(),
        signals,
        strength,
    ) is Some {
        let q = moved(physics_in(cs).unwrap(), signals, strength).unwrap();
        let qi = find_kind(cs, ComponentKind::Physics).unwrap();
        let c1 = cs.update(qi, Component::Physics(q));
        assert forall|k: ComponentKind| #[trigger] find_kind(c1, k) == find_kind(cs, k) by {
            lemma_find_same_kind(cs, qi, Component::Physics(q), k);
        }
        assert(c1[qi] == Component::Physics(q));
    }
}

impl MovementSystem {
    /// The movement system; it has no state of its own.
    pub fn new() -> (r: MovementSystem)
        ensures
            r == (MovementSystem {  }),
    {
        MovementSystem {  }
    }

    /// Applies the force the direction signals of `global` ask for, scaled
    /// by `strength`; a force that would leave `i64` is not applied.
    pub fn handle_movement(
        &self,
        physics: &mut PhysicsComponent,
        strength: (i64, i64),
        global: &Global,
    )
        requires
            old(physics).wf(),
        ensures
            match moved(*old(physics), global.signals, strength) {
                Some(q) => *final(physics) == q,
                None => *final(physics) == *old(physics),
            },
    {
        let up = global.signals.get(Signal::UpPressed);
        let down = global.signals.get(Signal::DownPressed);
        let left = global.signals.get(Signal::LeftPressed);
        let right = global.signals.get(Signal::RightPressed);

        let dx: i64 = (if right { 1 } else { 0 }) - (if left { 1 } else { 0 });
        let dy: i64 = (if down { 1 } else { 0 }) - (if up { 1 } else { 0 });
        let n = get_vector_normalised((dx, dy));
        match (checked_mul_fixed(n.0, strength.0), checked_mul_fixed(n.1, strength.1)) {
            (Some(fx), Some(fy)) => match physics.try_apply_force((fx, fy)) {
                Some(q) => *physics = q,
                None => {},
            },
            _ => {},
        }
    }

    /// Moves one entity.
    fn tick(&self, entity: &mut Entity, global: &Global)
        requires
            components_wf(old(entity).components@),
        ensures
            final(entity).id == old(entity).id,
            final(entity).components@ == movement_tick(
                old(entity).components@,
                global.signals,
                (MOVEMENT_STRENGTH, MOVEMENT_STRENGTH),
            ),
    {
        let ghost cs0 = entity.components@;
        proof {
            lemma_find_from(cs0, ComponentKind::Physics, 0);
        }
        let moveable = entity.find(ComponentKind::Moveable);
        let qi = entity.find(ComponentKind::Physics);
        match (moveable, qi, entity.physics()) {
            (Some(_), Some(qi), Some(mut physics)) => {
                self.handle_movement(&mut physics, (MOVEMENT_STRENGTH, MOVEMENT_STRENGTH), global);
                entity.set_component(qi, Component::Physics(physics));
                proof {
                    assert(entity.components@ =~= movement_tick(
                        cs0,
                        global.signals,
                        (MOVEMENT_STRENGTH, MOVEMENT_STRENGTH),
                    ));
                }
            },
            _ => {},
        }
    }

    /// Applies the movement force to every moveable entity with physics.
    pub fn apply_movement(&self, entities: &mut Vec<Entity>, global: &Global)
        requires
            world_wf(world_of(old(entities)@)),
        ensures
            ids_kept(old(entities)@, final(entities)@),
            world_wf(world_of(final(entities)@)),
            world_of(final(entities)@) == movement_world(
                world_of(old(entities)@),
                global.signals,
                (MOVEMENT_STRENGTH, MOVEMENT_STRENGTH),
            ),
    {
        let ghost orig = world_of(entities@);
        let ghost first = entities@;
        let ghost strength = (MOVEMENT_STRENGTH, MOVEMENT_STRENGTH);
        let n = entities.len();
        assert forall|m: int| 0 <= m < n implies #[trigger] entities@[m].components@ == orig[m]
            && components_wf(entities@[m].components@) by {
            assert(components_wf(orig[m]));
        }
        let mut i: usize = 0;
        while i < n
            invariant
                n == entities@.len(),
                n == orig.len(),
                orig == world_of(first),
                world_wf(orig),
                strength == (MOVEMENT_STRENGTH, MOVEMENT_STRENGTH),
                i <= n,
                forall|m: int| 0 <= m < n ==> #[trigger] entities@[m].id == first[m].id,
                forall|m: int|
                    0 <= m < i ==> #[trigger] entities@[m].components@ == movement_tick(
                        orig[m],
                        global.signals,
                        strength,
                    ),
                forall|m: int| i <= m < n ==> #[trigger] entities@[m].components@ == orig[m],
                forall|m: int| 0 <= m < n ==> components_wf(#[trigger] entities@[m].components@),
            decreases n - i,
        {
            assert(components_wf(orig[i as int]));
            proof {
                lemma_move_keeps(orig[i as int], global.signals, strength);
            }
            let ghost before = entities@;
            assert(before[i as int].components@ == orig[i as int]);
            self.tick(&mut entities[i], global);
            assert(entities@.len() == before.len());
            assert(forall|m: int| 0 <= m < n && m != i ==> entities@[m] == before[m]);
            assert forall|m: int| i < m < n implies #[trigger] entities@[m].components@ == orig[m] by {
                assert(entities@[m] == before[m]);
            }
            assert forall|m: int| 0 <= m <= i implies #[trigger] entities@[m].components@
                == movement_tick(orig[m], global.signals, strength) by {
                if m < i {
                    assert(entities@[m] == before[m]);
                } else {
                    assert(entities@[i as int].components@ == movement_tick(orig[i as int], global.signals, strength));
                }
            }
            assert forall|m: int| 0 <= m < n implies components_wf(
                #[trigger] entities@[m].components@,
            ) by {
                if m != i {
                    assert(entities@[m] == before[m]);
                }
            }
            i = i + 1;
        }
        assert(world_of(entities@) =~= movement_world(orig, global.signals, strength));
        assert forall|m: int| 0 <= m < n implies components_wf(
            #[trigger] world_of(entities@)[m],
        ) by {
            assert(world_of(entities@)[m] == entities@[m].components@);
        }
    }
}

impl System for MovementSystem {
    open spec fn outcome(&self, world: Seq<Seq<Component>>, signals: Signals) -> Seq<
        Seq<Component>,
    > {
        movement_world(world, signals, (MOVEMENT_STRENGTH, MOVEMENT_STRENGTH))
    }

    fn run(&mut self, entities: &mut Vec<Entity>, global: &Global) {
        self.apply_movement(entities, global);
    }
}

} // verus!
