//! The digital button bitmask every input source is normalised to, and the
//! per-frame edge logic computed on the union of those sources.

use vstd::prelude::*;

verus! {

/// The number of button bits the host protocol defines.
pub const PROTOCOL_BITS: u32 = 9;

/// Every bit the protocol defines, as a raw mask.
pub const ALL_BITS: u32 = 511;

/// Whether bit `i` of `x` is set.
pub open spec fn bit(x: u32, i: u32) -> bool {
    (x >> i) & 1u32 == 1u32
}

/// A set of canon buttons packed into a `u32`. The bit layout is part of the
/// host protocol (`gx:input.buttons`), so it must never be reordered.
#[derive(Debug, Clone, Copy, PartialEq, Eq, Structural, Default, Hash)]
pub struct Buttons(pub u32);

impl Buttons {
    /// The empty set.
    pub fn none() -> (r: Buttons)
        ensures
            r.0 == 0,
    {
        Buttons(0)
    }

    pub fn up() -> (r: Buttons)
        ensures
            r.0 == 1,
    {
        Buttons(1)
    }

    pub fn down() -> (r: Buttons)
        ensures
            r.0 == 2,
    {
        Buttons(2)
    }

    pub fn left() -> (r: Buttons)
        ensures
            r.0 == 4,
    {
        Buttons(4)
    }

    pub fn right() -> (r: Buttons)
        ensures
            r.0 == 8,
    {
        Buttons(8)
    }

    /// Primary action (keyboard Z / Space, gamepad South or North, pad A).
    pub fn a() -> (r: Buttons)
        ensures
            r.0 == 16,
    {
        Buttons(16)
    }

    /// Secondary action (keyboard X / Shift, gamepad West or East, pad B).
    pub fn b() -> (r: Buttons)
        ensures
            r.0 == 32,
    {
        Buttons(32)
    }

    /// Menu confirm (keyboard Enter, pad Start).
    pub fn start() -> (r: Buttons)
        ensures
            r.0 == 64,
    {
        Buttons(64)
    }

    /// Gamepad Select / pad Select.
    pub fn select() -> (r: Buttons)
        ensures
            r.0 == 128,
    {
        Buttons(128)
    }

    /// Pause (keyboard Escape, gamepad Start, pad Pause).
    pub fn pause() -> (r: Buttons)
        ensures
            r.0 == 256,
    {
        Buttons(256)
    }

    /// Every bit the protocol defines; anything above is ignored.
    pub fn all() -> (r: Buttons)
        ensures
            r.0 == 511,
    {
        Buttons(511)
    }

    /// Whether button bit `i` is in the set.
    pub open spec fn has(self, i: u32) -> bool {
        bit(self.0, i)
    }

    /// True when the two sets share at least one bit (an intersection test,
    /// so `jp.contains(A | B | START)` asks whether any of the three is in `jp`).
    pub fn contains(self, other: Buttons) -> (r: bool)
        ensures
            r == (self.0 & other.0 != 0),
    {
        self.0 & other.0 != 0
    }

    pub fn is_empty(self) -> (r: bool)
        ensures
            r == (self.0 == 0),
    {
        self.0 == 0
    }

    pub fn union(self, other: Buttons) -> (r: Buttons)
        ensures
            r.0 == self.0 | other.0,
    {
        Buttons(self.0 | other.0)
    }

    pub fn difference(self, other: Buttons) -> (r: Buttons)
        ensures
            r.0 == self.0 & !other.0,
    {
        Buttons(self.0 & !other.0)
    }

    /// Masks to the protocol-defined bits.
    pub fn sanitized(self) -> (r: Buttons)
        ensures
            r.0 == self.0 & ALL_BITS,
    {
        Buttons(self.0 & ALL_BITS)
    }
}

impl core::ops::BitOr for Buttons {
    type Output = Buttons;

    fn bitor(self, rhs: Buttons) -> (r: Buttons) {
        self.union(rhs)
    }
}

impl vstd::std_specs::ops::BitOrSpecImpl for Buttons {
    open spec fn obeys_bitor_spec() -> bool {
        true
    }

    open spec fn bitor_req(self, rhs: Buttons) -> bool {
        true
    }

    open spec fn bitor_spec(self, rhs: Buttons) -> Buttons {
        Buttons(self.0 | rhs.0)
    }
}

impl core::ops::BitOrAssign for Buttons {
    fn bitor_assign(&mut self, rhs: Buttons)
        ensures
            final(self).0 == old(self).0 | rhs.0,
    {
        self.0 = self.0 | rhs.0;
    }
}

/// Per button: a union holds what either set holds, a difference what the
/// first holds and the second does not, and a sanitized set exactly the
/// protocol buttons of the original; two sets that share a button intersect.
pub proof fn lemma_buttons_per_bit(x: Buttons, y: Buttons, i: u32)
    requires
        i < 32,
    ensures
        Buttons(x.0 | y.0).has(i) == (x.has(i) || y.has(i)),
        Buttons(x.0 & !y.0).has(i) == (x.has(i) && !y.has(i)),
        Buttons(x.0 & ALL_BITS).has(i) == (i < PROTOCOL_BITS && x.has(i)),
        x.has(i) && y.has(i) ==> x.0 & y.0 != 0,
{
    let a = x.0;
    let b = y.0;
    assert(((a | b) >> i) & 1u32 == 1u32 <==> ((a >> i) & 1u32 == 1u32 || (b >> i) & 1u32 == 1u32))
        by (bit_vector)
        requires
            i < 32u32,
    ;
    assert(((a & !b) >> i) & 1u32 == 1u32 <==> ((a >> i) & 1u32 == 1u32 && !((b >> i) & 1u32
        == 1u32))) by (bit_vector)
        requires
            i < 32u32,
    ;
    assert(((a & 511u32) >> i) & 1u32 == 1u32 <==> (i < 9u32 && (a >> i) & 1u32 == 1u32))
        by (bit_vector)
        requires
            i < 32u32,
    ;
    assert(((a >> i) & 1u32 == 1u32 && (b >> i) & 1u32 == 1u32) ==> a & b != 0u32)
        by (bit_vector)
        requires
            i < 32u32,
    ;
}

/// Per-frame edge state for the union of all sources.
#[derive(Debug, Clone, Copy, PartialEq, Eq, Structural, Default)]
pub struct Edges {
    pub held: Buttons,
    pub just_pressed: Buttons,
    pub just_released: Buttons,
}

/// The edges of one frame, as a spec value.
pub open spec fn spec_edges(prev: u32, current: u32, latched: u32) -> Edges {
    Edges {
        held: Buttons(current & ALL_BITS),
        just_pressed: Buttons(((current & ALL_BITS) | (latched & ALL_BITS)) & !prev),
        just_released: Buttons(prev & !(current & ALL_BITS)),
    }
}

/// Derives edges from the previous frame's held set, this frame's held set,
/// and the buttons any source saw pressed since the last poll (`latched`).
///
/// The latch is what makes a sub-frame tap from a touch button or a host
/// relay count as a press. Because edges are computed on the union, a
/// button is only "released" once no device holds it.
pub fn edges(prev: Buttons, current: Buttons, latched: Buttons) -> (e: Edges)
    ensures
        e == spec_edges(prev.0, current.0, latched.0),
{
    let current = current.sanitized();
    let latched = latched.sanitized();
    Edges {
        held: current,
        just_pressed: current.union(latched).difference(prev),
        just_released: prev.difference(current),
    }
}

/// Per button, for each of the 32 bits: `held` is the protocol part of the
/// current set; a press edge is a protocol button that some source holds now
/// or latched since the last poll and that was not held last frame; a release
/// edge is a button held last frame that no source holds now.
pub proof fn lemma_edges_per_button(prev: Buttons, current: Buttons, latched: Buttons, i: u32)
    requires
        i < 32,
    ensures
        spec_edges(prev.0, current.0, latched.0).held.has(i) == (i < PROTOCOL_BITS
            && current.has(i)),
        spec_edges(prev.0, current.0, latched.0).just_pressed.has(i) == (i < PROTOCOL_BITS && (
        current.has(i) || latched.has(i)) && !prev.has(i)),
        spec_edges(prev.0, current.0, latched.0).just_released.has(i) == (prev.has(i) && !(i
            < PROTOCOL_BITS && current.has(i))),
{
    let p = prev.0;
    let c = current.0;
    let l = latched.0;
    assert(((c & 511u32) >> i) & 1u32 == 1u32 <==> (i < 9u32 && (c >> i) & 1u32 == 1u32))
        by (bit_vector)
        requires
            i < 32u32,
    ;
    assert(((((c & 511u32) | (l & 511u32)) & !p) >> i) & 1u32 == 1u32 <==> (i < 9u32 && ((c
        >> i) & 1u32 == 1u32 || (l >> i) & 1u32 == 1u32) && !((p >> i) & 1u32 == 1u32)))
        by (bit_vector)
        requires
            i < 32u32,
    ;
    assert(((p & !(c & 511u32)) >> i) & 1u32 == 1u32 <==> ((p >> i) & 1u32 == 1u32 && !(i < 9u32
        && (c >> i) & 1u32 == 1u32))) by (bit_vector)
        requires
            i < 32u32,
    ;
}

/// The edge sets never overlap in the wrong way: nothing is pressed and
/// released in the same frame; a button held last frame never gets a second
/// press edge (the latch does not repeat it); a button that any source still
/// holds is never released; and every set but the release set stays within
/// the protocol bits.
pub proof fn lemma_edges_consistent(prev: Buttons, current: Buttons, latched: Buttons)
    ensures
        spec_edges(prev.0, current.0, latched.0).just_pressed.0 & spec_edges(
            prev.0,
            current.0,
            latched.0,
        ).just_released.0 == 0,
        spec_edges(prev.0, current.0, latched.0).just_pressed.0 & prev.0 == 0,
        spec_edges(prev.0, current.0, latched.0).just_released.0 & current.0 & ALL_BITS == 0,
        spec_edges(prev.0, current.0, latched.0).held.0 & !ALL_BITS == 0,
        spec_edges(prev.0, current.0, latched.0).just_pressed.0 & !ALL_BITS == 0,
        spec_edges(prev.0, current.0, latched.0).just_released.0 & !prev.0 == 0,
{
    let p = prev.0;
    let c = current.0;
    let l = latched.0;
    assert((((c & 511u32) | (l & 511u32)) & !p) & (p & !(c & 511u32)) == 0u32) by (bit_vector);
    assert((((c & 511u32) | (l & 511u32)) & !p) & p == 0u32) by (bit_vector);
    assert((p & !(c & 511u32)) & c & 511u32 == 0u32) by (bit_vector);
    assert((c & 511u32) & !511u32 == 0u32) by (bit_vector);
    assert((((c & 511u32) | (l & 511u32)) & !p) & !511u32 == 0u32) by (bit_vector);
    assert((p & !(c & 511u32)) & !p == 0u32) by (bit_vector);
}

/// A protocol button that a source latched (pressed and released again
/// between two polls) and that was not held last frame gets a press edge,
/// so a tap shorter than a frame still registers.
pub proof fn lemma_sub_frame_tap_registers(prev: Buttons, current: Buttons, latched: Buttons)
    ensures
        (latched.0 & ALL_BITS & !prev.0) & !spec_edges(prev.0, current.0, latched.0).just_pressed.0
            == 0,
{
    let p = prev.0;
    let c = current.0;
    let l = latched.0;
    assert((l & 511u32 & !p) & !(((c & 511u32) | (l & 511u32)) & !p) == 0u32) by (bit_vector);
}

/// Holding the same set across frames gives one press edge and then none:
/// the frame after gives no press or release edge and the same held set.
pub proof fn lemma_steady_hold(prev: Buttons, current: Buttons, latched: Buttons)
    ensures
        ({
            let e1 = spec_edges(prev.0, current.0, latched.0);
            let e2 = spec_edges(e1.held.0, current.0, 0);
            &&& e2.just_pressed.0 == 0
            &&& e2.just_released.0 == 0
            &&& e2.held == e1.held
        }),
{
    let c = current.0;
    assert((((c & 511u32) | (0u32 & 511u32)) & !(c & 511u32)) == 0u32) by (bit_vector);
    assert(((c & 511u32) & !(c & 511u32)) == 0u32) by (bit_vector);
}

/// Letting go of everything releases exactly what was held the frame before.
pub proof fn lemma_release_all(prev: Buttons, current: Buttons, latched: Buttons)
    ensures
        ({
            let e1 = spec_edges(prev.0, current.0, latched.0);
            let e2 = spec_edges(e1.held.0, 0, 0);
            &&& e2.just_pressed.0 == 0
            &&& e2.just_released == e1.held
            &&& e2.held.0 == 0
        }),
{
    let c = current.0;
    assert((((0u32 & 511u32) | (0u32 & 511u32)) & !(c & 511u32)) == 0u32) by (bit_vector);
    assert(((c & 511u32) & !(0u32 & 511u32)) == (c & 511u32)) by (bit_vector);
    assert(0u32 & 511u32 == 0u32) by (bit_vector);
}

} // verus!
