//! Keyboard / gamepad / virtual sources to one digital input per frame.
//!
//! The canon bindings:
//!
//! - Move: arrows + WASD, D-pad, left stick, host axes
//! - A (primary): Z, Space, gamepad South or North, pad A
//! - B (secondary): X, Shift, gamepad West or East, pad B
//! - Start: Enter, pad Start
//! - Select: gamepad Select, pad Select
//! - Pause: Escape, gamepad Start, pad Pause
//! - Confirm (menus): A, B or Start

use vstd::prelude::*;

use crate::buttons::{Buttons, Edges, spec_edges, edges, ALL_BITS};

verus! {

/// The keyboard keys the canon binds. Every other key maps to nothing.
#[derive(Debug, Clone, Copy, PartialEq, Eq, Structural, Hash)]
pub enum CanonKey {
    ArrowUp,
    KeyW,
    ArrowDown,
    KeyS,
    ArrowLeft,
    KeyA,
    ArrowRight,
    KeyD,
    KeyZ,
    Space,
    KeyX,
    ShiftLeft,
    ShiftRight,
    Enter,
    Escape,
}

/// The gamepad buttons the canon binds. Every other button maps to nothing.
#[derive(Debug, Clone, Copy, PartialEq, Eq, Structural, Hash)]
pub enum PadButton {
    DPadUp,
    DPadDown,
    DPadLeft,
    DPadRight,
    South,
    North,
    West,
    East,
    Select,
    Start,
}

/// `bits` when `on`, else nothing.
pub open spec fn bits_if(on: bool, bits: u32) -> u32 {
    if on {
        bits
    } else {
        0
    }
}

/// The button set with exactly the flagged canon buttons.
pub open spec fn flag_bits(
    up: bool,
    down: bool,
    left: bool,
    right: bool,
    a: bool,
    b: bool,
    start: bool,
    select: bool,
    pause: bool,
) -> u32 {
    bits_if(up, 1) | bits_if(down, 2) | bits_if(left, 4) | bits_if(right, 8) | bits_if(a, 16)
        | bits_if(b, 32) | bits_if(start, 64) | bits_if(select, 128) | bits_if(pause, 256)
}

/// Whether each canon key is down.
#[derive(Debug, Clone, Copy, PartialEq, Eq, Structural, Default)]
pub struct KeyState {
    pub arrow_up: bool,
    pub key_w: bool,
    pub arrow_down: bool,
    pub key_s: bool,
    pub arrow_left: bool,
    pub key_a: bool,
    pub arrow_right: bool,
    pub key_d: bool,
    pub key_z: bool,
    pub space: bool,
    pub key_x: bool,
    pub shift_left: bool,
    pub shift_right: bool,
    pub enter: bool,
    pub escape: bool,
}

/// Whether each canon gamepad button is down.
#[derive(Debug, Clone, Copy, PartialEq, Eq, Structural, Default)]
pub struct PadState {
    pub dpad_up: bool,
    pub dpad_down: bool,
    pub dpad_left: bool,
    pub dpad_right: bool,
    pub south: bool,
    pub north: bool,
    pub west: bool,
    pub east: bool,
    pub select: bool,
    pub start: bool,
}

/// The canon keyboard mapping. No key gives Select.
pub open spec fn key_bits(s: KeyState) -> u32 {
    flag_bits(
        s.arrow_up || s.key_w,
        s.arrow_down || s.key_s,
        s.arrow_left || s.key_a,
        s.arrow_right || s.key_d,
        s.key_z || s.space,
        s.key_x || s.shift_left || s.shift_right,
        s.enter,
        false,
        s.escape,
    )
}

/// The canon gamepad mapping. South/North are A and West/East are B because
/// two-button arcade encoders (DragonRise) wire B unpredictably; the pad's
/// Start is Pause, so no pad button gives Start.
pub open spec fn pad_bits(s: PadState) -> u32 {
    flag_bits(
        s.dpad_up,
        s.dpad_down,
        s.dpad_left,
        s.dpad_right,
        s.south || s.north,
        s.west || s.east,
        false,
        s.select,
        s.start,
    )
}

/// `s` holds, for every canon key, an answer that `pressed` gives about it.
pub open spec fn keys_read<F: Fn(CanonKey) -> bool>(pressed: F, s: KeyState) -> bool {
    &&& call_ensures(pressed, (CanonKey::ArrowUp,), s.arrow_up)
    &&& call_ensures(pressed, (CanonKey::KeyW,), s.key_w)
    &&& call_ensures(pressed, (CanonKey::ArrowDown,), s.arrow_down)
    &&& call_ensures(pressed, (CanonKey::KeyS,), s.key_s)
    &&& call_ensures(pressed, (CanonKey::ArrowLeft,), s.arrow_left)
    &&& call_ensures(pressed, (CanonKey::KeyA,), s.key_a)
    &&& call_ensures(pressed, (CanonKey::ArrowRight,), s.arrow_right)
    &&& call_ensures(pressed, (CanonKey::KeyD,), s.key_d)
    &&& call_ensures(pressed, (CanonKey::KeyZ,), s.key_z)
    &&& call_ensures(pressed, (CanonKey::Space,), s.space)
    &&& call_ensures(pressed, (CanonKey::KeyX,), s.key_x)
    &&& call_ensures(pressed, (CanonKey::ShiftLeft,), s.shift_left)
    &&& call_ensures(pressed, (CanonKey::ShiftRight,), s.shift_right)
    &&& call_ensures(pressed, (CanonKey::Enter,), s.enter)
    &&& call_ensures(pressed, (CanonKey::Escape,), s.escape)
}

/// `s` holds, for every canon pad button, an answer that `pressed` gives about it.
pub open spec fn pads_read<F: Fn(PadButton) -> bool>(pressed: F, s: PadState) -> bool {
    &&& call_ensures(pressed, (PadButton::DPadUp,), s.dpad_up)
    &&& call_ensures(pressed, (PadButton::DPadDown,), s.dpad_down)
    &&& call_ensures(pressed, (PadButton::DPadLeft,), s.dpad_left)
    &&& call_ensures(pressed, (PadButton::DPadRight,), s.dpad_right)
    &&& call_ensures(pressed, (PadButton::South,), s.south)
    &&& call_ensures(pressed, (PadButton::North,), s.north)
    &&& call_ensures(pressed, (PadButton::West,), s.west)
    &&& call_ensures(pressed, (PadButton::East,), s.east)
    &&& call_ensures(pressed, (PadButton::Select,), s.select)
    &&& call_ensures(pressed, (PadButton::Start,), s.start)
}

/// `bits` when `on`, else nothing.
fn bits_when(on: bool, bits: u32) -> (r: u32)
    ensures
        r == bits_if(on, bits),
{
    if on {
        bits
    } else {
        0
    }
}

/// The button set with exactly the flagged canon buttons.
fn buttons_from_flags(
    up: bool,
    down: bool,
    left: bool,
    right: bool,
    a: bool,
    b: bool,
    start: bool,
    select: bool,
    pause: bool,
) -> (r: Buttons)
    ensures
        r.0 == flag_bits(up, down, left, right, a, b, start, select, pause),
{
    Buttons(
        bits_when(up, 1) | bits_when(down, 2) | bits_when(left, 4) | bits_when(right, 8)
            | bits_when(a, 16) | bits_when(b, 32) | bits_when(start, 64) | bits_when(select, 128)
            | bits_when(pause, 256),
    )
}

/// Canon keyboard mapping. `pressed` answers "is this key down" (or "was it
/// just pressed", for the latch); it is asked once about each canon key.
pub fn map_keys<F: Fn(CanonKey) -> bool>(pressed: F) -> (b: Buttons)
    requires
        forall|k: CanonKey| call_requires(pressed, (k,)),
    ensures
        exists|s: KeyState| keys_read(pressed, s) && b.0 == #[trigger] key_bits(s),
{
    let s = KeyState {
        arrow_up: pressed(CanonKey::ArrowUp),
        key_w: pressed(CanonKey::KeyW),
        arrow_down: pressed(CanonKey::ArrowDown),
        key_s: pressed(CanonKey::KeyS),
        arrow_left: pressed(CanonKey::ArrowLeft),
        key_a: pressed(CanonKey::KeyA),
        arrow_right: pressed(CanonKey::ArrowRight),
        key_d: pressed(CanonKey::KeyD),
        key_z: pressed(CanonKey::KeyZ),
        space: pressed(CanonKey::Space),
        key_x: pressed(CanonKey::KeyX),
        shift_left: pressed(CanonKey::ShiftLeft),
        shift_right: pressed(CanonKey::ShiftRight),
        enter: pressed(CanonKey::Enter),
        escape: pressed(CanonKey::Escape),
    };
    let b = buttons_from_flags(
        s.arrow_up || s.key_w,
        s.arrow_down || s.key_s,
        s.arrow_left || s.key_a,
        s.arrow_right || s.key_d,
        s.key_z || s.space,
        s.key_x || s.shift_left || s.shift_right,
        s.enter,
        false,
        s.escape,
    );
    assert(keys_read(pressed, s));
    assert(b.0 == key_bits(s));
    b
}

/// Canon gamepad mapping. South/North are A and West/East are B because
/// two-button arcade encoders (DragonRise) wire B unpredictably.
pub fn map_gamepad<F: Fn(PadButton) -> bool>(pressed: F) -> (b: Buttons)
    requires
        forall|k: PadButton| call_requires(pressed, (k,)),
    ensures
        exists|s: PadState| pads_read(pressed, s) && b.0 == #[trigger] pad_bits(s),
{
    let s = PadState {
        dpad_up: pressed(PadButton::DPadUp),
        dpad_down: pressed(PadButton::DPadDown),
        dpad_left: pressed(PadButton::DPadLeft),
        dpad_right: pressed(PadButton::DPadRight),
        south: pressed(PadButton::South),
        north: pressed(PadButton::North),
        west: pressed(PadButton::West),
        east: pressed(PadButton::East),
        select: pressed(PadButton::Select),
        start: pressed(PadButton::Start),
    };
    let b = buttons_from_flags(
        s.dpad_up,
        s.dpad_down,
        s.dpad_left,
        s.dpad_right,
        s.south || s.north,
        s.west || s.east,
        false,
        s.select,
        s.start,
    );
    assert(pads_read(pressed, s));
    assert(b.0 == pad_bits(s));
    b
}

/// Each flag sets exactly its own button bit, and nothing outside the
/// protocol bits is ever set.
pub proof fn lemma_flag_bits(
    up: bool,
    down: bool,
    left: bool,
    right: bool,
    a: bool,
    b: bool,
    start: bool,
    select: bool,
    pause: bool,
)
    ensures
        ({
            let x = Buttons(flag_bits(up, down, left, right, a, b, start, select, pause));
            &&& x.has(0) == up
            &&& x.has(1) == down
            &&& x.has(2) == left
            &&& x.has(3) == right
            &&& x.has(4) == a
            &&& x.has(5) == b
            &&& x.has(6) == start
            &&& x.has(7) == select
            &&& x.has(8) == pause
            &&& x.0 & !ALL_BITS == 0
        }),
{
    let x = flag_bits(up, down, left, right, a, b, start, select, pause);
    assert({
        &&& (x >> 0u32) & 1u32 == 1u32 <==> up
        &&& (x >> 1u32) & 1u32 == 1u32 <==> down
        &&& (x >> 2u32) & 1u32 == 1u32 <==> left
        &&& (x >> 3u32) & 1u32 == 1u32 <==> right
        &&& (x >> 4u32) & 1u32 == 1u32 <==> a
        &&& (x >> 5u32) & 1u32 == 1u32 <==> b
        &&& (x >> 6u32) & 1u32 == 1u32 <==> start
        &&& (x >> 7u32) & 1u32 == 1u32 <==> select
        &&& (x >> 8u32) & 1u32 == 1u32 <==> pause
        &&& x & !511u32 == 0u32
    }) by (bit_vector)
        requires
            x == flag_bits(up, down, left, right, a, b, start, select, pause),
    ;
}

/// The canon mappings, button by button: arrows and WASD move (Up, Down,
/// Left, Right), Z or Space is A, X or either Shift is B, Enter is Start and
/// Escape is Pause; the D-pad moves, South or North is A, West or East is B,
/// Select is Select and the pad's Start is Pause. They stay within the
/// protocol bits; the keyboard never gives Select and a gamepad never gives
/// Start.
pub proof fn lemma_canon_mappings(k: KeyState, p: PadState)
    ensures
        key_bits(k) & !ALL_BITS == 0,
        Buttons(key_bits(k)).has(0) == (k.arrow_up || k.key_w),
        Buttons(key_bits(k)).has(1) == (k.arrow_down || k.key_s),
        Buttons(key_bits(k)).has(2) == (k.arrow_left || k.key_a),
        Buttons(key_bits(k)).has(3) == (k.arrow_right || k.key_d),
        Buttons(pad_bits(p)).has(0) == p.dpad_up,
        Buttons(pad_bits(p)).has(1) == p.dpad_down,
        Buttons(pad_bits(p)).has(2) == p.dpad_left,
        Buttons(pad_bits(p)).has(3) == p.dpad_right,
        !Buttons(key_bits(k)).has(7),
        Buttons(key_bits(k)).has(4) == (k.key_z || k.space),
        Buttons(key_bits(k)).has(5) == (k.key_x || k.shift_left || k.shift_right),
        Buttons(key_bits(k)).has(6) == k.enter,
        Buttons(key_bits(k)).has(8) == k.escape,
        pad_bits(p) & !ALL_BITS == 0,
        !Buttons(pad_bits(p)).has(6),
        Buttons(pad_bits(p)).has(4) == (p.south || p.north),
        Buttons(pad_bits(p)).has(5) == (p.west || p.east),
        Buttons(pad_bits(p)).has(7) == p.select,
        Buttons(pad_bits(p)).has(8) == p.start,
{
    lemma_flag_bits(
        k.arrow_up || k.key_w,
        k.arrow_down || k.key_s,
        k.arrow_left || k.key_a,
        k.arrow_right || k.key_d,
        k.key_z || k.space,
        k.key_x || k.shift_left || k.shift_right,
        k.enter,
        false,
        k.escape,
    );
    lemma_flag_bits(
        p.dpad_up,
        p.dpad_down,
        p.dpad_left,
        p.dpad_right,
        p.south || p.north,
        p.west || p.east,
        false,
        p.select,
        p.start,
    );
}

/// The digital part of the frame's input: what gameplay reads, derived from
/// the union edges. `move_x` / `move_y` are the digital axes (-1, 0 or 1,
/// y up-positive) before analog input is added.
#[derive(Debug, Clone, Copy, PartialEq, Eq, Structural, Default)]
pub struct DigitalInput {
    pub move_x: i32,
    pub move_y: i32,
    pub primary_just_pressed: bool,
    pub primary_held: bool,
    pub primary_just_released: bool,
    pub secondary_just_pressed: bool,
    pub secondary_held: bool,
    pub secondary_just_released: bool,
    pub confirm_just_pressed: bool,
    pub start_just_pressed: bool,
    pub select_just_pressed: bool,
    pub pause_just_pressed: bool,
    /// Any canon button had a press edge this frame (studio-logo skip).
    pub any_just_pressed: bool,
    /// The raw edge set, for games that need a button the fields above
    /// don't name.
    pub edges: Edges,
}

/// The digital axis from a negative and a positive direction being held.
pub open spec fn axis(neg: bool, pos: bool) -> int {
    (if pos {
        1int
    } else {
        0int
    }) - (if neg {
        1int
    } else {
        0int
    })
}

/// Builds the digital input of a frame from its edges.
pub fn derive_digital(e: Edges) -> (d: DigitalInput)
    ensures
        d.move_x == axis(e.held.0 & 4 != 0, e.held.0 & 8 != 0),
        d.move_y == axis(e.held.0 & 2 != 0, e.held.0 & 1 != 0),
        d.primary_just_pressed == (e.just_pressed.0 & 16 != 0),
        d.primary_held == (e.held.0 & 16 != 0),
        d.primary_just_released == (e.just_released.0 & 16 != 0),
        d.secondary_just_pressed == (e.just_pressed.0 & 32 != 0),
        d.secondary_held == (e.held.0 & 32 != 0),
        d.secondary_just_released == (e.just_released.0 & 32 != 0),
        d.confirm_just_pressed == (e.just_pressed.0 & 112 != 0),
        d.start_just_pressed == (e.just_pressed.0 & 64 != 0),
        d.select_just_pressed == (e.just_pressed.0 & 128 != 0),
        d.pause_just_pressed == (e.just_pressed.0 & 256 != 0),
        d.any_just_pressed == (e.just_pressed.0 != 0),
        d.edges == e,
        // Right alone moves right, Left alone moves left, both or neither
        // stay put; likewise Up (positive) and Down.
        d.move_x == 1 <==> (e.held.0 & 8 != 0 && e.held.0 & 4 == 0),
        d.move_x == -1 <==> (e.held.0 & 4 != 0 && e.held.0 & 8 == 0),
        d.move_y == 1 <==> (e.held.0 & 1 != 0 && e.held.0 & 2 == 0),
        d.move_y == -1 <==> (e.held.0 & 2 != 0 && e.held.0 & 1 == 0),
        -1 <= d.move_x <= 1 && -1 <= d.move_y <= 1,
        // Confirm is exactly a press of A, B or Start.
        d.confirm_just_pressed == (d.primary_just_pressed || d.secondary_just_pressed
            || d.start_just_pressed),
{
    let held = e.held;
    let jp = e.just_pressed;
    let move_x: i32 = if held.contains(Buttons::right()) {
        1
    } else {
        0
    } - if held.contains(Buttons::left()) {
        1
    } else {
        0
    };
    let move_y: i32 = if held.contains(Buttons::up()) {
        1
    } else {
        0
    } - if held.contains(Buttons::down()) {
        1
    } else {
        0
    };
    let confirm = Buttons::a().union(Buttons::b()).union(Buttons::start());
    proof {
        let x = jp.0;
        assert(16u32 | 32u32 | 64u32 == 112u32) by (bit_vector);
        assert((x & 112u32 != 0u32) == (x & 16u32 != 0u32 || x & 32u32 != 0u32 || x & 64u32
            != 0u32)) by (bit_vector);
    }
    DigitalInput {
        move_x,
        move_y,
        primary_just_pressed: jp.contains(Buttons::a()),
        primary_held: held.contains(Buttons::a()),
        primary_just_released: e.just_released.contains(Buttons::a()),
        secondary_just_pressed: jp.contains(Buttons::b()),
        secondary_held: held.contains(Buttons::b()),
        secondary_just_released: e.just_released.contains(Buttons::b()),
        confirm_just_pressed: jp.contains(confirm),
        start_just_pressed: jp.contains(Buttons::start()),
        select_just_pressed: jp.contains(Buttons::select()),
        pause_just_pressed: jp.contains(Buttons::pause()),
        any_just_pressed: !jp.is_empty(),
        edges: e,
    }
}

/// Digital state written by sources outside the engine's own input
/// handling: the web glue (touch overlay, `gx:input`, Gamepad API) or a
/// native host such as the kiosk launcher. `latched` accumulates every bit
/// pressed since the last frame and is cleared when a frame takes it.
#[derive(Debug, Clone, Copy, PartialEq, Eq, Structural, Default)]
pub struct VirtualInput {
    pub held: Buttons,
    pub latched: Buttons,
}

impl VirtualInput {
    /// Replaces the held set, latching any newly pressed bits.
    pub fn set_held(&mut self, held: Buttons)
        ensures
            final(self).held == held,
            final(self).latched.0 == old(self).latched.0 | (held.0 & !old(self).held.0),
            // Nothing latched is lost, and every newly pressed bit is latched.
            old(self).latched.0 & !final(self).latched.0 == 0,
            (held.0 & !old(self).held.0) & !final(self).latched.0 == 0,
    {
        let old_latched = self.latched.0;
        let old_held = self.held.0;
        self.latched = self.latched.union(held.difference(self.held));
        self.held = held;
        proof {
            let h = held.0;
            assert(old_latched & !(old_latched | (h & !old_held)) == 0u32) by (bit_vector);
            assert((h & !old_held) & !(old_latched | (h & !old_held)) == 0u32) by (bit_vector);
        }
    }

    /// Takes the latched set for this frame, leaving nothing latched.
    pub fn take_latched(&mut self) -> (r: Buttons)
        ensures
            r == old(self).latched,
            final(self).latched.0 == 0,
            final(self).held == old(self).held,
    {
        let r = self.latched;
        self.latched = Buttons::none();
        r
    }

    /// Records one poll of an outside source: its held set, and the bits it
    /// saw pressed since its previous poll.
    pub fn record_poll(&mut self, held: Buttons, latched: Buttons)
        ensures
            final(self).held == held,
            final(self).latched.0 == (old(self).latched.0 | (held.0 & !old(self).held.0))
                | latched.0,
    {
        self.set_held(held);
        self.latched = self.latched.union(latched);
    }
}

/// The previous frame's union, kept between frames.
#[derive(Debug, Clone, Copy, Default)]
pub struct InputFrame {
    prev: Buttons,
}

impl View for InputFrame {
    type V = Buttons;

    closed spec fn view(&self) -> Buttons {
        self.prev
    }
}

impl InputFrame {
    /// A frame before anything was held.
    pub fn new() -> (f: InputFrame)
        ensures
            f@.0 == 0,
    {
        InputFrame { prev: Buttons::none() }
    }

    /// The set held in the previous frame.
    pub fn prev(&self) -> (b: Buttons)
        ensures
            b == self@,
    {
        self.prev
    }
}

/// The union of every set in `s`.
pub open spec fn union_all(s: Seq<Buttons>) -> u32
    decreases s.len(),
{
    if s.len() == 0 {
        0
    } else {
        union_all(s.drop_last()) | s.last().0
    }
}

/// The union holds exactly the buttons that some set holds: a bit is in it
/// if and only if one of the sets has it.
pub proof fn lemma_union_all_exact(s: Seq<Buttons>, i: u32)
    requires
        i < 32,
    ensures
        Buttons(union_all(s)).has(i) <==> exists|j: int| 0 <= j < s.len() && (#[trigger] s[j]).has(i),
    decreases s.len(),
{
    if s.len() == 0 {
        assert((0u32 >> i) & 1u32 != 1u32) by (bit_vector);
    } else {
        let u = union_all(s.drop_last());
        let x = s.last().0;
        lemma_union_all_exact(s.drop_last(), i);
        assert(((u | x) >> i) & 1u32 == 1u32 <==> ((u >> i) & 1u32 == 1u32 || (x >> i) & 1u32
            == 1u32)) by (bit_vector)
            requires
                i < 32u32,
        ;
        if Buttons(union_all(s)).has(i) {
            if Buttons(x).has(i) {
                assert(s[s.len() - 1].has(i));
            } else {
                let j = choose|j: int| 0 <= j < s.drop_last().len() && (#[trigger] s.drop_last()[j]).has(i);
                assert(s[j] == s.drop_last()[j]);
            }
        } else {
            assert forall|j: int| 0 <= j < s.len() implies !(#[trigger] s[j]).has(i) by {
                if j < s.len() - 1 {
                    assert(s[j] == s.drop_last()[j]);
                }
            }
        }
    }
}

/// Every set is part of the union.
pub proof fn lemma_union_all_includes(s: Seq<Buttons>, j: int)
    requires
        0 <= j < s.len(),
    ensures
        s[j].0 & !union_all(s) == 0,
    decreases s.len(),
{
    let u = union_all(s.drop_last());
    let x = s.last().0;
    let a = s[j].0;
    if j == s.len() - 1 {
        assert(x & !(u | x) == 0u32) by (bit_vector);
    } else {
        lemma_union_all_includes(s.drop_last(), j);
        assert(s.drop_last()[j] == s[j]);
        assert(a & !u == 0u32 ==> a & !(u | x) == 0u32) by (bit_vector);
    }
}

fn union_of(sets: &Vec<Buttons>) -> (u: Buttons)
    ensures
        u.0 == union_all(sets@),
{
    let mut u = Buttons::none();
    let n = sets.len();
    for i in 0..n
        invariant
            n == sets@.len(),
            u.0 == union_all(sets@.take(i as int)),
    {
        assert(sets@.take(i + 1).drop_last() =~= sets@.take(i as int));
        u = u.union(sets[i]);
    }
    assert(sets@.take(n as int) =~= sets@);
    u
}

/// Computes one frame's edges from every source: the sets each keyboard and
/// gamepad holds, the sets each saw pressed since the last frame, and the
/// virtual source, whose latch the frame consumes. The frame then remembers
/// the held union for the next one.
pub fn collect_edges(
    held_sources: &Vec<Buttons>,
    latched_sources: &Vec<Buttons>,
    virt: &mut VirtualInput,
    frame: &mut InputFrame,
) -> (e: Edges)
    ensures
        e == spec_edges(
            old(frame)@.0,
            union_all(held_sources@) | old(virt).held.0,
            union_all(latched_sources@) | old(virt).latched.0,
        ),
        final(frame)@ == e.held,
        final(virt).held == old(virt).held,
        final(virt).latched.0 == 0,
        // A button that any source still holds is not released.
        forall|j: int|
            0 <= j < held_sources@.len() ==> #[trigger] held_sources@[j].0 & ALL_BITS
                & e.just_released.0 == 0,
        old(virt).held.0 & ALL_BITS & e.just_released.0 == 0,
{
    let held = union_of(held_sources).union(virt.held);
    let latched = union_of(latched_sources).union(virt.take_latched());
    let e = edges(frame.prev, held, latched);
    frame.prev = e.held;
    proof {
        let p = old(frame)@.0;
        let u = union_all(held_sources@);
        let v = old(virt).held.0;
        assert forall|j: int|
            0 <= j < held_sources@.len() implies #[trigger] held_sources@[j].0 & ALL_BITS
            & e.just_released.0 == 0 by {
            lemma_union_all_includes(held_sources@, j);
            let a = held_sources@[j].0;
            assert(a & !u == 0u32 ==> a & 511u32 & (p & !((u | v) & 511u32)) == 0u32)
                by (bit_vector);
        }
        assert(v & 511u32 & (p & !((u | v) & 511u32)) == 0u32) by (bit_vector);
    }
    e
}

} // verus!
