//! The four indicator lights: which change a request makes, and how the
//! light task fades a channel for it.
use vstd::prelude::*;

verus! {

/// One of the four lights.
#[derive(Clone, Copy, Debug, PartialEq, Eq, Structural)]
pub enum Color {
    White,
    Yellow,
    Green,
    Blue,
}

/// A request to switch one light on (`true`) or off (`false`).
#[derive(Clone, Copy, Debug, PartialEq, Eq, Structural)]
pub enum LightChange {
    Blue(bool),
    Green(bool),
    Yellow(bool),
    White(bool),
}

/// The change that switches `color` to `on`.
pub open spec fn change_of(color: Color, on: bool) -> LightChange {
    match color {
        Color::White => LightChange::White(on),
        Color::Yellow => LightChange::Yellow(on),
        Color::Green => LightChange::Green(on),
        Color::Blue => LightChange::Blue(on),
    }
}

/// The change that switches `color` to `on`.
pub fn light(color: Color, on: bool) -> (r: LightChange)
    ensures
        r == change_of(color, on),
{
    match color {
        Color::White => LightChange::White(on),
        Color::Yellow => LightChange::Yellow(on),
        Color::Green => LightChange::Green(on),
        Color::Blue => LightChange::Blue(on),
    }
}

/// The changes that switch every light off, in the order they are sent.
pub fn off() -> (r: Vec<LightChange>)
    ensures
        r@ == seq![
            LightChange::White(false),
            LightChange::Yellow(false),
            LightChange::Green(false),
            LightChange::Blue(false),
        ],
{
    let mut r: Vec<LightChange> = Vec::new();
    r.push(LightChange::White(false));
    r.push(LightChange::Yellow(false));
    r.push(LightChange::Green(false));
    r.push(LightChange::Blue(false));
    r
}

/// A duty-cycle fade of one light channel.
#[derive(Clone, Copy, Debug, PartialEq, Eq, Structural)]
pub struct Fade {
    pub color: Color,
    /// Duty cycle at the start, in percent.
    pub from_pct: u8,
    /// Duty cycle at the end, in percent.
    pub to_pct: u8,
    /// How long the fade takes.
    pub duration_ms: u16,
}

/// Duty cycle of a light when fully on, in percent.
pub open spec fn peak_pct(color: Color) -> u8 {
    match color {
        Color::Yellow => 40,
        _ => 20,
    }
}

/// How long a light takes to fade, in milliseconds.
pub open spec fn fade_ms(color: Color) -> u16 {
    match color {
        Color::Yellow => 400,
        Color::Green => 128,
        _ => 40,
    }
}

/// The light a change is about, and whether it switches it on.
pub open spec fn target(change: LightChange) -> (Color, bool) {
    match change {
        LightChange::Blue(on) => (Color::Blue, on),
        LightChange::Green(on) => (Color::Green, on),
        LightChange::Yellow(on) => (Color::Yellow, on),
        LightChange::White(on) => (Color::White, on),
    }
}

/// The fade that carries out a change: up from dark to the light's peak, or
/// down from its peak to dark.
pub fn fade_for(change: LightChange) -> (r: Fade)
    ensures
        r.color == target(change).0,
        r.duration_ms == fade_ms(r.color),
        target(change).1 ==> r.from_pct == 0 && r.to_pct == peak_pct(r.color),
        !target(change).1 ==> r.from_pct == peak_pct(r.color) && r.to_pct == 0,
{
    let (color, on, peak, ms): (Color, bool, u8, u16) = match change {
        LightChange::Yellow(on) => (Color::Yellow, on, 40, 400),
        LightChange::Green(on) => (Color::Green, on, 20, 128),
        LightChange::Blue(on) => (Color::Blue, on, 20, 40),
        LightChange::White(on) => (Color::White, on, 20, 40),
    };
    if on {
        Fade { color, from_pct: 0, to_pct: peak, duration_ms: ms }
    } else {
        Fade { color, from_pct: peak, to_pct: 0, duration_ms: ms }
    }
}

} // verus!
