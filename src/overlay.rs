//! Whether the full-window overlay is shown, and the keys that close it. The
//! drawing itself belongs to the renderer.
use vstd::prelude::*;

verus! {

/// The keys that the overlay reacts to.
#[derive(Debug, PartialEq, Eq, Structural, Clone, Copy)]
pub enum TakeoverKey {
    Escape,
    LBracket,
    Other,
}

/// Overlay state of one window.
#[derive(Debug)]
pub struct Takeover {
    pub active: bool,
}

/// A key press closes the overlay: Escape, or `[` with Control or Super
/// (the terminal spelling of Escape).
pub open spec fn closes(key: TakeoverKey, ctrl: bool, logo: bool) -> bool {
    key == TakeoverKey::Escape || (key == TakeoverKey::LBracket && (ctrl || logo))
}

impl Default for Takeover {
    fn default() -> (r: Takeover)
        ensures
            !r.active,
    {
        Takeover { active: false }
    }
}

impl Takeover {
    /// Whether a new overlay event is taken: not while one is shown.
    pub fn accepts_update(&self) -> (r: bool)
        ensures
            r == !self.active,
    {
        !self.active
    }

    /// The renderer for an accepted event was created: the overlay shows.
    pub fn show(&mut self)
        ensures
            final(self).active,
    {
        self.active = true;
    }

    /// Handles a key press; returns whether the overlay closed, in which case
    /// the window is to be redrawn.
    pub fn key_input(&mut self, key: TakeoverKey, ctrl: bool, logo: bool) -> (r: bool)
        ensures
            r == closes(key, ctrl, logo),
            final(self).active == (old(self).active && !r),
    {
        let close = match key {
            TakeoverKey::Escape => true,
            TakeoverKey::LBracket => ctrl || logo,
            TakeoverKey::Other => false,
        };
        if close {
            self.active = false;
        }
        close
    }
}

} // verus!
