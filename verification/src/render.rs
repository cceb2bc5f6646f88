//! The decisions a rendering backend takes for each draw command: how
//! polygons are rasterized, and which texture is sampled.
use vstd::prelude::*;

use crate::draw::{DrawMode, TextureId};

verus! {

/// How polygons are rasterized: filled, as their outline, or as their
/// vertices.
#[derive(Copy, Clone, Debug, PartialEq, Eq, Structural)]
pub enum PolygonMode {
    Fill,
    Line,
    Point,
}

/// The texture a draw command samples.
#[derive(Copy, Clone, Debug, PartialEq, Eq, Structural)]
pub enum TextureSource {
    /// The blank (white) texture of the backend.
    Blank,
    /// A texture registered with the backend.
    Texture(usize),
    /// The texture of a registered font.
    Font(usize),
}

/// The debug mode that follows `m` when debug rendering is switched:
/// fill, then lines, then points, then fill again.
pub open spec fn next_mode(m: PolygonMode) -> PolygonMode {
    match m {
        PolygonMode::Fill => PolygonMode::Line,
        PolygonMode::Line => PolygonMode::Point,
        PolygonMode::Point => PolygonMode::Fill,
    }
}

/// The rasterization a draw mode asks for when debug rendering is off.
pub open spec fn natural_mode(d: DrawMode) -> PolygonMode {
    match d {
        DrawMode::Triangles => PolygonMode::Fill,
        DrawMode::Lines => PolygonMode::Line,
        DrawMode::Points => PolygonMode::Point,
    }
}

/// The debug-rendering state of a backend: the rasterization forced on
/// every draw command, and whether it is forced at all (it is exactly when
/// the mode is not `Fill`).
pub struct DebugRendering {
    debug_poly_mode: PolygonMode,
    debug_rendering: bool,
}

impl DebugRendering {
    #[verifier::type_invariant]
    spec fn consistent(self) -> bool {
        self.debug_rendering == (self.debug_poly_mode != PolygonMode::Fill)
    }

    /// The rasterization forced when debug rendering is on.
    pub closed spec fn mode(&self) -> PolygonMode {
        self.debug_poly_mode
    }

    /// Whether debug rendering is on.
    pub closed spec fn enabled(&self) -> bool {
        self.debug_rendering
    }

    /// Debug rendering off, polygons filled.
    pub fn new() -> (r: Self)
        ensures
            r.mode() == PolygonMode::Fill,
            !r.enabled(),
    {
        DebugRendering { debug_poly_mode: PolygonMode::Fill, debug_rendering: false }
    }

    /// Whether debug rendering is on.
    pub fn is_enabled(&self) -> (r: bool)
        ensures
            r == self.enabled(),
            r == (self.mode() != PolygonMode::Fill),
    {
        proof {
            use_type_invariant(self);
        }
        self.debug_rendering
    }

    /// The rasterization forced when debug rendering is on.
    pub fn poly_mode(&self) -> (r: PolygonMode)
        ensures
            r == self.mode(),
    {
        self.debug_poly_mode
    }

    /// Switches to the next debug mode: lines, then points, then back to
    /// normal rendering.
    pub fn switch_debug_rendering(&mut self)
        ensures
            final(self).mode() == next_mode(old(self).mode()),
            final(self).enabled() == (next_mode(old(self).mode()) != PolygonMode::Fill),
    {
        match self.debug_poly_mode {
            PolygonMode::Fill => {
                *self = DebugRendering { debug_poly_mode: PolygonMode::Line, debug_rendering: true };
            },
            PolygonMode::Line => {
                *self = DebugRendering { debug_poly_mode: PolygonMode::Point, debug_rendering: true };
            },
            PolygonMode::Point => {
                *self = DebugRendering { debug_poly_mode: PolygonMode::Fill, debug_rendering: false };
            },
        }
    }

    /// The rasterization of a draw command: the one its draw mode asks for,
    /// unless debug rendering forces another.
    pub fn polygon_mode(&self, draw_mode: DrawMode) -> (r: PolygonMode)
        ensures
            r == (if self.enabled() {
                self.mode()
            } else {
                natural_mode(draw_mode)
            }),
    {
        if !self.debug_rendering {
            match draw_mode {
                DrawMode::Triangles => PolygonMode::Fill,
                DrawMode::Lines => PolygonMode::Line,
                DrawMode::Points => PolygonMode::Point,
            }
        } else {
            self.debug_poly_mode
        }
    }

    /// The texture a draw command samples: the blank one when it has none or
    /// when debug rendering is on, its own otherwise.
    pub fn texture_source(&self, texture: Option<TextureId>) -> (r: TextureSource)
        ensures
            r == (match texture {
                None => TextureSource::Blank,
                Some(t) => if self.enabled() {
                    TextureSource::Blank
                } else {
                    match t {
                        TextureId::Texture(i) => TextureSource::Texture(i),
                        TextureId::Font(i) => TextureSource::Font(i),
                    }
                },
            }),
    {
        match texture {
            None => TextureSource::Blank,
            Some(t) => {
                if self.debug_rendering {
                    TextureSource::Blank
                } else {
                    match t {
                        TextureId::Texture(i) => TextureSource::Texture(i),
                        TextureId::Font(i) => TextureSource::Font(i),
                    }
                }
            },
        }
    }
}

/// Switching debug rendering three times comes back to the mode one started
/// from.
pub proof fn lemma_switch_cycles(m: PolygonMode)
    ensures
        next_mode(next_mode(next_mode(m))) == m,
        next_mode(m) != m,
{
}

} // verus!
