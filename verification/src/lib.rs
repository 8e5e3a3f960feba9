//! A minimal retained-mode GUI toolkit core: a tree of positioned widgets
//! painted through an abstract drawing backend, and a polling animation
//! scheduler that advances timer-driven state between frames.

use vstd::prelude::*;

pub mod animation;
pub mod box_widget;
pub mod collection;
pub mod widget;

verus! {

/// An RGBA color with 8-bit channels.
#[derive(Clone, Copy, PartialEq, Eq, Structural, Debug)]
pub struct Color {
    pub r: u8,
    pub g: u8,
    pub b: u8,
    pub a: u8,
}

/// The red channel of a packed `0xRRGGBBAA` value.
pub open spec fn rgba_r(rgba: u32) -> u8 {
    ((rgba >> 24) & 0xFF) as u8
}

/// The green channel of a packed `0xRRGGBBAA` value.
pub open spec fn rgba_g(rgba: u32) -> u8 {
    ((rgba >> 16) & 0xFF) as u8
}

/// The blue channel of a packed `0xRRGGBBAA` value.
pub open spec fn rgba_b(rgba: u32) -> u8 {
    ((rgba >> 8) & 0xFF) as u8
}

/// The alpha channel of a packed `0xRRGGBBAA` value.
pub open spec fn rgba_a(rgba: u32) -> u8 {
    (rgba & 0xFF) as u8
}

impl Color {
    /// Builds an opaque color from its three components.
    pub fn from_components(r: u8, g: u8, b: u8) -> (c: Color)
        ensures
            c == (Color { r, g, b, a: 255u8 }),
    {
        Color { r, g, b, a: 255 }
    }

    /// Unpacks a `0xRRGGBBAA` value into its four channels.
    pub fn from_rgba(rgba: u32) -> (c: Color)
        ensures
            c == (Color {
                r: rgba_r(rgba),
                g: rgba_g(rgba),
                b: rgba_b(rgba),
                a: rgba_a(rgba),
            }),
    {
        let r = ((rgba & 0xFF000000) >> 24) as u8;
        let g = ((rgba & 0x00FF0000) >> 16) as u8;
        let b = ((rgba & 0x0000FF00) >> 8) as u8;
        let a = (rgba & 0x000000FF) as u8;
        proof {
            assert(((rgba & 0xFF000000) >> 24) as u8 == ((rgba >> 24) & 0xFF) as u8) by (bit_vector);
            assert(((rgba & 0x00FF0000) >> 16) as u8 == ((rgba >> 16) & 0xFF) as u8) by (bit_vector);
            assert(((rgba & 0x0000FF00) >> 8) as u8 == ((rgba >> 8) & 0xFF) as u8) by (bit_vector);
        }
        Color { r, g, b, a }
    }

    /// Unpacks a `0xRRGGBB__` value, forcing the alpha channel to fully opaque.
    pub fn from_rgb(rgb: u32) -> (c: Color)
        ensures
            c == (Color { r: rgba_r(rgb), g: rgba_g(rgb), b: rgba_b(rgb), a: 255u8 }),
    {
        let packed = rgb & 0xFFFFFF00 | 0x000000FF;
        proof {
            assert((((rgb & 0xFFFFFF00 | 0x000000FF) >> 24) & 0xFF) as u8 == ((rgb >> 24)
                & 0xFF) as u8) by (bit_vector);
            assert((((rgb & 0xFFFFFF00 | 0x000000FF) >> 16) & 0xFF) as u8 == ((rgb >> 16)
                & 0xFF) as u8) by (bit_vector);
            assert((((rgb & 0xFFFFFF00 | 0x000000FF) >> 8) & 0xFF) as u8 == ((rgb >> 8)
                & 0xFF) as u8) by (bit_vector);
            assert(((rgb & 0xFFFFFF00 | 0x000000FF) & 0xFF) as u8 == 255u8) by (bit_vector);
        }
        Color::from_rgba(packed)
    }
}

/// A platform input event; stored by hosts, never dispatched by this core.
pub enum MouseEvent {
    MouseOver { x: u32, y: u32 },
    MouseDown { x: u32, y: u32, button: u8 },
    MouseUp { x: u32, y: u32, button: u8 },
    Click { x: u32, y: u32, button: u8 },
    DoubleClick { x: u32, y: u32, button: u8 },
    WheelDown { x: u32, y: u32, amount: u8 },
    WheelUp { x: u32, y: u32, amount: u8 },
}

/// One primitive drawing operation, in absolute pixel coordinates.
///
/// Paint contracts are stated as the exact sequence of these commands a
/// widget appends to a backend.
#[derive(Clone, Copy, PartialEq, Eq, Structural, Debug)]
pub enum DrawCmd {
    FillRect { x: u32, y: u32, w: u32, h: u32, color: Color },
    HorizLine { x: u32, y: u32, w: u32, color: Color },
    VertLine { x: u32, y: u32, h: u32, color: Color },
}

/// An abstract drawing surface. Its state is modelled as the sequence of
/// commands issued so far; each primitive appends exactly one command.
pub trait Backend: Sized {
    /// The commands issued to this surface so far, oldest first.
    spec fn cmds(&self) -> Seq<DrawCmd>;

    fn fill_rect(&mut self, x: u32, y: u32, w: u32, h: u32, color: Color)
        ensures
            final(self).cmds() == old(self).cmds().push(DrawCmd::FillRect { x, y, w, h, color }),
    ;

    fn draw_horiz_line(&mut self, x: u32, y: u32, w: u32, color: Color)
        ensures
            final(self).cmds() == old(self).cmds().push(DrawCmd::HorizLine { x, y, w, color }),
    ;

    fn draw_vert_line(&mut self, x: u32, y: u32, h: u32, color: Color)
        ensures
            final(self).cmds() == old(self).cmds().push(DrawCmd::VertLine { x, y, h, color }),
    ;
}

/// A backend that only records the commands it receives, for inspecting
/// paint output.
pub struct RecordingBackend {
    pub recorded: Vec<DrawCmd>,
}

impl RecordingBackend {
    pub fn new() -> (b: RecordingBackend)
        ensures
            b.cmds() == Seq::<DrawCmd>::empty(),
    {
        RecordingBackend { recorded: Vec::new() }
    }
}

impl Backend for RecordingBackend {
    open spec fn cmds(&self) -> Seq<DrawCmd> {
        self.recorded@
    }

    fn fill_rect(&mut self, x: u32, y: u32, w: u32, h: u32, color: Color) {
        self.recorded.push(DrawCmd::FillRect { x, y, w, h, color });
    }

    fn draw_horiz_line(&mut self, x: u32, y: u32, w: u32, color: Color) {
        self.recorded.push(DrawCmd::HorizLine { x, y, w, color });
    }

    fn draw_vert_line(&mut self, x: u32, y: u32, h: u32, color: Color) {
        self.recorded.push(DrawCmd::VertLine { x, y, h, color });
    }
}

} // verus!
