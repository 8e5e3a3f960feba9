//! A bordered, filled rectangle: the reference leaf widget.

use vstd::prelude::*;
use crate::{Backend, Color, DrawCmd};
use crate::widget::{Widget, WidgetCommon, WidgetManager};

verus! {

/// Four independent (thickness, color) pairs, one per edge.
#[derive(Clone, Copy, PartialEq, Eq, Structural, Debug)]
pub struct Border {
    pub top_thickness: u32,
    pub bottom_thickness: u32,
    pub left_thickness: u32,
    pub right_thickness: u32,
    pub top_color: Color,
    pub bottom_color: Color,
    pub left_color: Color,
    pub right_color: Color,
}

impl Border {
    /// A uniform border: one thickness and one color for all four edges.
    pub fn new_all_same(thickness: u32, color: Color) -> (b: Border)
        ensures
            b == (Border {
                top_thickness: thickness,
                bottom_thickness: thickness,
                left_thickness: thickness,
                right_thickness: thickness,
                top_color: color,
                bottom_color: color,
                left_color: color,
                right_color: color,
            }),
    {
        Border {
            top_thickness: thickness,
            bottom_thickness: thickness,
            left_thickness: thickness,
            right_thickness: thickness,
            top_color: color,
            bottom_color: color,
            left_color: color,
            right_color: color,
        }
    }

    /// A dual-tone border: top and left edges in `upper`, bottom and right
    /// edges in `lower`, producing a pseudo-3D bevel.
    pub fn new_dual_color(thickness: u32, upper: Color, lower: Color) -> (b: Border)
        ensures
            b == (Border {
                top_thickness: thickness,
                bottom_thickness: thickness,
                left_thickness: thickness,
                right_thickness: thickness,
                top_color: upper,
                bottom_color: lower,
                left_color: upper,
                right_color: lower,
            }),
    {
        Border {
            top_thickness: thickness,
            bottom_thickness: thickness,
            left_thickness: thickness,
            right_thickness: thickness,
            top_color: upper,
            left_color: upper,
            bottom_color: lower,
            right_color: lower,
        }
    }
}

/// A bordered filled rectangle; paint is a pure function of its fields.
#[derive(Clone, Copy, PartialEq, Eq, Structural, Debug)]
pub struct Box {
    pub common: WidgetCommon,
    pub border: Border,
    pub background: Color,
}

impl Box {
    /// A box at (x, y) of size (w, h) with the given border and background,
    /// under a fresh id issued by `manager`.
    pub fn new(
        manager: &mut WidgetManager,
        x: u32,
        y: u32,
        w: u32,
        h: u32,
        border: Border,
        background: Color,
    ) -> (b: Box)
        requires
            old(manager).wf(),
            old(manager).counter() < u32::MAX,
        ensures
            crate::widget::issues_one(*old(manager), *final(manager), b.common.id),
            b.common == (WidgetCommon { x, y, w, h, id: old(manager).counter() }),
            b.border == border,
            b.background == background,
    {
        let mut common = WidgetCommon::new(manager);
        common.x = x;
        common.y = y;
        common.w = w;
        common.h = h;
        Box { common, border, background }
    }

    /// Whether this box can be painted at (off_x, off_y) without leaving
    /// machine coordinates: the runtime test for paint's premise.
    pub fn can_paint(&self, off_x: u32, off_y: u32) -> (r: bool)
        ensures
            r == box_paint_ready(*self, off_x, off_y),
    {
        let x_fits = (self.common.x as u64) + (off_x as u64) + (self.common.w as u64) <= (
        u32::MAX as u64);
        let y_fits = (self.common.y as u64) + (off_y as u64) + (self.common.h as u64) <= (
        u32::MAX as u64);
        x_fits && y_fits && self.border.bottom_thickness <= self.common.h
            && self.border.right_thickness <= self.common.w
    }
}

/// The commands a `Box` emits when painted with its local origin translated
/// by (off_x, off_y): a background fill over the whole rect, then the top,
/// left, bottom and right edge strips, in that order. Strips are drawn after
/// the background, so border color wins over background where they overlap;
/// at a corner, the strip drawn later wins.
pub open spec fn box_paint_cmds(b: Box, off_x: u32, off_y: u32) -> Seq<DrawCmd> {
    let ax = (b.common.x + off_x) as u32;
    let ay = (b.common.y + off_y) as u32;
    seq![
        DrawCmd::FillRect { x: ax, y: ay, w: b.common.w, h: b.common.h, color: b.background },
        DrawCmd::FillRect {
            x: ax,
            y: ay,
            w: b.common.w,
            h: b.border.top_thickness,
            color: b.border.top_color,
        },
        DrawCmd::FillRect {
            x: ax,
            y: ay,
            w: b.border.left_thickness,
            h: b.common.h,
            color: b.border.left_color,
        },
        DrawCmd::FillRect {
            x: ax,
            y: ((ay + b.common.h) - b.border.bottom_thickness) as u32,
            w: b.common.w,
            h: b.border.bottom_thickness,
            color: b.border.bottom_color,
        },
        DrawCmd::FillRect {
            x: ((ax + b.common.w) - b.border.right_thickness) as u32,
            y: ay,
            w: b.border.right_thickness,
            h: b.common.h,
            color: b.border.right_color,
        },
    ]
}

/// Painting a `Box` at (off_x, off_y) stays within machine coordinates:
/// the translated rect fits in `u32` and each border thickness fits within
/// the rect's extent on its axis.
pub open spec fn box_paint_ready(b: Box, off_x: u32, off_y: u32) -> bool {
    &&& b.common.x + off_x + b.common.w <= u32::MAX
    &&& b.common.y + off_y + b.common.h <= u32::MAX
    &&& b.border.bottom_thickness <= b.common.h
    &&& b.border.right_thickness <= b.common.w
}

impl Widget for Box {
    open spec fn wcommon(&self) -> WidgetCommon {
        self.common
    }

    open spec fn paint_model(&self, off_x: u32, off_y: u32) -> Seq<DrawCmd> {
        box_paint_cmds(*self, off_x, off_y)
    }

    open spec fn paint_ready(&self, off_x: u32, off_y: u32) -> bool {
        box_paint_ready(*self, off_x, off_y)
    }

    fn common(&self) -> (c: &WidgetCommon) {
        &self.common
    }

    /// Draws, in order: background fill, top strip, left strip, bottom strip,
    /// right strip, so that later strips override earlier ones where edges
    /// meet at a corner.
    fn paint<B: Backend>(&self, backend: &mut B, off_x: u32, off_y: u32) {
        let left = self.common.x + off_x;
        let top = self.common.y + off_y;
        backend.fill_rect(left, top, self.common.w, self.common.h, self.background);
        backend.fill_rect(left, top, self.common.w, self.border.top_thickness,
            self.border.top_color);
        backend.fill_rect(left, top, self.border.left_thickness, self.common.h,
            self.border.left_color);
        backend.fill_rect(left, top + self.common.h - self.border.bottom_thickness,
            self.common.w, self.border.bottom_thickness, self.border.bottom_color);
        backend.fill_rect(left + self.common.w - self.border.right_thickness, top,
            self.border.right_thickness, self.common.h, self.border.right_color);
        proof {
            assert(backend.cmds() =~= old(backend).cmds() + box_paint_cmds(*self, off_x, off_y));
        }
    }
}

} // verus!
