//! Terminal rectangles, overlay placement and mouse hit-testing.

use vstd::prelude::*;

use crate::events::Focus;

verus! {

/// A rectangle of terminal cells.
#[derive(Debug, Clone, Copy, PartialEq, Eq, Structural)]
pub struct Rect {
    pub x: u16,
    pub y: u16,
    pub width: u16,
    pub height: u16,
}

/// `a + b`, or the largest `u16` when that does not fit.
pub open spec fn sat_add(a: u16, b: u16) -> u16 {
    if a + b > u16::MAX {
        u16::MAX
    } else {
        (a + b) as u16
    }
}

/// `a - b`, or 0 when `b` is larger.
pub open spec fn sat_sub(a: u16, b: u16) -> u16 {
    if a >= b {
        (a - b) as u16
    } else {
        0
    }
}

/// The smaller of two values.
pub open spec fn min16(a: u16, b: u16) -> u16 {
    if a <= b {
        a
    } else {
        b
    }
}

/// The larger of two values.
pub open spec fn max16(a: u16, b: u16) -> u16 {
    if a >= b {
        a
    } else {
        b
    }
}

impl Rect {
    /// The empty rectangle at the origin.
    pub fn zero() -> (r: Rect)
        ensures
            r == (Rect { x: 0, y: 0, width: 0, height: 0 }),
    {
        Rect { x: 0, y: 0, width: 0, height: 0 }
    }

    /// A rectangle, shrunk so that it does not run past the largest coordinate.
    pub fn new(x: u16, y: u16, width: u16, height: u16) -> (r: Rect)
        ensures
            r.x == x,
            r.y == y,
            r.width == sat_add(x, width) - x,
            r.height == sat_add(y, height) - y,
            r.wf(),
    {
        let width = x.saturating_add(width) - x;
        let height = y.saturating_add(height) - y;
        Rect { x, y, width, height }
    }

    /// Whether the rectangle ends within the coordinate range.
    pub open spec fn wf(self) -> bool {
        self.x + self.width <= u16::MAX && self.y + self.height <= u16::MAX
    }

    /// Whether the rectangle ends within the coordinate range.
    pub fn is_wf(&self) -> (r: bool)
        ensures
            r == self.wf(),
    {
        self.width <= u16::MAX - self.x && self.height <= u16::MAX - self.y
    }

    /// The first column to the right of the rectangle.
    pub fn right(&self) -> (r: u16)
        ensures
            r == sat_add(self.x, self.width),
    {
        self.x.saturating_add(self.width)
    }

    /// The first row below the rectangle.
    pub fn bottom(&self) -> (r: u16)
        ensures
            r == sat_add(self.y, self.height),
    {
        self.y.saturating_add(self.height)
    }

    /// Whether the cell `(col, row)` lies in the rectangle.
    pub open spec fn contains_spec(self, col: u16, row: u16) -> bool {
        col >= self.x && col < self.x + self.width && row >= self.y && row < self.y + self.height
    }

    /// Whether the cell `(col, row)` lies in the rectangle.
    pub fn contains(&self, col: u16, row: u16) -> (r: bool)
        ensures
            r == self.contains_spec(col, row),
    {
        col >= self.x && (col as u32) < (self.x as u32) + (self.width as u32) && row >= self.y
            && (row as u32) < (self.y as u32) + (self.height as u32)
    }
}

/// Where an overlay of preferred `size` anchored at `anchor` lands in `viewport`.
pub open spec fn clamp_overlay_spec(anchor: Rect, size: (u16, u16), viewport: Rect) -> Rect {
    let w = min16(size.0, viewport.width);
    let y0 = (anchor.y + anchor.height) as u16;
    let space_below = sat_sub(sat_add(viewport.y, viewport.height), y0);
    let h = max16(min16(size.1, space_below), 2);
    let x = max16(min16(anchor.x, sat_sub(sat_add(viewport.x, viewport.width), w)), viewport.x);
    let y = max16(min16(y0, sat_sub(sat_add(viewport.y, viewport.height), h)), viewport.y);
    Rect {
        x,
        y,
        width: (sat_add(x, w) - x) as u16,
        height: (sat_add(y, h) - y) as u16,
    }
}

/// Clamp an overlay's preferred position and size to fit within the viewport.
/// Positions the overlay just below the anchor and shrinks height to fit the
/// available space below rather than pushing the overlay upward.
pub fn clamp_overlay(anchor: Rect, size: (u16, u16), viewport: Rect) -> (r: Rect)
    requires
        anchor.wf(),
    ensures
        r == clamp_overlay_spec(anchor, size, viewport),
        viewport.wf() ==> r.x >= viewport.x && r.x + r.width <= viewport.x + viewport.width,
        viewport.wf() && viewport.height >= 2 && anchor.y + anchor.height >= viewport.y ==> r.y
            >= viewport.y && r.y + r.height <= viewport.y + viewport.height,
{
    let (pref_w, pref_h) = size;
    let w = if pref_w <= viewport.width {
        pref_w
    } else {
        viewport.width
    };
    let y = anchor.y + anchor.height;
    let space_below = viewport.bottom().saturating_sub(y);
    let h0 = if pref_h <= space_below {
        pref_h
    } else {
        space_below
    };
    let h = if h0 >= 2 {
        h0
    } else {
        2
    };
    let lim_x = viewport.right().saturating_sub(w);
    let x0 = if anchor.x <= lim_x {
        anchor.x
    } else {
        lim_x
    };
    let x = if x0 >= viewport.x {
        x0
    } else {
        viewport.x
    };
    let lim_y = viewport.bottom().saturating_sub(h);
    let y1 = if y <= lim_y {
        y
    } else {
        lim_y
    };
    let y2 = if y1 >= viewport.y {
        y1
    } else {
        viewport.y
    };
    Rect::new(x, y2, w, h)
}

/// The terminal size the embedded command runs in: four rows of chrome
/// less (at least 4 rows), at least 20 columns.
pub fn pty_size_for_terminal(width: u16, height: u16) -> (r: (u16, u16))
    ensures
        r.0 == max16(sat_sub(height, 4), 4),
        r.1 == max16(width, 20),
{
    let rows = height.saturating_sub(4);
    let rows = if rows >= 4 {
        rows
    } else {
        4
    };
    let cols = if width >= 20 {
        width
    } else {
        20
    };
    (rows, cols)
}

/// The list item under `(col, row)` in a bordered panel scrolled by `scroll`:
/// rows between the top and bottom borders, columns within the panel.
pub open spec fn item_at_spec(area: Rect, col: u16, row: u16, scroll: usize) -> Option<int> {
    if col >= area.x && col < area.x + area.width && row >= area.y + 1 && row < area.y
        + sat_sub(area.height, 1) {
        Some(row - (area.y + 1) + scroll)
    } else {
        None
    }
}

/// The list item under `(col, row)` in a bordered panel scrolled by `scroll`.
pub fn item_at(area: Rect, col: u16, row: u16, scroll: usize) -> (r: Option<usize>)
    requires
        area.wf(),
        scroll + u16::MAX <= usize::MAX,
    ensures
        match item_at_spec(area, col, row, scroll) {
            Some(i) => r == Some(i as usize),
            None => r is None,
        },
{
    if area.height == 0 {
        return None;
    }
    let inner_top = area.y + 1;
    let inner_bottom = area.y + area.height.saturating_sub(1);
    if col < area.x || col >= area.x + area.width || row < inner_top || row >= inner_bottom {
        return None;
    }
    Some((row - inner_top) as usize + scroll)
}

/// The item under the mouse in a bordered panel scrolled by `scroll`.
pub fn hovered_index_for_area(mouse: Option<(u16, u16)>, area: Rect, scroll: usize) -> (r: Option<
    usize,
>)
    requires
        area.wf(),
        scroll + u16::MAX <= usize::MAX,
    ensures
        match mouse {
            Some((col, row)) => match item_at_spec(area, col, row, scroll) {
                Some(i) => r == Some(i as usize),
                None => r is None,
            },
            None => r is None,
        },
{
    match mouse {
        Some((col, row)) => item_at(area, col, row, scroll),
        None => None,
    }
}

/// Frame-local layout snapshot used for mouse hit-testing.
#[derive(Debug, Clone)]
pub struct UiLayout {
    pub click_regions: Vec<(Rect, Focus)>,
    pub flag_overlay_rect: Option<Rect>,
    pub arg_overlay_rect: Option<Rect>,
    pub theme_overlay_rect: Option<Rect>,
    pub theme_indicator_rect: Option<Rect>,
}

/// An optional rectangle that ends within the coordinate range.
pub open spec fn opt_rect_wf(r: Option<Rect>) -> bool {
    r matches Some(a) ==> a.wf()
}

fn opt_rect_is_wf(r: &Option<Rect>) -> (b: bool)
    ensures
        b == opt_rect_wf(*r),
{
    match r {
        Some(a) => a.is_wf(),
        None => true,
    }
}

impl UiLayout {
    /// Every rectangle of the layout ends within the coordinate range.
    pub open spec fn wf(self) -> bool {
        &&& forall|i: int| 0 <= i < self.click_regions@.len() ==> (#[trigger] self.click_regions@[i]).0.wf()
        &&& opt_rect_wf(self.flag_overlay_rect)
        &&& opt_rect_wf(self.arg_overlay_rect)
        &&& opt_rect_wf(self.theme_overlay_rect)
        &&& opt_rect_wf(self.theme_indicator_rect)
    }

    /// Whether every rectangle of the layout ends within the coordinate range.
    pub fn is_wf(&self) -> (r: bool)
        ensures
            r == self.wf(),
    {
        let mut i: usize = 0;
        while i < self.click_regions.len()
            invariant
                i <= self.click_regions@.len(),
                forall|j: int| 0 <= j < i ==> (#[trigger] self.click_regions@[j]).0.wf(),
            decreases self.click_regions.len() - i,
        {
            if !self.click_regions[i].0.is_wf() {
                return false;
            }
            i = i + 1;
        }
        opt_rect_is_wf(&self.flag_overlay_rect) && opt_rect_is_wf(&self.arg_overlay_rect)
            && opt_rect_is_wf(&self.theme_overlay_rect) && opt_rect_is_wf(&self.theme_indicator_rect)
    }

    /// A layout with no regions.
    pub fn new() -> (r: UiLayout)
        ensures
            r.wf(),
            r.click_regions@.len() == 0,
            r.flag_overlay_rect is None,
            r.arg_overlay_rect is None,
            r.theme_overlay_rect is None,
            r.theme_indicator_rect is None,
    {
        UiLayout {
            click_regions: Vec::new(),
            flag_overlay_rect: None,
            arg_overlay_rect: None,
            theme_overlay_rect: None,
            theme_indicator_rect: None,
        }
    }

    /// Record that `area` belongs to the panel `focus`.
    pub fn register(&mut self, area: Rect, focus: Focus)
        requires
            old(self).wf(),
            area.wf(),
        ensures
            final(self).wf(),
            final(self).click_regions@ == old(self).click_regions@.push((area, focus)),
            final(self).flag_overlay_rect == old(self).flag_overlay_rect,
            final(self).arg_overlay_rect == old(self).arg_overlay_rect,
            final(self).theme_overlay_rect == old(self).theme_overlay_rect,
            final(self).theme_indicator_rect == old(self).theme_indicator_rect,
    {
        self.click_regions.push((area, focus));
    }

    /// `area` is the area registered first for `focus`, or the empty
    /// rectangle when none is.
    pub open spec fn first_area(self, focus: Focus, area: Rect) -> bool {
        if exists|i: int| 0 <= i < self.click_regions@.len() && #[trigger] self.click_regions@[i].1 == focus {
            exists|i: int|
                0 <= i < self.click_regions@.len() && self.click_regions@[i].1 == focus && area
                    == self.click_regions@[i].0 && forall|j: int|
                    0 <= j < i ==> #[trigger] self.click_regions@[j].1 != focus
        } else {
            area == Rect::zero_spec()
        }
    }

    /// The area registered first for `focus` (the empty rectangle when none is).
    pub fn area_for(&self, focus: Focus) -> (r: Rect)
        ensures
            self.first_area(focus, r),
            (exists|i: int|
                0 <= i < self.click_regions@.len() && #[trigger] self.click_regions@[i].1
                    == focus) ==> exists|i: int|
                0 <= i < self.click_regions@.len() && self.click_regions@[i].1 == focus && r
                    == self.click_regions@[i].0 && forall|j: int|
                    0 <= j < i ==> #[trigger] self.click_regions@[j].1 != focus,
            (forall|i: int|
                0 <= i < self.click_regions@.len() ==> #[trigger] self.click_regions@[i].1
                    != focus) ==> r == Rect::zero_spec(),
    {
        let mut i: usize = 0;
        while i < self.click_regions.len()
            invariant
                i <= self.click_regions@.len(),
                forall|j: int| 0 <= j < i ==> #[trigger] self.click_regions@[j].1 != focus,
            decreases self.click_regions.len() - i,
        {
            if self.click_regions[i].1 == focus {
                return self.click_regions[i].0;
            }
            i = i + 1;
        }
        Rect::zero()
    }

    /// The first registered region containing `(col, row)`, with its panel.
    pub fn region_at(&self, col: u16, row: u16) -> (r: Option<(Focus, Rect)>)
        ensures
            match r {
                Some((f, a)) => exists|i: int|
                    0 <= i < self.click_regions@.len() && self.click_regions@[i] == (a, f)
                        && a.contains_spec(col, row) && forall|j: int|
                        0 <= j < i ==> !(#[trigger] self.click_regions@[j]).0.contains_spec(
                            col,
                            row,
                        ),
                None => forall|j: int|
                    0 <= j < self.click_regions@.len() ==> !(
                    #[trigger] self.click_regions@[j]).0.contains_spec(col, row),
            },
    {
        let mut i: usize = 0;
        while i < self.click_regions.len()
            invariant
                i <= self.click_regions@.len(),
                forall|j: int|
                    0 <= j < i ==> !(#[trigger] self.click_regions@[j]).0.contains_spec(col, row),
            decreases self.click_regions.len() - i,
        {
            let (a, f) = self.click_regions[i];
            if a.contains(col, row) {
                return Some((f, a));
            }
            i = i + 1;
        }
        None
    }
}

impl Rect {
    /// The empty rectangle at the origin.
    pub open spec fn zero_spec() -> Rect {
        Rect { x: 0, y: 0, width: 0, height: 0 }
    }
}

} // verus!
