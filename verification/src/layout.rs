//! The layout engine: the single/split mode state machine and the pane
//! geometry.
//!
//! All geometry is in integer logical units.  The split ratio is kept in
//! per-mille (a ratio of 0.5 is 500) and always clamped to the range
//! 200..=800.  Content never degenerates: each dimension is floored at 100
//! logical units, which is why in split mode the two pane widths need not
//! sum exactly to the content width at extreme sizes.

use vstd::prelude::*;
use crate::errors::HubError;

verus! {

/// Height of the host chrome above the panes, in logical units.
pub const TOP_BAR_HEIGHT: u32 = 48;

/// Floor for every content dimension, in logical units.
pub const MIN_PANE_DIM: u32 = 100;

/// Smallest admissible split ratio, in per-mille.
pub const RATIO_MIN: u32 = 200;

/// Largest admissible split ratio, in per-mille.
pub const RATIO_MAX: u32 = 800;

/// The split ratio a fresh layout starts with, in per-mille.
pub const RATIO_DEFAULT: u32 = 500;

/// Whether one pane or two are shown.
#[derive(Clone, Copy, Debug, PartialEq, Eq, Structural)]
pub enum LayoutMode {
    Single,
    Split,
}

/// Position and size of one pane, in logical units.
#[derive(Clone, Copy, Debug, PartialEq, Eq, Structural)]
pub struct Rect {
    pub x: u64,
    pub y: u64,
    pub width: u64,
    pub height: u64,
}

/// The layout state machine: mode, split ratio, and the two split slots.
#[derive(Debug)]
pub struct LayoutState {
    pub mode: LayoutMode,
    /// Split ratio in per-mille, always within `RATIO_MIN..=RATIO_MAX`.
    pub ratio: u32,
    pub left_tab_id: Option<String>,
    pub right_tab_id: Option<String>,
}

impl LayoutState {
    /// The ratio is in range, and single mode carries no split slots.
    pub open spec fn wf(self) -> bool {
        &&& RATIO_MIN <= self.ratio <= RATIO_MAX
        &&& self.mode is Single ==> self.left_tab_id is None && self.right_tab_id is None
    }

    /// Clears both split slots and returns to single mode.  Idempotent.
    pub fn to_single(&mut self)
        ensures
            final(self).mode is Single,
            final(self).left_tab_id is None,
            final(self).right_tab_id is None,
            final(self).ratio == old(self).ratio,
            old(self).wf() ==> final(self).wf(),
    {
        self.mode = LayoutMode::Single;
        self.left_tab_id = None;
        self.right_tab_id = None;
    }

    /// Commits a split between two distinct tabs.  With equal tabs it fails
    /// with `InvalidArgument` and leaves the state untouched; a supplied
    /// ratio is clamped, an absent one keeps the previous ratio.
    pub fn to_split(&mut self, left: String, right: String, ratio: Option<u32>) -> (r: Result<
        (),
        HubError,
    >)
        requires
            old(self).wf(),
        ensures
            final(self).wf(),
            left@ == right@ ==> r == Err::<(), HubError>(HubError::InvalidArgument) && *final(self)
                == *old(self),
            left@ != right@ ==> r == Ok::<(), HubError>(()) && split_committed(
                *old(self),
                *final(self),
                left@,
                right@,
                ratio,
            ),
    {
        if crate::strutil::str_eq(left.as_str(), right.as_str()) {
            return Err(HubError::InvalidArgument);
        }
        let next_ratio = match ratio {
            Some(v) => clamp_ratio(v),
            None => self.ratio,
        };
        self.mode = LayoutMode::Split;
        self.ratio = next_ratio;
        self.left_tab_id = Some(left);
        self.right_tab_id = Some(right);
        Ok(())
    }
}

impl Default for LayoutState {
    /// A fresh layout: single mode, even split ratio, no slots.
    fn default() -> (r: LayoutState)
        ensures
            r.mode is Single,
            r.ratio == RATIO_DEFAULT,
            r.left_tab_id is None,
            r.right_tab_id is None,
            r.wf(),
    {
        LayoutState { mode: LayoutMode::Single, ratio: RATIO_DEFAULT, left_tab_id: None, right_tab_id: None }
    }
}

/// How a committed split relates to the state before it: split mode, the
/// requested slots, and the clamped (or kept) ratio.
pub open spec fn split_committed(
    pre: LayoutState,
    post: LayoutState,
    left: Seq<char>,
    right: Seq<char>,
    ratio: Option<u32>,
) -> bool {
    &&& post.mode is Split
    &&& post.ratio == (match ratio {
        Some(v) => spec_clamp_ratio(v),
        None => pre.ratio,
    })
    &&& (match post.left_tab_id {
        Some(l) => l@ == left,
        None => false,
    })
    &&& (match post.right_tab_id {
        Some(r) => r@ == right,
        None => false,
    })
}

/// A ratio forced into `RATIO_MIN..=RATIO_MAX`.
pub open spec fn spec_clamp_ratio(r: u32) -> u32 {
    if r < RATIO_MIN {
        RATIO_MIN
    } else if r > RATIO_MAX {
        RATIO_MAX
    } else {
        r
    }
}

/// Forces a per-mille ratio into the admissible range.
pub fn clamp_ratio(r: u32) -> (c: u32)
    ensures
        c == spec_clamp_ratio(r),
        RATIO_MIN <= c <= RATIO_MAX,
{
    if r < RATIO_MIN {
        RATIO_MIN
    } else if r > RATIO_MAX {
        RATIO_MAX
    } else {
        r
    }
}

/// The content rectangle: everything right of the sidebar and below the top
/// bar, with each dimension floored at `MIN_PANE_DIM`.
pub open spec fn spec_content_rect(win_w: u32, win_h: u32, sidebar: u32) -> Rect {
    Rect {
        x: sidebar as u64,
        y: TOP_BAR_HEIGHT as u64,
        width: vstd::math::max(win_w as int - sidebar as int, MIN_PANE_DIM as int) as u64,
        height: vstd::math::max(win_h as int - TOP_BAR_HEIGHT as int, MIN_PANE_DIM as int) as u64,
    }
}

/// Bounds every content rectangle satisfies, used to rule out overflow.
pub open spec fn content_bounded(c: Rect) -> bool {
    c.x <= 0xFFFF_FFFF && MIN_PANE_DIM <= c.width <= 0x1_0000_0000
}

/// Computes where webview content lives inside the window.
pub fn calculate_webview_bounds(win_w: u32, win_h: u32, sidebar: u32) -> (r: Rect)
    ensures
        r == spec_content_rect(win_w, win_h, sidebar),
        content_bounded(r),
{
    let width: u64 = if win_w > sidebar && win_w - sidebar > MIN_PANE_DIM {
        (win_w - sidebar) as u64
    } else {
        MIN_PANE_DIM as u64
    };
    let height: u64 = if win_h > TOP_BAR_HEIGHT && win_h - TOP_BAR_HEIGHT > MIN_PANE_DIM {
        (win_h - TOP_BAR_HEIGHT) as u64
    } else {
        MIN_PANE_DIM as u64
    };
    Rect { x: sidebar as u64, y: TOP_BAR_HEIGHT as u64, width, height }
}

/// Width of the left split pane: the ratio'd share of the content width,
/// floored at `MIN_PANE_DIM`.
pub open spec fn spec_left_width(content_w: int, ratio_pm: int) -> int {
    vstd::math::max(content_w * ratio_pm / 1000, MIN_PANE_DIM as int)
}

/// Width of the right split pane: the remaining content width, floored at
/// `MIN_PANE_DIM`.
pub open spec fn spec_right_width(content_w: int, ratio_pm: int) -> int {
    vstd::math::max(content_w - spec_left_width(content_w, ratio_pm), MIN_PANE_DIM as int)
}

/// Computes both split pane widths from the content width and a clamped
/// per-mille ratio.
pub fn split_widths(content_w: u64, ratio_pm: u32) -> (r: (u64, u64))
    requires
        content_w <= 0x1_0000_0000,
        RATIO_MIN <= ratio_pm <= RATIO_MAX,
    ensures
        r.0 == spec_left_width(content_w as int, ratio_pm as int),
        r.1 == spec_right_width(content_w as int, ratio_pm as int),
        MIN_PANE_DIM <= r.0 <= 0x1_0000_0000,
        MIN_PANE_DIM <= r.1 <= 0x1_0000_0000,
{
    proof {
        assert(content_w * ratio_pm <= 0x1_0000_0000 * 800) by (nonlinear_arith)
            requires
                content_w <= 0x1_0000_0000,
                ratio_pm <= 800,
        ;
        assert(content_w as int * ratio_pm as int / 1000 <= content_w as int) by (nonlinear_arith)
            requires
                ratio_pm <= 1000,
                0 <= content_w,
        ;
    }
    let scaled: u64 = content_w * (ratio_pm as u64);
    let share: u64 = scaled / 1000;
    let left: u64 = if share > MIN_PANE_DIM as u64 {
        share
    } else {
        MIN_PANE_DIM as u64
    };
    let rest: u64 = if content_w > left {
        content_w - left
    } else {
        0
    };
    let right: u64 = if rest > MIN_PANE_DIM as u64 {
        rest
    } else {
        MIN_PANE_DIM as u64
    };
    (left, right)
}

} // verus!

