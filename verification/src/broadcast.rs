//! The visibility/resize broadcaster: which tabs are visible, where each
//! pane sits, and what should happen to every created webview instance.
//!
//! The broadcaster only decides; the host applies each directive to the
//! corresponding live instance.

use vstd::prelude::*;
use crate::ids::webview_label;
use crate::layout::clamp_ratio;
use crate::layout::content_bounded;
use crate::layout::spec_clamp_ratio;
use crate::layout::spec_left_width;
use crate::layout::spec_right_width;
use crate::layout::split_widths;
use crate::layout::LayoutMode;
use crate::layout::LayoutState;
use crate::layout::Rect;
use crate::strmap::StrSet;
use crate::strutil::str_eq;

verus! {

/// One visible pane: the tab shown there and its rectangle.
#[derive(Debug)]
pub struct Pane {
    pub tab_id: String,
    pub rect: Rect,
}

/// The view of a pane list.
pub open spec fn pane_views(panes: Seq<Pane>) -> Seq<(Seq<char>, Rect)> {
    panes.map_values(|p: Pane| (p.tab_id@, p.rect))
}

/// The tab single mode shows: the active tab, else the current view.
pub open spec fn spec_single_target(active: Seq<char>, current: Seq<char>) -> Seq<char> {
    if active.len() > 0 {
        active
    } else {
        current
    }
}

/// Which tabs are visible and where each pane sits.  Single mode shows the
/// active tab (or the current view) full-content; a fully established split
/// shows both slots side by side; a split missing a slot falls back to the
/// current view.
pub open spec fn spec_visible_panes(
    layout: LayoutState,
    active: Seq<char>,
    current: Seq<char>,
    content: Rect,
) -> Seq<(Seq<char>, Rect)> {
    match layout.mode {
        LayoutMode::Single => {
            let target = spec_single_target(active, current);
            if target.len() > 0 {
                seq![(target, content)]
            } else {
                Seq::empty()
            }
        },
        LayoutMode::Split => match (layout.left_tab_id, layout.right_tab_id) {
            (Some(l), Some(r)) => {
                let ratio = spec_clamp_ratio(layout.ratio) as int;
                let lw = spec_left_width(content.width as int, ratio);
                let rw = spec_right_width(content.width as int, ratio);
                seq![
                    (
                        l@,
                        Rect {
                            x: content.x,
                            y: content.y,
                            width: lw as u64,
                            height: content.height,
                        },
                    ),
                    (
                        r@,
                        Rect {
                            x: (content.x + lw) as u64,
                            y: content.y,
                            width: rw as u64,
                            height: content.height,
                        },
                    ),
                ]
            },
            _ => {
                if current.len() > 0 {
                    seq![(current, content)]
                } else {
                    Seq::empty()
                }
            },
        },
    }
}

/// Computes the visible panes for the given state and content rectangle.
pub fn visible_panes(layout: &LayoutState, active: &str, current: &str, content: Rect) -> (r: Vec<
    Pane,
>)
    requires
        layout.wf(),
        content_bounded(content),
    ensures
        pane_views(r@) == spec_visible_panes(*layout, active@, current@, content),
{
    let mut panes: Vec<Pane> = Vec::new();
    match layout.mode {
        LayoutMode::Single => {
            let target = if !active.is_empty() {
                active
            } else {
                current
            };
            if !target.is_empty() {
                panes.push(Pane { tab_id: target.to_owned(), rect: content });
            }
        },
        LayoutMode::Split => {
            match (&layout.left_tab_id, &layout.right_tab_id) {
                (Some(l), Some(r)) => {
                    let ratio = clamp_ratio(layout.ratio);
                    let (lw, rw) = split_widths(content.width, ratio);
                    panes.push(
                        Pane {
                            tab_id: l.clone(),
                            rect: Rect {
                                x: content.x,
                                y: content.y,
                                width: lw,
                                height: content.height,
                            },
                        },
                    );
                    panes.push(
                        Pane {
                            tab_id: r.clone(),
                            rect: Rect {
                                x: content.x + lw,
                                y: content.y,
                                width: rw,
                                height: content.height,
                            },
                        },
                    );
                },
                _ => {
                    if !current.is_empty() {
                        panes.push(Pane { tab_id: current.to_owned(), rect: content });
                    }
                },
            }
        },
    }
    proof {
        assert(pane_views(panes@) =~= spec_visible_panes(*layout, active@, current@, content));
    }
    panes
}

/// What the host should do with one created instance.
#[derive(Clone, Copy, Debug, PartialEq, Eq, Structural)]
pub enum DirectiveAction {
    /// Move/resize the instance to `rect`; also show it when `show` holds.
    Place { rect: Rect, show: bool },
    /// Hide the instance.
    Hide,
    /// Touch nothing (geometry-only pass over an instance that is not visible).
    Leave,
}

/// One instruction for the host, addressed by tab id and webview label.
#[derive(Debug)]
pub struct Directive {
    pub tab_id: String,
    pub label: String,
    pub action: DirectiveAction,
}

/// The rectangle of the first pane showing `t`, if any.
pub open spec fn pane_lookup(panes: Seq<(Seq<char>, Rect)>, t: Seq<char>) -> Option<Rect>
    decreases panes.len(),
{
    if panes.len() == 0 {
        None
    } else if panes[0].0 == t {
        Some(panes[0].1)
    } else {
        pane_lookup(panes.drop_first(), t)
    }
}

/// The action for one created instance: place (and possibly show) a visible
/// one; hide an invisible one, unless only geometry is being updated.
pub open spec fn spec_action(
    panes: Seq<(Seq<char>, Rect)>,
    t: Seq<char>,
    apply_visibility: bool,
) -> DirectiveAction {
    match pane_lookup(panes, t) {
        Some(rect) => DirectiveAction::Place { rect, show: apply_visibility },
        None => {
            if apply_visibility {
                DirectiveAction::Hide
            } else {
                DirectiveAction::Leave
            }
        },
    }
}

/// The rectangle of the first pane showing `t`, if any.
fn find_pane(panes: &Vec<Pane>, t: &str) -> (r: Option<Rect>)
    ensures
        r == pane_lookup(pane_views(panes@), t@),
{
    let ghost pv = pane_views(panes@);
    let mut i: usize = 0;
    proof {
        assert(pv.skip(0) =~= pv);
    }
    while i < panes.len()
        invariant
            i <= panes@.len(),
            pv == pane_views(panes@),
            pane_lookup(pv, t@) == pane_lookup(pv.skip(i as int), t@),
        decreases panes@.len() - i,
    {
        proof {
            assert(pv.skip(i as int)[0] == pv[i as int]);
            assert(pv.skip(i as int).drop_first() =~= pv.skip(i as int + 1));
        }
        if str_eq(panes[i].tab_id.as_str(), t) {
            return Some(panes[i].rect);
        }
        i += 1;
    }
    proof {
        assert(pv.skip(pv.len() as int) =~= Seq::<(Seq<char>, Rect)>::empty());
    }
    None
}

/// One directive for every created instance, in record order: visible
/// instances are placed (and shown when visibility is applied), the rest are
/// hidden, or left alone on a geometry-only pass.
pub fn resize_directives(
    layout: &LayoutState,
    active: &str,
    current: &str,
    created: &StrSet,
    content: Rect,
    apply_visibility: bool,
) -> (r: Vec<Directive>)
    requires
        layout.wf(),
        content_bounded(content),
    ensures
        r@.len() == created.items@.len(),
        forall|i: int|
            0 <= i < r@.len() ==> r@[i].tab_id@ == created.items@[i]@ && r@[i].label@ == "ai_"@
                + created.items@[i]@ && r@[i].action == spec_action(
                spec_visible_panes(*layout, active@, current@, content),
                created.items@[i]@,
                apply_visibility,
            ),
{
    let panes = visible_panes(layout, active, current, content);
    let mut out: Vec<Directive> = Vec::new();
    let mut i: usize = 0;
    while i < created.items.len()
        invariant
            i <= created.items@.len(),
            out@.len() == i,
            pane_views(panes@) == spec_visible_panes(*layout, active@, current@, content),
            forall|j: int|
                0 <= j < i ==> out@[j].tab_id@ == created.items@[j]@ && out@[j].label@ == "ai_"@
                    + created.items@[j]@ && out@[j].action == spec_action(
                    spec_visible_panes(*layout, active@, current@, content),
                    created.items@[j]@,
                    apply_visibility,
                ),
        decreases created.items@.len() - i,
    {
        let tab = &created.items[i];
        let label = webview_label(tab.as_str());
        let action = match find_pane(&panes, tab.as_str()) {
            Some(rect) => DirectiveAction::Place { rect, show: apply_visibility },
            None => {
                if apply_visibility {
                    DirectiveAction::Hide
                } else {
                    DirectiveAction::Leave
                }
            },
        };
        out.push(Directive { tab_id: tab.clone(), label, action });
        i += 1;
    }
    out
}

} // verus!
