//! The orchestrator: one process-wide context owning layout, active-tab and
//! view state, the webview records, the auxiliary tab map, the
//! pending-extraction table and the concurrency guards.
//!
//! Every user command is a sequence of decisions over this state; the host
//! performs the effects (creating, moving, showing, hiding and closing
//! instances, running scripts) between the decision steps.

use vstd::prelude::*;
use crate::errors::HubError;
use crate::ids::fresh_short_suffix;
use crate::ids::make_tab_id;
use crate::layout::LayoutState;
use crate::layout::LayoutMode;
use crate::sites::is_site;
use crate::sites::spec_first_site_excluding;
use crate::sites::AppConfig;
use crate::strutil::seq_views;
use crate::strmap::StrMap;
use crate::strmap::StrSet;
use crate::strutil::str_eq;
use crate::tabstate::entry_in;
use crate::tabstate::has_tab_entry;
use crate::tabstate::sorted_by_tab;
use crate::tabstate::sorted_insert;
use crate::tabstate::unique_tabs;
use crate::tabstate::TabInfo;
use crate::tabstate::TabsStateResponse;

verus! {

/// The whole orchestration state.  Constructed once at startup and shared
/// with every command handler.
pub struct HubState {
    /// The persisted configuration (site registry, ordering, settings).
    pub config: AppConfig,
    /// Site id shown for backward-compatible queries; empty when none.
    pub current_view: String,
    /// The tab driving single-pane display and extraction; empty when none.
    pub active_tab_id: String,
    /// Tabs for which a webview instance has been created (a cache of the
    /// host's ground truth).
    pub created_views: StrSet,
    /// Auxiliary tab → site map.  Main tabs (`tab_id == site_id`) are never
    /// recorded here.
    pub tab_site_map: StrMap,
    /// The single/split layout state machine.
    pub layout: LayoutState,
    /// Pending extraction requests: request id → token.
    pub pending_extracts: StrMap,
    /// Count of in-flight webview creations; resize events are dropped
    /// while it is nonzero.
    pub webview_create_in_progress: u32,
    /// Single-flight flag of the summarize command.
    pub summary_in_progress: bool,
}

/// What a tab id resolves to: itself for a main tab, the mapped site for an
/// auxiliary tab, nothing for an unknown tab.
pub open spec fn spec_resolve(
    sites: Seq<crate::sites::AiSite>,
    aux: Map<Seq<char>, Seq<char>>,
    tab: Seq<char>,
) -> Option<Seq<char>> {
    if is_site(sites, tab) {
        Some(tab)
    } else if aux.dom().contains(tab) {
        Some(aux[tab])
    } else {
        None
    }
}

impl HubState {
    /// Structural well-formedness of all components.
    pub open spec fn wf(self) -> bool {
        &&& self.layout.wf()
        &&& self.created_views.wf()
        &&& self.tab_site_map.wf()
        &&& self.pending_extracts.wf()
    }

    /// What `tab` resolves to in this state.
    pub open spec fn resolve(self, tab: Seq<char>) -> Option<Seq<char>> {
        spec_resolve(self.config.sites@, self.tab_site_map@, tab)
    }

    /// A fresh context around a loaded configuration: nothing shown, no
    /// records, no pending extractions, both guards released.
    pub fn new(config: AppConfig) -> (r: HubState)
        ensures
            r.wf(),
            r.config == config,
            r.current_view@.len() == 0,
            r.active_tab_id@.len() == 0,
            r.created_views@ == Set::<Seq<char>>::empty(),
            r.tab_site_map@ == Map::<Seq<char>, Seq<char>>::empty(),
            r.pending_extracts@ == Map::<Seq<char>, Seq<char>>::empty(),
            r.layout.mode is Single,
            r.layout.ratio == crate::layout::RATIO_DEFAULT,
            r.webview_create_in_progress == 0,
            !r.summary_in_progress,
    {
        HubState {
            config,
            current_view: String::new(),
            active_tab_id: String::new(),
            created_views: StrSet::new(),
            tab_site_map: StrMap::new(),
            layout: Default::default(),
            pending_extracts: StrMap::new(),
            webview_create_in_progress: 0,
            summary_in_progress: false,
        }
    }

    /// Resolves a tab id to its site id: a known site id is its own main
    /// tab (no auxiliary lookup); otherwise the auxiliary map decides;
    /// otherwise the tab does not exist.
    pub fn get_tab_site_id(&self, tab_id: &str) -> (r: Result<String, HubError>)
        requires
            self.wf(),
        ensures
            match self.resolve(tab_id@) {
                Some(s) => r matches Ok(v) && v@ == s,
                None => r == Err::<String, HubError>(HubError::NotFound),
            },
    {
        if self.config.site_exists(tab_id) {
            let mut owned = String::new();
            owned.append(tab_id);
            return Ok(owned);
        }
        match self.tab_site_map.get(tab_id) {
            Some(site) => Ok(site.clone()),
            None => Err(HubError::NotFound),
        }
    }

    /// Registers a fresh auxiliary tab `site_id + "_" + suffix` for an
    /// existing site.  The id minted from a distinct suffix is distinct.
    pub fn create_tab_with_suffix(&mut self, site_id: &str, suffix: &str) -> (r: Result<
        String,
        HubError,
    >)
        requires
            old(self).wf(),
        ensures
            final(self).wf(),
            !is_site(old(self).config.sites@, site_id@) ==> r == Err::<String, HubError>(
                HubError::NotFound,
            ) && *final(self) == *old(self),
            is_site(old(self).config.sites@, site_id@) ==> (r matches Ok(t) && t@ == site_id@
                + "_"@ + suffix@ && final(self).tab_site_map@ == old(self).tab_site_map@.insert(
                t@,
                site_id@,
            ) && *final(self) == (HubState {
                tab_site_map: final(self).tab_site_map,
                ..*old(self)
            })),
    {
        if !self.config.site_exists(site_id) {
            return Err(HubError::NotFound);
        }
        let tab_id = make_tab_id(site_id, suffix);
        self.tab_site_map.insert(tab_id.as_str(), site_id);
        Ok(tab_id)
    }

    /// Mints a random auxiliary tab id for an existing site and registers
    /// it.  No instance is created and the layout does not change; the
    /// instance is created lazily on first display.
    pub fn create_tab(&mut self, site_id: &str) -> (r: Result<String, HubError>)
        requires
            old(self).wf(),
        ensures
            final(self).wf(),
            !is_site(old(self).config.sites@, site_id@) ==> r == Err::<String, HubError>(
                HubError::NotFound,
            ) && *final(self) == *old(self),
            is_site(old(self).config.sites@, site_id@) ==> (r matches Ok(t) && (exists|
                sfx: Seq<char>,
            |
                t@ == site_id@ + "_"@ + sfx) && final(self).tab_site_map@ == old(self).tab_site_map@.insert(t@, site_id@) && *final(self) == (HubState {
                tab_site_map: final(self).tab_site_map,
                ..*old(self)
            })),
    {
        let suffix = fresh_short_suffix();
        let r = self.create_tab_with_suffix(site_id, suffix.as_str());
        proof {
            if is_site(old(self).config.sites@, site_id@) {
                assert(r matches Ok(t) && t@ == site_id@ + "_"@ + suffix@);
            }
        }
        r
    }

    /// Drops the webview record and any auxiliary mapping of a tab.
    /// Idempotent: closing an unknown tab changes nothing.
    pub fn close_tab_webview(&mut self, tab_id: &str)
        requires
            old(self).wf(),
        ensures
            final(self).wf(),
            final(self).created_views@ == old(self).created_views@.remove(tab_id@),
            final(self).tab_site_map@ == old(self).tab_site_map@.remove(tab_id@),
            *final(self) == (HubState {
                created_views: final(self).created_views,
                tab_site_map: final(self).tab_site_map,
                ..*old(self)
            }),
    {
        self.created_views.remove(tab_id);
        self.tab_site_map.remove(tab_id);
    }

    /// Whether a webview record exists for this tab.
    pub fn has_webview_record(&self, tab_id: &str) -> (r: bool)
        ensures
            r == self.created_views@.contains(tab_id@),
    {
        self.created_views.contains(tab_id)
    }

    /// Drops a record whose instance the host reports gone, so the next
    /// ensure pass recreates it (self-healing cache).
    pub fn drop_stale_record(&mut self, tab_id: &str)
        requires
            old(self).wf(),
        ensures
            final(self).wf(),
            final(self).created_views@ == old(self).created_views@.remove(tab_id@),
            *final(self) == (HubState {
                created_views: final(self).created_views,
                ..*old(self)
            }),
    {
        self.created_views.remove(tab_id);
    }

    /// Records a successfully created instance.  Only called after the host
    /// reports success, so a failed creation leaves no record behind.
    pub fn commit_created(&mut self, tab_id: &str)
        requires
            old(self).wf(),
        ensures
            final(self).wf(),
            final(self).created_views@ == old(self).created_views@.insert(tab_id@),
            *final(self) == (HubState {
                created_views: final(self).created_views,
                ..*old(self)
            }),
    {
        self.created_views.insert(tab_id);
    }

    /// Enters a webview creation: while the counter is nonzero, resize
    /// notifications are suppressed to avoid reentrancy into the host's
    /// layout machinery.
    pub fn creation_begin(&mut self)
        requires
            old(self).webview_create_in_progress < u32::MAX,
        ensures
            final(self).webview_create_in_progress == old(self).webview_create_in_progress + 1,
            *final(self) == (HubState {
                webview_create_in_progress: final(self).webview_create_in_progress,
                ..*old(self)
            }),
            old(self).wf() ==> final(self).wf(),
    {
        self.webview_create_in_progress = self.webview_create_in_progress + 1;
    }

    /// Leaves a webview creation.  Paired with `creation_begin` on every
    /// exit path, success or error.
    pub fn creation_end(&mut self)
        requires
            old(self).webview_create_in_progress > 0,
        ensures
            final(self).webview_create_in_progress == old(self).webview_create_in_progress - 1,
            *final(self) == (HubState {
                webview_create_in_progress: final(self).webview_create_in_progress,
                ..*old(self)
            }),
            old(self).wf() ==> final(self).wf(),
    {
        self.webview_create_in_progress = self.webview_create_in_progress - 1;
    }

    /// Whether a window-resize notification may be handled right now.  It
    /// is dropped (not queued) while any creation is in flight; geometry
    /// recomputation is idempotent, so a later resize reconciles.
    pub fn resize_allowed(&self) -> (r: bool)
        ensures
            r == (self.webview_create_in_progress == 0),
    {
        self.webview_create_in_progress == 0
    }

    /// Marks a tab as the extraction target.  A blank id is ignored.
    pub fn set_active_tab_id(&mut self, tab_id: &str)
        ensures
            crate::strutil::spec_trim(tab_id@).len() == 0 ==> *final(self) == *old(self),
            crate::strutil::spec_trim(tab_id@).len() > 0 ==> final(self).active_tab_id@ == tab_id@
                && *final(self) == (HubState {
                active_tab_id: final(self).active_tab_id,
                ..*old(self)
            }),
    {
        let trimmed = crate::strutil::trim_str(tab_id);
        if trimmed.as_str().is_empty() {
            return;
        }
        let mut owned = String::new();
        owned.append(tab_id);
        self.active_tab_id = owned;
    }

    /// The site id shown for backward-compatible queries.
    pub fn get_current_view(&self) -> (r: String)
        ensures
            r@ == self.current_view@,
    {
        self.current_view.clone()
    }

    /// Tries to take the summarize single-flight guard.  While a summarize
    /// is already in flight the call fails and nothing changes — in
    /// particular no extraction is registered.
    pub fn try_begin_summary(&mut self) -> (r: bool)
        ensures
            old(self).summary_in_progress ==> !r && *final(self) == *old(self),
            !old(self).summary_in_progress ==> r && final(self).summary_in_progress && *final(self)
                == (HubState { summary_in_progress: true, ..*old(self) }),
    {
        if self.summary_in_progress {
            false
        } else {
            self.summary_in_progress = true;
            true
        }
    }

    /// Releases the summarize single-flight guard.  Paired with a
    /// successful `try_begin_summary` on every exit path.
    pub fn end_summary(&mut self)
        ensures
            *final(self) == (HubState { summary_in_progress: false, ..*old(self) }),
    {
        self.summary_in_progress = false;
    }

    /// The tab a summarize targets: the active tab, else the current view;
    /// nothing when the choice is blank.
    pub fn summary_target(&self) -> (r: Option<String>)
        ensures
            ({
                let t = crate::broadcast::spec_single_target(
                    self.active_tab_id@,
                    self.current_view@,
                );
                if crate::strutil::spec_trim(t).len() > 0 {
                    r matches Some(v) && v@ == t
                } else {
                    r is None
                }
            }),
    {
        let t = if !self.active_tab_id.as_str().is_empty() {
            &self.active_tab_id
        } else {
            &self.current_view
        };
        let trimmed = crate::strutil::trim_str(t.as_str());
        if trimmed.as_str().is_empty() {
            None
        } else {
            Some(t.clone())
        }
    }

    /// Mints a fresh extraction request: random request id and token,
    /// registered in the pending table.
    pub fn issue_extraction(&mut self) -> (r: (String, String))
        requires
            old(self).wf(),
        ensures
            final(self).wf(),
            final(self).pending_extracts@ == old(self).pending_extracts@.insert(r.0@, r.1@),
            *final(self) == (HubState {
                pending_extracts: final(self).pending_extracts,
                ..*old(self)
            }),
    {
        let request_id = crate::ids::new_uuid_string();
        let token = crate::ids::new_uuid_string();
        self.pending_extracts.insert(request_id.as_str(), token.as_str());
        (request_id, token)
    }

    /// Consumes the pending entry for a submitted extraction result.  The
    /// entry is removed whether or not the token matches (at-most-once
    /// delivery); a mismatched token rejects the result, so the waiting
    /// caller fails immediately rather than timing out.
    pub fn aihub_submit_page_text(&mut self, request_id: &str, token: &str) -> (r: SubmitOutcome)
        requires
            old(self).wf(),
        ensures
            final(self).wf(),
            final(self).pending_extracts@ == old(self).pending_extracts@.remove(request_id@),
            *final(self) == (HubState {
                pending_extracts: final(self).pending_extracts,
                ..*old(self)
            }),
            !old(self).pending_extracts@.dom().contains(request_id@) ==> r
                == SubmitOutcome::NoPending,
            old(self).pending_extracts@.dom().contains(request_id@) && old(self).pending_extracts@[request_id@] == token@ ==> r == SubmitOutcome::Deliver,
            old(self).pending_extracts@.dom().contains(request_id@) && old(self).pending_extracts@[request_id@] != token@ ==> r == SubmitOutcome::Rejected,
    {
        match self.pending_extracts.remove(request_id) {
            Some(expected) => {
                if str_eq(expected.as_str(), token) {
                    SubmitOutcome::Deliver
                } else {
                    SubmitOutcome::Rejected
                }
            },
            None => SubmitOutcome::NoPending,
        }
    }

    /// Drops a pending extraction whose wait timed out.  The entry may
    /// already have been consumed; removing again is harmless.
    pub fn cancel_extraction(&mut self, request_id: &str)
        requires
            old(self).wf(),
        ensures
            final(self).wf(),
            final(self).pending_extracts@ == old(self).pending_extracts@.remove(request_id@),
            *final(self) == (HubState {
                pending_extracts: final(self).pending_extracts,
                ..*old(self)
            }),
    {
        self.pending_extracts.remove(request_id);
    }
}

/// A layout forced back to single mode with the ratio kept.
pub open spec fn single_forced(pre: LayoutState, post: LayoutState) -> bool {
    &&& post.mode is Single
    &&& post.left_tab_id is None
    &&& post.right_tab_id is None
    &&& post.ratio == pre.ratio
}

/// The current view after a split commit: the active tab's site, else the
/// left tab's site, else the previous view.
pub open spec fn spec_split_current(pre: HubState, left: Seq<char>) -> Seq<char> {
    match pre.resolve(pre.active_tab_id@) {
        Some(s) => s,
        None => match pre.resolve(left) {
            Some(s) => s,
            None => pre.current_view@,
        },
    }
}

/// The fallback a tab close decides on.
#[derive(Debug)]
pub enum CloseFallback {
    /// Nothing to switch to; only geometry needs recomputing.
    KeepCurrent,
    /// A split collapsed: switch to the surviving tab.
    SwitchToTab(String),
    /// The shown tab went away: switch to this site's main tab.
    SwitchToFirstSite(String),
    /// Nothing remains; all view state was cleared.
    ClearToEmpty,
}

/// How a close changes the state and which fallback it decides on.
pub open spec fn close_transition(
    pre: HubState,
    post: HubState,
    tab: Seq<char>,
    r: CloseFallback,
) -> bool {
    let closed_site = match spec_resolve(pre.config.sites@, pre.tab_site_map@, tab) {
        Some(s) => s,
        None => tab,
    };
    &&& post.created_views@ == pre.created_views@.remove(tab)
    &&& post.tab_site_map@ == pre.tab_site_map@.remove(tab)
    &&& post.config == pre.config
    &&& post.pending_extracts == pre.pending_extracts
    &&& post.summary_in_progress == pre.summary_in_progress
    &&& post.webview_create_in_progress == pre.webview_create_in_progress
    &&& match pre.layout.mode {
        LayoutMode::Single => {
            if pre.active_tab_id@ == tab {
                &&& post.active_tab_id@.len() == 0
                &&& post.current_view@.len() == 0
                &&& post.layout == pre.layout
                &&& match spec_first_site_excluding(
                    pre.config.sites@,
                    seq_views(pre.config.site_order@),
                    seq_views(pre.config.pinned_site_ids@),
                    closed_site,
                ) {
                    Some(s) => r matches CloseFallback::SwitchToFirstSite(v) && v@ == s,
                    None => r is ClearToEmpty,
                }
            } else {
                &&& r is KeepCurrent
                &&& post.active_tab_id == pre.active_tab_id
                &&& post.current_view == pre.current_view
                &&& post.layout == pre.layout
            }
        },
        LayoutMode::Split => {
            let lhit = match pre.layout.left_tab_id {
                Some(l) => l@ == tab,
                None => false,
            };
            let rhit = match pre.layout.right_tab_id {
                Some(x) => x@ == tab,
                None => false,
            };
            let nl = if lhit {
                None
            } else {
                pre.layout.left_tab_id
            };
            let nr = if rhit {
                None
            } else {
                pre.layout.right_tab_id
            };
            &&& post.active_tab_id == pre.active_tab_id
            &&& post.current_view == pre.current_view
            &&& if nl is None || nr is None {
                &&& single_forced(pre.layout, post.layout)
                &&& match (if nl is Some {
                    nl
                } else {
                    nr
                }) {
                    Some(t) => r matches CloseFallback::SwitchToTab(v) && v@ == t@,
                    None => r is KeepCurrent,
                }
            } else {
                &&& post.layout == pre.layout
                &&& r is KeepCurrent
            }
        },
    }
}

impl HubState {
    /// Switches to a tab: resolves its site, forces single mode and makes
    /// it the active tab.  An unknown tab changes nothing.
    pub fn switch_tab_commit(&mut self, tab_id: &str) -> (r: Result<String, HubError>)
        requires
            old(self).wf(),
        ensures
            final(self).wf(),
            match spec_resolve(old(self).config.sites@, old(self).tab_site_map@, tab_id@) {
                Some(site) => (r matches Ok(v) && v@ == site) && single_forced(
                    old(self).layout,
                    final(self).layout,
                ) && final(self).active_tab_id@ == tab_id@ && *final(self) == (HubState {
                    layout: final(self).layout,
                    active_tab_id: final(self).active_tab_id,
                    ..*old(self)
                }),
                None => r == Err::<String, HubError>(HubError::NotFound) && *final(self) == *old(self),
            },
    {
        let site = match self.get_tab_site_id(tab_id) {
            Ok(s) => s,
            Err(e) => {
                return Err(e);
            },
        };
        self.layout.to_single();
        let mut owned = String::new();
        owned.append(tab_id);
        self.active_tab_id = owned;
        Ok(site)
    }

    /// Switches to a site's main tab: forces single mode and makes the
    /// site id the active tab.  An unknown site changes nothing.
    pub fn switch_view_commit(&mut self, site_id: &str) -> (r: Result<(), HubError>)
        requires
            old(self).wf(),
        ensures
            final(self).wf(),
            !is_site(old(self).config.sites@, site_id@) ==> r == Err::<(), HubError>(
                HubError::NotFound,
            ) && *final(self) == *old(self),
            is_site(old(self).config.sites@, site_id@) ==> (r == Ok::<(), HubError>(())
                && single_forced(old(self).layout, final(self).layout)
                && final(self).active_tab_id@ == site_id@
                && *final(self) == (HubState {
                    layout: final(self).layout,
                    active_tab_id: final(self).active_tab_id,
                    ..*old(self)
                })),
    {
        if !self.config.site_exists(site_id) {
            return Err(HubError::NotFound);
        }
        self.layout.to_single();
        let mut owned = String::new();
        owned.append(site_id);
        self.active_tab_id = owned;
        Ok(())
    }

    /// Commits the tail of a switch once the instance exists: records the
    /// current view and pushes the site onto the recent list.
    pub fn switch_finish(&mut self, site_id: &str)
        ensures
            final(self).current_view@ == site_id@,
            seq_views(final(self).config.recent_site_ids@) == crate::sites::spec_upsert_recent(
                seq_views(old(self).config.recent_site_ids@),
                site_id@,
            ),
            final(self).config == (AppConfig {
                recent_site_ids: final(self).config.recent_site_ids,
                ..old(self).config
            }),
            *final(self) == (HubState {
                current_view: final(self).current_view,
                config: final(self).config,
                ..*old(self)
            }),
    {
        let mut owned = String::new();
        owned.append(site_id);
        self.current_view = owned;
        self.config.upsert_recent_site(site_id);
    }

    /// Returns the layout to single mode (both slots cleared).
    pub fn set_layout_single_commit(&mut self)
        requires
            old(self).wf(),
        ensures
            final(self).wf(),
            single_forced(old(self).layout, final(self).layout),
            *final(self) == (HubState { layout: final(self).layout, ..*old(self) }),
    {
        self.layout.to_single();
    }

    /// Validates a split request without touching anything: the two tabs
    /// must differ and both must resolve to sites.
    pub fn set_layout_split_prepare(&self, left: &str, right: &str) -> (r: Result<
        (String, String),
        HubError,
    >)
        requires
            self.wf(),
        ensures
            left@ == right@ ==> r == Err::<(String, String), HubError>(HubError::InvalidArgument),
            left@ != right@ && (self.resolve(left@) is None || self.resolve(right@) is None) ==> r
                == Err::<(String, String), HubError>(HubError::NotFound),
            left@ != right@ && self.resolve(left@) is Some && self.resolve(right@) is Some ==> (
            r matches Ok(p) && Some(p.0@) == self.resolve(left@) && Some(p.1@) == self.resolve(
                right@,
            )),
    {
        if str_eq(left, right) {
            return Err(HubError::InvalidArgument);
        }
        let left_site = match self.get_tab_site_id(left) {
            Ok(s) => s,
            Err(e) => {
                return Err(e);
            },
        };
        let right_site = match self.get_tab_site_id(right) {
            Ok(s) => s,
            Err(e) => {
                return Err(e);
            },
        };
        Ok((left_site, right_site))
    }

    /// Commits a split once both instances exist: the layout moves to split
    /// mode and the current view becomes the active tab's site, falling
    /// back to the left tab's site.
    pub fn set_layout_split_commit(&mut self, left: &str, right: &str, ratio: Option<u32>) -> (r:
        Result<(), HubError>)
        requires
            old(self).wf(),
        ensures
            final(self).wf(),
            left@ == right@ ==> r == Err::<(), HubError>(HubError::InvalidArgument) && *final(self)
                == *old(self),
            left@ != right@ ==> r == Ok::<(), HubError>(()) && crate::layout::split_committed(
                old(self).layout,
                final(self).layout,
                left@,
                right@,
                ratio,
            ) && final(self).current_view@ == spec_split_current(*old(self), left@) && *final(self)
                == (HubState {
                layout: final(self).layout,
                current_view: final(self).current_view,
                ..*old(self)
            }),
    {
        let active = self.active_tab_id.clone();
        let next_current: Option<String> = match self.get_tab_site_id(active.as_str()) {
            Ok(s) => Some(s),
            Err(_) => match self.get_tab_site_id(left) {
                Ok(s) => Some(s),
                Err(_) => None,
            },
        };
        let mut left_owned = String::new();
        left_owned.append(left);
        let mut right_owned = String::new();
        right_owned.append(right);
        match self.layout.to_split(left_owned, right_owned, ratio) {
            Ok(()) => {},
            Err(e) => {
                return Err(e);
            },
        }
        match next_current {
            Some(s) => {
                self.current_view = s;
            },
            None => {},
        }
        Ok(())
    }

    /// Closes a tab: drops its record and mapping, repairs the layout and
    /// decides the fallback the caller must carry out.
    pub fn close_tab_begin(&mut self, tab_id: &str) -> (r: CloseFallback)
        requires
            old(self).wf(),
        ensures
            final(self).wf(),
            close_transition(*old(self), *final(self), tab_id@, r),
    {
        let closed_site = match self.get_tab_site_id(tab_id) {
            Ok(s) => s,
            Err(_) => {
                let mut o = String::new();
                o.append(tab_id);
                o
            },
        };
        self.created_views.remove(tab_id);
        self.tab_site_map.remove(tab_id);
        match self.layout.mode {
            LayoutMode::Single => {
                if str_eq(self.active_tab_id.as_str(), tab_id) {
                    let fallback = self.config.first_site_id_excluding(closed_site.as_str());
                    self.active_tab_id = String::new();
                    self.current_view = String::new();
                    match fallback {
                        Some(site) => CloseFallback::SwitchToFirstSite(site),
                        None => CloseFallback::ClearToEmpty,
                    }
                } else {
                    CloseFallback::KeepCurrent
                }
            },
            LayoutMode::Split => {
                let lhit = match &self.layout.left_tab_id {
                    Some(l) => str_eq(l.as_str(), tab_id),
                    None => false,
                };
                let rhit = match &self.layout.right_tab_id {
                    Some(x) => str_eq(x.as_str(), tab_id),
                    None => false,
                };
                if lhit {
                    self.layout.left_tab_id = None;
                }
                if rhit {
                    self.layout.right_tab_id = None;
                }
                if self.layout.left_tab_id.is_none() || self.layout.right_tab_id.is_none() {
                    let remaining: Option<String> = match (
                        &self.layout.left_tab_id,
                        &self.layout.right_tab_id,
                    ) {
                        (Some(l), _) => Some(l.clone()),
                        (_, Some(x)) => Some(x.clone()),
                        _ => None,
                    };
                    self.layout.mode = LayoutMode::Single;
                    self.layout.left_tab_id = None;
                    self.layout.right_tab_id = None;
                    match remaining {
                        Some(t) => CloseFallback::SwitchToTab(t),
                        None => CloseFallback::KeepCurrent,
                    }
                } else {
                    CloseFallback::KeepCurrent
                }
            },
        }
    }
}

/// The storage directory of a site's main tab, as path segments under the
/// host's data directory.
pub fn site_data_dir(site_id: &str) -> (r: Vec<String>)
    ensures
        seq_views(r@) == seq!["webviews"@, site_id@],
{
    let mut segs: Vec<String> = Vec::new();
    segs.push("webviews".to_owned());
    let mut owned = String::new();
    owned.append(site_id);
    segs.push(owned);
    proof {
        assert(seq_views(segs@) =~= seq!["webviews"@, site_id@]);
    }
    segs
}

/// The storage directory of a tab's instance: a main tab reuses the site's
/// directory; an auxiliary tab gets an isolated directory under a separate
/// namespace, so two live instances never share or nest storage.
pub fn get_tab_data_dir(site_id: &str, tab_id: &str) -> (r: Vec<String>)
    ensures
        tab_id@ == site_id@ ==> seq_views(r@) == seq!["webviews"@, site_id@],
        tab_id@ != site_id@ ==> seq_views(r@) == seq!["webviews_tabs"@, site_id@, tab_id@],
{
    if str_eq(tab_id, site_id) {
        site_data_dir(site_id)
    } else {
        let mut segs: Vec<String> = Vec::new();
        segs.push("webviews_tabs".to_owned());
        let mut site_owned = String::new();
        site_owned.append(site_id);
        segs.push(site_owned);
        let mut tab_owned = String::new();
        tab_owned.append(tab_id);
        segs.push(tab_owned);
        proof {
            assert(seq_views(segs@) =~= seq!["webviews_tabs"@, site_id@, tab_id@]);
        }
        segs
    }
}

/// One path is an ancestor of (or equal to) another when its segments are
/// a prefix of the other's.
pub open spec fn path_prefix_of(a: Seq<Seq<char>>, b: Seq<Seq<char>>) -> bool {
    a.len() <= b.len() && b.take(a.len() as int) == a
}

/// Main-tab storage and auxiliary-tab storage live in disjoint namespaces:
/// neither directory is ever nested inside the other, whatever the ids.
/// Nesting two live profiles is known to hang the embedding engine.
pub proof fn lemma_main_aux_storage_disjoint(
    s1: Seq<char>,
    s2: Seq<char>,
    t2: Seq<char>,
)
    ensures
        !path_prefix_of(seq!["webviews"@, s1], seq!["webviews_tabs"@, s2, t2]),
        !path_prefix_of(seq!["webviews_tabs"@, s2, t2], seq!["webviews"@, s1]),
{
    reveal_strlit("webviews");
    reveal_strlit("webviews_tabs");
    assert(("webviews"@).len() == 8);
    assert(("webviews_tabs"@).len() == 13);
    let a = seq!["webviews"@, s1];
    let b = seq!["webviews_tabs"@, s2, t2];
    if path_prefix_of(a, b) {
        assert(b.take(a.len() as int)[0] == b[0]);
    }
    if path_prefix_of(b, a) {
        assert(a.take(b.len() as int) == a);
    }
}

/// Everything the host needs to create one instance: its label, the URL to
/// load, and the storage path segments.
#[derive(Debug)]
pub struct CreationPlan {
    pub label: String,
    pub url: String,
    pub storage: Vec<String>,
}

impl HubState {
    /// Plans the creation of a tab's instance: resolves the site's URL and
    /// the tab's storage directory.  Fails with `NotFound` for an unknown
    /// site, leaving no record behind.
    pub fn prepare_creation(&self, tab_id: &str, site_id: &str) -> (r: Result<
        CreationPlan,
        HubError,
    >)
        requires
            self.wf(),
        ensures
            r is Ok <==> is_site(self.config.sites@, site_id@),
            r matches Ok(p) ==> p.label@ == "ai_"@ + tab_id@ && p.url@ == crate::sites::site_of(
                self.config.sites@,
                site_id@,
            ).url@ && (tab_id@ == site_id@ ==> seq_views(p.storage@) == seq![
                "webviews"@,
                site_id@,
            ]) && (tab_id@ != site_id@ ==> seq_views(p.storage@) == seq![
                "webviews_tabs"@,
                site_id@,
                tab_id@,
            ]),
            r matches Err(e) ==> e == HubError::NotFound,
    {
        let site = match self.config.get_site_by_id(site_id) {
            Ok(s) => s,
            Err(e) => {
                return Err(e);
            },
        };
        let label = crate::ids::webview_label(tab_id);
        let storage = get_tab_data_dir(site_id, tab_id);
        Ok(CreationPlan { label, url: site.url, storage })
    }

    /// The main tab id of a site plus every auxiliary tab currently mapped
    /// to it — everything to tear down when the whole site goes away.
    pub fn tab_ids_for_site(&self, site_id: &str) -> (r: Vec<String>)
        ensures
            seq_views(r@) == seq![site_id@] + keys_with_value(
                self.tab_site_map.entries@,
                site_id@,
            ),
    {
        let ghost es = self.tab_site_map.entries@;
        let mut ids: Vec<String> = Vec::new();
        let mut owned = String::new();
        owned.append(site_id);
        ids.push(owned);
        let mut i: usize = 0;
        proof {
            reveal(Seq::filter);
            assert(es.take(0) =~= Seq::<crate::strmap::StrPair>::empty());
            assert(seq_views(ids@) =~= seq![site_id@] + keys_with_value(es.take(0), site_id@));
        }
        while i < self.tab_site_map.entries.len()
            invariant
                i <= self.tab_site_map.entries@.len(),
                es == self.tab_site_map.entries@,
                seq_views(ids@) == seq![site_id@] + keys_with_value(es.take(i as int), site_id@),
            decreases self.tab_site_map.entries@.len() - i,
        {
            proof {
                reveal(Seq::filter);
                let t1 = es.take(i as int + 1);
                assert(t1.drop_last() =~= es.take(i as int));
                assert(t1.last() == es[i as int]);
            }
            if str_eq(self.tab_site_map.entries[i].value.as_str(), site_id) {
                ids.push(self.tab_site_map.entries[i].key.clone());
                proof {
                    broadcast use vstd::prelude::Seq::lemma_filter_push;

                    assert(es.take(i as int + 1) =~= es.take(i as int).push(es[i as int]));
                    assert(keys_with_value(es.take(i as int + 1), site_id@) =~= keys_with_value(
                        es.take(i as int),
                        site_id@,
                    ).push(es[i as int].key@));
                    assert(seq_views(ids@) =~= (seq![site_id@] + keys_with_value(
                        es.take(i as int),
                        site_id@,
                    )).push(es[i as int].key@));
                    assert((seq![site_id@] + keys_with_value(es.take(i as int), site_id@)).push(
                        es[i as int].key@,
                    ) =~= seq![site_id@] + keys_with_value(es.take(i as int), site_id@).push(
                        es[i as int].key@,
                    ));
                }
            } else {
                proof {
                    broadcast use vstd::prelude::Seq::lemma_filter_push;

                    assert(es.take(i as int + 1) =~= es.take(i as int).push(es[i as int]));
                    assert(keys_with_value(es.take(i as int + 1), site_id@) =~= keys_with_value(
                        es.take(i as int),
                        site_id@,
                    ));
                }
            }
            i += 1;
        }
        proof {
            assert(es.take(es.len() as int) =~= es);
        }
        ids
    }

    /// One directive per created instance for the current state and window
    /// size, using the configured sidebar width.
    pub fn compute_directives(&self, win_w: u32, win_h: u32, apply_visibility: bool) -> (r: Vec<
        crate::broadcast::Directive,
    >)
        requires
            self.wf(),
        ensures
            r@.len() == self.created_views.items@.len(),
            forall|i: int|
                0 <= i < r@.len() ==> r@[i].tab_id@ == self.created_views.items@[i]@
                    && r@[i].label@ == "ai_"@ + self.created_views.items@[i]@ && r@[i].action
                    == crate::broadcast::spec_action(
                    crate::broadcast::spec_visible_panes(
                        self.layout,
                        self.active_tab_id@,
                        self.current_view@,
                        crate::layout::spec_content_rect(win_w, win_h, self.config.sidebar_width),
                    ),
                    self.created_views.items@[i]@,
                    apply_visibility,
                ),
    {
        let content = crate::layout::calculate_webview_bounds(
            win_w,
            win_h,
            self.config.sidebar_width,
        );
        crate::broadcast::resize_directives(
            &self.layout,
            self.active_tab_id.as_str(),
            self.current_view.as_str(),
            &self.created_views,
            content,
            apply_visibility,
        )
    }
}

/// The smallest sidebar width; larger widths also update the remembered
/// expanded width.
pub const MIN_SIDEBAR_WIDTH: u32 = 64;

/// The tabs whose instances a show/hide toggle addresses: the single-mode
/// tab (active, else current), or both split slots.
pub open spec fn spec_visibility_targets(
    layout: LayoutState,
    active: Seq<char>,
    current: Seq<char>,
) -> Seq<Seq<char>> {
    match layout.mode {
        LayoutMode::Single => {
            if active.len() > 0 {
                seq![active]
            } else if current.len() > 0 {
                seq![current]
            } else {
                Seq::empty()
            }
        },
        LayoutMode::Split => {
            let l: Seq<Seq<char>> = match layout.left_tab_id {
                Some(x) => seq![x@],
                None => Seq::empty(),
            };
            let r: Seq<Seq<char>> = match layout.right_tab_id {
                Some(x) => seq![x@],
                None => Seq::empty(),
            };
            l + r
        },
    }
}

impl HubState {
    /// The tabs a show/hide toggle of the active view addresses.
    pub fn visibility_targets(&self) -> (r: Vec<String>)
        ensures
            seq_views(r@) == spec_visibility_targets(
                self.layout,
                self.active_tab_id@,
                self.current_view@,
            ),
    {
        let mut targets: Vec<String> = Vec::new();
        match self.layout.mode {
            LayoutMode::Single => {
                if !self.active_tab_id.as_str().is_empty() {
                    targets.push(self.active_tab_id.clone());
                } else if !self.current_view.as_str().is_empty() {
                    targets.push(self.current_view.clone());
                }
            },
            LayoutMode::Split => {
                match &self.layout.left_tab_id {
                    Some(l) => targets.push(l.clone()),
                    None => {},
                }
                match &self.layout.right_tab_id {
                    Some(x) => targets.push(x.clone()),
                    None => {},
                }
            },
        }
        proof {
            assert(seq_views(targets@) =~= spec_visibility_targets(
                self.layout,
                self.active_tab_id@,
                self.current_view@,
            ));
        }
        targets
    }

    /// The created tabs that belong to a site — the ones a reload of that
    /// site must hit.
    pub fn refresh_targets(&self, site_id: &str) -> (r: Vec<String>)
        requires
            self.wf(),
        ensures
            seq_views(r@) == spec_refresh_targets(*self, site_id@),
    {
        let ghost cs = seq_views(self.created_views.items@);
        let ghost pred = resolves_to_pred(*self, site_id@);
        let mut out: Vec<String> = Vec::new();
        let mut i: usize = 0;
        proof {
            reveal(Seq::filter);
            assert(cs.take(0) =~= Seq::<Seq<char>>::empty());
            assert(seq_views(out@) =~= cs.take(0).filter(pred));
        }
        while i < self.created_views.items.len()
            invariant
                self.wf(),
                i <= self.created_views.items@.len(),
                cs == seq_views(self.created_views.items@),
                pred == resolves_to_pred(*self, site_id@),
                seq_views(out@) == cs.take(i as int).filter(pred),
            decreases self.created_views.items@.len() - i,
        {
            let tab = &self.created_views.items[i];
            let hit = match self.get_tab_site_id(tab.as_str()) {
                Ok(s) => str_eq(s.as_str(), site_id),
                Err(_) => false,
            };
            proof {
                broadcast use vstd::prelude::Seq::lemma_filter_push;

                assert(cs.take(i as int + 1) =~= cs.take(i as int).push(cs[i as int]));
                assert(cs[i as int] == self.created_views.items@[i as int]@);
                assert(hit == pred(cs[i as int]));
            }
            if hit {
                out.push(tab.clone());
                proof {
                    assert(seq_views(out@) =~= cs.take(i as int).filter(pred).push(cs[i as int]));
                }
            }
            i += 1;
        }
        proof {
            assert(cs.take(cs.len() as int) =~= cs);
        }
        out
    }

    /// Clears every record of a site: the main tab and all auxiliary tabs
    /// lose their webview records and mappings, and the view state is
    /// cleared when the site was current.  Returns the closed tab ids.
    /// Afterwards no auxiliary mapping to the site remains.
    pub fn clear_view_cache_state(&mut self, site_id: &str) -> (r: Vec<String>)
        requires
            old(self).wf(),
        ensures
            final(self).wf(),
            seq_views(r@) == seq![site_id@] + keys_with_value(
                old(self).tab_site_map.entries@,
                site_id@,
            ),
            forall|t: Seq<char>|
                final(self).created_views@.contains(t) <==> old(self).created_views@.contains(t)
                    && !seq_views(r@).contains(t),
            forall|k: Seq<char>|
                final(self).tab_site_map@.dom().contains(k) <==> old(self).tab_site_map@.dom().contains(k) && !seq_views(r@).contains(k),
            forall|k: Seq<char>|
                final(self).tab_site_map@.dom().contains(k) ==> final(self).tab_site_map@[k] == old(self).tab_site_map@[k] && final(self).tab_site_map@[k] != site_id@,
            old(self).current_view@ == site_id@ ==> final(self).current_view@.len() == 0
                && final(self).active_tab_id@.len() == 0,
            old(self).current_view@ != site_id@ ==> final(self).current_view
                == old(self).current_view && final(self).active_tab_id == old(self).active_tab_id,
            final(self).config == old(self).config,
            final(self).layout == old(self).layout,
            final(self).pending_extracts == old(self).pending_extracts,
            final(self).summary_in_progress == old(self).summary_in_progress,
            final(self).webview_create_in_progress == old(self).webview_create_in_progress,
    {
        let tabs = self.tab_ids_for_site(site_id);
        let ghost doomed = seq_views(tabs@);
        let mut i: usize = 0;
        while i < tabs.len()
            invariant
                old(self).wf(),
                self.wf(),
                i <= tabs@.len(),
                doomed == seq_views(tabs@),
                self.config == old(self).config,
                self.current_view == old(self).current_view,
                self.active_tab_id == old(self).active_tab_id,
                self.layout == old(self).layout,
                self.pending_extracts == old(self).pending_extracts,
                self.summary_in_progress == old(self).summary_in_progress,
                self.webview_create_in_progress == old(self).webview_create_in_progress,
                forall|t: Seq<char>|
                    #![trigger self.created_views@.contains(t)]
                    self.created_views@.contains(t) <==> old(self).created_views@.contains(t) && !
                    doomed.take(i as int).contains(t),
                forall|k: Seq<char>|
                    #![trigger self.tab_site_map@.dom().contains(k)]
                    self.tab_site_map@.dom().contains(k) <==> old(self).tab_site_map@.dom().contains(k) && !doomed.take(i as int).contains(k),
                forall|k: Seq<char>|
                    #![trigger self.tab_site_map@[k]]
                    self.tab_site_map@.dom().contains(k) ==> self.tab_site_map@[k] == old(self).tab_site_map@[k],
            decreases tabs@.len() - i,
        {
            let ghost cv0 = self.created_views@;
            let ghost m0 = self.tab_site_map@;
            let ghost key = tabs@[i as int]@;
            self.created_views.remove(tabs[i].as_str());
            self.tab_site_map.remove(tabs[i].as_str());
            proof {
                let t1 = doomed.take(i as int + 1);
                let t0 = doomed.take(i as int);
                assert(doomed[i as int] == key);
                assert forall|t: Seq<char>| t1.contains(t) implies (t0.contains(t) || t
                    == key) by {
                    let j = choose|j: int| 0 <= j < t1.len() && (#[trigger] t1[j]) == t;
                    if j < i as int {
                        assert(t0[j] == t);
                    }
                }
                assert forall|t: Seq<char>| (t0.contains(t) || t == key) implies t1.contains(
                    t,
                ) by {
                    if t0.contains(t) {
                        let j = choose|j: int| 0 <= j < t0.len() && (#[trigger] t0[j]) == t;
                        assert(t1[j] == t);
                    } else {
                        assert(t1[i as int] == t);
                    }
                }
                assert forall|t: Seq<char>|
                    #![trigger self.created_views@.contains(t)]
                    self.created_views@.contains(t) <==> (old(self).created_views@.contains(t)
                        && !t1.contains(t)) by {
                    assert(self.created_views@ == cv0.remove(key));
                    assert(cv0.contains(t) <==> (old(self).created_views@.contains(t)
                        && !t0.contains(t)));
                }
                assert forall|k: Seq<char>|
                    #![trigger self.tab_site_map@.dom().contains(k)]
                    self.tab_site_map@.dom().contains(k) <==> (old(self).tab_site_map@.dom().contains(k) && !t1.contains(k)) by {
                    assert(self.tab_site_map@ == m0.remove(key));
                    assert(m0.dom().contains(k) <==> (old(self).tab_site_map@.dom().contains(k)
                        && !t0.contains(k)));
                }
                assert forall|k: Seq<char>|
                    #![trigger self.tab_site_map@[k]]
                    self.tab_site_map@.dom().contains(k) implies self.tab_site_map@[k] == old(self).tab_site_map@[k] by {
                    assert(self.tab_site_map@ == m0.remove(key));
                    assert(m0.dom().contains(k) && m0[k] == old(self).tab_site_map@[k]);
                }
            }
            i += 1;
        }
        proof {
            assert(doomed.take(doomed.len() as int) =~= doomed);
        }
        if str_eq(self.current_view.as_str(), site_id) {
            self.current_view = String::new();
            self.active_tab_id = String::new();
        }
        proof {
            assert forall|k: Seq<char>|
                self.tab_site_map@.dom().contains(k) implies self.tab_site_map@[k]
                != site_id@ by {
                if self.tab_site_map@[k] == site_id@ {
                    let es = old(self).tab_site_map.entries@;
                    assert(old(self).tab_site_map@.dom().contains(k) && !doomed.contains(k));
                    let j = choose|i: int| 0 <= i < es.len() && es[i].key@ == k;
                    assert(old(self).tab_site_map@[k] == crate::strmap::value_of(es, k));
                    assert(es[j].value@ == site_id@);
                    lemma_key_in_keys_with_value(es, site_id@, j);
                    let fi = choose|fi: int|
                        0 <= fi < keys_with_value(es, site_id@).len() && (#[trigger] keys_with_value(
                            es,
                            site_id@,
                        )[fi]) == k;
                    assert(doomed[fi + 1] == k);
                    assert(doomed.contains(k));
                }
            }
        }
        tabs
    }

    /// The tab whose devtools a request for this site opens: the active tab
    /// when it belongs to the site, else the site's main tab.
    pub fn devtools_target(&self, site_id: &str) -> (r: String)
        requires
            self.wf(),
        ensures
            self.active_tab_id@.len() > 0 && self.resolve(self.active_tab_id@) == Some(site_id@)
                ==> r@ == self.active_tab_id@,
            !(self.active_tab_id@.len() > 0 && self.resolve(self.active_tab_id@) == Some(site_id@))
                ==> r@ == site_id@,
    {
        if !self.active_tab_id.as_str().is_empty() {
            match self.get_tab_site_id(self.active_tab_id.as_str()) {
                Ok(s) => {
                    if str_eq(s.as_str(), site_id) {
                        return self.active_tab_id.clone();
                    }
                },
                Err(_) => {},
            }
        }
        let mut owned = String::new();
        owned.append(site_id);
        owned
    }

    /// Records a dragged sidebar width; a width past the collapsed minimum
    /// also becomes the remembered expanded width.
    pub fn set_sidebar_width(&mut self, width: u32)
        ensures
            final(self).config.sidebar_width == width,
            width > MIN_SIDEBAR_WIDTH ==> final(self).config.sidebar_expanded_width == width,
            width <= MIN_SIDEBAR_WIDTH ==> final(self).config.sidebar_expanded_width == old(self).config.sidebar_expanded_width,
            final(self).config == (AppConfig {
                sidebar_width: width,
                sidebar_expanded_width: final(self).config.sidebar_expanded_width,
                ..old(self).config
            }),
            *final(self) == (HubState { config: final(self).config, ..*old(self) }),
    {
        self.config.sidebar_width = width;
        if width > MIN_SIDEBAR_WIDTH {
            self.config.sidebar_expanded_width = width;
        }
    }
}

/// How a tab-state snapshot reports the layout and active-tab fields.
pub open spec fn layout_reported(s: HubState, r: TabsStateResponse) -> bool {
    &&& r.active_tab_id@ == s.active_tab_id@
    &&& (s.layout.mode is Single ==> r.mode@ == "single"@)
    &&& (s.layout.mode is Split ==> r.mode@ == "split"@)
    &&& r.ratio == s.layout.ratio
    &&& crate::strutil::view_opt_string(r.left_tab_id) == crate::strutil::view_opt_string(
        s.layout.left_tab_id,
    )
    &&& crate::strutil::view_opt_string(r.right_tab_id) == crate::strutil::view_opt_string(
        s.layout.right_tab_id,
    )
}

/// The host-origin check: only the main shell webview may invoke commands.
pub fn is_main_invoker_label(label: &str) -> (r: bool)
    ensures
        r == (label@ == "main"@),
{
    str_eq(label, "main")
}

/// The tabs `get_tabs_state` considers: every tab with a webview record or
/// an auxiliary mapping, plus the current view when one is set.
pub open spec fn tab_candidate(s: HubState, t: Seq<char>) -> bool {
    s.created_views@.contains(t) || s.tab_site_map@.dom().contains(t) || (t.len() > 0 && t
        == s.current_view@)
}

impl HubState {
    /// Every candidate tab id, without duplicates.
    fn collect_tab_candidates(&self) -> (r: Vec<String>)
        requires
            self.wf(),
        ensures
            forall|a: int, b: int| 0 <= a < b < r@.len() ==> r@[a]@ != r@[b]@,
            forall|t: Seq<char>|
                #![trigger crate::strutil::seq_has_str(r@, t)]
                crate::strutil::seq_has_str(r@, t) <==> tab_candidate(*self, t),
    {
        let ghost items = self.created_views.items@;
        let ghost es = self.tab_site_map.entries@;
        let mut cand: Vec<String> = Vec::new();
        let mut i: usize = 0;
        while i < self.created_views.items.len()
            invariant
                self.wf(),
                i <= items.len(),
                items == self.created_views.items@,
                forall|a: int, b: int| 0 <= a < b < cand@.len() ==> cand@[a]@ != cand@[b]@,
                cand@.len() == i,
                forall|j: int| 0 <= j < i ==> cand@[j]@ == items[j]@,
            decreases items.len() - i,
        {
            cand.push(self.created_views.items[i].clone());
            proof {
                assert forall|a: int| 0 <= a < i implies cand@[a]@ != items[i as int]@ by {
                    assert(cand@[a]@ == items[a]@);
                    assert(self.created_views.items@[a]@ != self.created_views.items@[i as int]@);
                }
            }
            i += 1;
        }
        proof {
            assert forall|t: Seq<char>|
                crate::strutil::seq_has_str(cand@, t) <==> self.created_views@.contains(t) by {
                if crate::strutil::seq_has_str(cand@, t) {
                    let j = choose|j: int| 0 <= j < cand@.len() && cand@[j]@ == t;
                    assert(items[j]@ == t);
                }
                if self.created_views@.contains(t) {
                    let j = choose|j: int| 0 <= j < items.len() && items[j]@ == t;
                    assert(cand@[j]@ == t);
                }
            }
        }
        let mut i: usize = 0;
        while i < self.tab_site_map.entries.len()
            invariant
                self.wf(),
                i <= es.len(),
                es == self.tab_site_map.entries@,
                forall|a: int, b: int| 0 <= a < b < cand@.len() ==> cand@[a]@ != cand@[b]@,
                forall|t: Seq<char>|
                    #![trigger crate::strutil::seq_has_str(cand@, t)]
                    crate::strutil::seq_has_str(cand@, t) <==> (self.created_views@.contains(t) || (
                    exists|j: int| 0 <= j < i && (#[trigger] es[j]).key@ == t)),
            decreases es.len() - i,
        {
            let ghost c0 = cand@;
            if !crate::strutil::vec_has_str(&cand, self.tab_site_map.entries[i].key.as_str()) {
                cand.push(self.tab_site_map.entries[i].key.clone());
                proof {
                    assert forall|a: int| 0 <= a < c0.len() implies c0[a]@ != es[i as int].key@ by {
                        if c0[a]@ == es[i as int].key@ {
                            assert(crate::strutil::seq_has_str(c0, es[i as int].key@));
                        }
                    }
                }
            }
            proof {
                assert forall|t: Seq<char>|
                    crate::strutil::seq_has_str(cand@, t) implies (
                self.created_views@.contains(t) || (exists|j: int|
                    0 <= j < i + 1 && (#[trigger] es[j]).key@ == t)) by {
                    let j = choose|j: int| 0 <= j < cand@.len() && cand@[j]@ == t;
                    if j < c0.len() {
                        assert(crate::strutil::seq_has_str(c0, t)) by {
                            assert(c0[j]@ == t);
                        }
                    } else {
                        assert(es[i as int].key@ == t);
                    }
                }
                assert forall|t: Seq<char>|
                    (self.created_views@.contains(t) || (exists|j: int|
                        0 <= j < i + 1 && (#[trigger] es[j]).key@ == t)) implies
                    crate::strutil::seq_has_str(cand@, t) by {
                    if self.created_views@.contains(t) || (exists|j: int|
                        0 <= j < i && (#[trigger] es[j]).key@ == t) {
                        assert(crate::strutil::seq_has_str(c0, t));
                        let j = choose|j: int| 0 <= j < c0.len() && c0[j]@ == t;
                        assert(cand@[j]@ == t);
                    } else {
                        assert(es[i as int].key@ == t);
                        if crate::strutil::seq_has_str(c0, t) {
                        } else {
                            assert(cand@[c0.len() as int]@ == t);
                        }
                    }
                }
            }
            i += 1;
        }
        let ghost c1 = cand@;
        if !self.current_view.as_str().is_empty() && !crate::strutil::vec_has_str(
            &cand,
            self.current_view.as_str(),
        ) {
            cand.push(self.current_view.clone());
            proof {
                assert forall|a: int| 0 <= a < c1.len() implies c1[a]@ != self.current_view@ by {
                    if c1[a]@ == self.current_view@ {
                        assert(crate::strutil::seq_has_str(c1, self.current_view@));
                    }
                }
            }
        }
        proof {
            assert forall|t: Seq<char>|
                crate::strutil::seq_has_str(cand@, t) implies tab_candidate(*self, t) by {
                let j = choose|j: int| 0 <= j < cand@.len() && cand@[j]@ == t;
                if j < c1.len() {
                    assert(crate::strutil::seq_has_str(c1, t)) by {
                        assert(c1[j]@ == t);
                    }
                }
            }
            assert forall|t: Seq<char>| tab_candidate(*self, t) implies
                crate::strutil::seq_has_str(cand@, t) by {
                if crate::strutil::seq_has_str(c1, t) {
                    let j = choose|j: int| 0 <= j < c1.len() && c1[j]@ == t;
                    assert(cand@[j]@ == t);
                } else {
                    assert(t.len() > 0 && t == self.current_view@);
                    assert(cand@[c1.len() as int]@ == t);
                }
            }
        }
        cand
    }

    /// The full tab-state snapshot: layout fields, the active tab, and
    /// every known tab with its site, sorted by tab id.
    pub fn get_tabs_state(&self) -> (r: TabsStateResponse)
        requires
            self.wf(),
        ensures
            layout_reported(*self, r),
            sorted_by_tab(r.tabs@),
            unique_tabs(r.tabs@),
            forall|t: Seq<char>, site: Seq<char>|
                entry_in(r.tabs@, t, site) ==> self.resolve(t) == Some(site),
            forall|t: Seq<char>|
                #![trigger has_tab_entry(r.tabs@, t)]
                has_tab_entry(r.tabs@, t) <==> (tab_candidate(*self, t) && self.resolve(t)
                    is Some),
    {
        let cand = self.collect_tab_candidates();
        let mut tabs: Vec<TabInfo> = Vec::new();
        let mut i: usize = 0;
        while i < cand.len()
            invariant
                self.wf(),
                i <= cand@.len(),
                forall|a: int, b: int| 0 <= a < b < cand@.len() ==> cand@[a]@ != cand@[b]@,
                forall|t: Seq<char>|
                    #![trigger crate::strutil::seq_has_str(cand@, t)]
                    crate::strutil::seq_has_str(cand@, t) <==> tab_candidate(*self, t),
                sorted_by_tab(tabs@),
                unique_tabs(tabs@),
                forall|t: Seq<char>, site: Seq<char>|
                    entry_in(tabs@, t, site) ==> self.resolve(t) == Some(site),
                forall|t: Seq<char>|
                    #![trigger has_tab_entry(tabs@, t)]
                    has_tab_entry(tabs@, t) <==> ((exists|j: int|
                        0 <= j < i && (#[trigger] cand@[j])@ == t) && self.resolve(t) is Some),
            decreases cand@.len() - i,
        {
            match self.get_tab_site_id(cand[i].as_str()) {
                Ok(site) => {
                    proof {
                        assert(!has_tab_entry(tabs@, cand@[i as int]@));
                    }
                    sorted_insert(&mut tabs, TabInfo { tab_id: cand[i].clone(), site_id: site });
                    proof {
                        assert forall|t: Seq<char>| has_tab_entry(tabs@, t) implies ((exists|
                            j: int,
                        |
                            0 <= j < i + 1 && (#[trigger] cand@[j])@ == t) && self.resolve(t)
                            is Some) by {
                            if t == cand@[i as int]@ {
                                assert(cand@[i as int]@ == t);
                            }
                        }
                        assert forall|t: Seq<char>|
                            ((exists|j: int| 0 <= j < i + 1 && (#[trigger] cand@[j])@ == t)
                                && self.resolve(t) is Some) implies has_tab_entry(tabs@, t) by {
                            let j = choose|j: int| 0 <= j < i + 1 && (#[trigger] cand@[j])@ == t;
                            if j < i as int {
                            } else {
                                assert(t == cand@[i as int]@);
                            }
                        }
                    }
                },
                Err(_) => {
                    proof {
                        assert forall|t: Seq<char>|
                            ((exists|j: int| 0 <= j < i + 1 && (#[trigger] cand@[j])@ == t)
                                && self.resolve(t) is Some) implies has_tab_entry(tabs@, t) by {
                            let j = choose|j: int| 0 <= j < i + 1 && (#[trigger] cand@[j])@ == t;
                            assert(j != i as int);
                        }
                    }
                },
            }
            i += 1;
        }
        proof {
            assert forall|t: Seq<char>|
                #![trigger has_tab_entry(tabs@, t)]
                has_tab_entry(tabs@, t) <==> (tab_candidate(*self, t) && self.resolve(t)
                    is Some) by {
                if tab_candidate(*self, t) && self.resolve(t) is Some {
                    assert(crate::strutil::seq_has_str(cand@, t));
                    let j = choose|j: int| 0 <= j < cand@.len() && cand@[j]@ == t;
                    assert(cand@[j]@ == t);
                }
                if has_tab_entry(tabs@, t) {
                    let j = choose|j: int| 0 <= j < cand@.len() && (#[trigger] cand@[j])@ == t;
                    assert(cand@[j]@ == t);
                    assert(crate::strutil::seq_has_str(cand@, t));
                }
            }
        }
        let mode: String = match self.layout.mode {
            LayoutMode::Single => "single".to_owned(),
            LayoutMode::Split => "split".to_owned(),
        };
        let left: Option<String> = match &self.layout.left_tab_id {
            Some(l) => Some(l.clone()),
            None => None,
        };
        let right: Option<String> = match &self.layout.right_tab_id {
            Some(x) => Some(x.clone()),
            None => None,
        };
        TabsStateResponse {
            active_tab_id: self.active_tab_id.clone(),
            mode,
            ratio: self.layout.ratio,
            left_tab_id: left,
            right_tab_id: right,
            tabs,
        }
    }
}

/// How a record purge relates two states: exactly the doomed tabs lose
/// their webview records and auxiliary mappings.
pub open spec fn records_purged(pre: HubState, post: HubState, doomed: Seq<Seq<char>>) -> bool {
    &&& forall|t: Seq<char>|
        #![trigger post.created_views@.contains(t)]
        post.created_views@.contains(t) <==> pre.created_views@.contains(t) && !doomed.contains(t)
    &&& forall|k: Seq<char>|
        #![trigger post.tab_site_map@.dom().contains(k)]
        post.tab_site_map@.dom().contains(k) <==> pre.tab_site_map@.dom().contains(k)
            && !doomed.contains(k)
    &&& forall|k: Seq<char>|
        #![trigger post.tab_site_map@[k]]
        post.tab_site_map@.dom().contains(k) ==> post.tab_site_map@[k] == pre.tab_site_map@[k]
}

/// The predicate "keeps a site whose id differs from `id`".
pub open spec fn site_keep_pred(id: Seq<char>) -> spec_fn(crate::sites::AiSite) -> bool {
    |s: crate::sites::AiSite| s.id@ != id
}

impl HubState {
    /// Drops the webview records and auxiliary mappings of every listed
    /// tab; nothing else changes.
    fn purge_records(&mut self, tabs: &Vec<String>)
        requires
            old(self).wf(),
        ensures
            final(self).wf(),
            records_purged(*old(self), *final(self), seq_views(tabs@)),
            final(self).config == old(self).config,
            final(self).current_view == old(self).current_view,
            final(self).active_tab_id == old(self).active_tab_id,
            final(self).layout == old(self).layout,
            final(self).pending_extracts == old(self).pending_extracts,
            final(self).summary_in_progress == old(self).summary_in_progress,
            final(self).webview_create_in_progress == old(self).webview_create_in_progress,
    {
        let ghost doomed = seq_views(tabs@);
        let mut i: usize = 0;
        while i < tabs.len()
            invariant
                old(self).wf(),
                self.wf(),
                i <= tabs@.len(),
                doomed == seq_views(tabs@),
                self.config == old(self).config,
                self.current_view == old(self).current_view,
                self.active_tab_id == old(self).active_tab_id,
                self.layout == old(self).layout,
                self.pending_extracts == old(self).pending_extracts,
                self.summary_in_progress == old(self).summary_in_progress,
                self.webview_create_in_progress == old(self).webview_create_in_progress,
                forall|t: Seq<char>|
                    #![trigger self.created_views@.contains(t)]
                    self.created_views@.contains(t) <==> old(self).created_views@.contains(t) && !
                    doomed.take(i as int).contains(t),
                forall|k: Seq<char>|
                    #![trigger self.tab_site_map@.dom().contains(k)]
                    self.tab_site_map@.dom().contains(k) <==> old(self).tab_site_map@.dom().contains(k) && !doomed.take(i as int).contains(k),
                forall|k: Seq<char>|
                    #![trigger self.tab_site_map@[k]]
                    self.tab_site_map@.dom().contains(k) ==> self.tab_site_map@[k] == old(self).tab_site_map@[k],
            decreases tabs@.len() - i,
        {
            let ghost cv0 = self.created_views@;
            let ghost m0 = self.tab_site_map@;
            let ghost key = tabs@[i as int]@;
            self.created_views.remove(tabs[i].as_str());
            self.tab_site_map.remove(tabs[i].as_str());
            proof {
                let t1 = doomed.take(i as int + 1);
                let t0 = doomed.take(i as int);
                assert(doomed[i as int] == key);
                assert forall|t: Seq<char>| t1.contains(t) implies (t0.contains(t) || t
                    == key) by {
                    let j = choose|j: int| 0 <= j < t1.len() && (#[trigger] t1[j]) == t;
                    if j < i as int {
                        assert(t0[j] == t);
                    }
                }
                assert forall|t: Seq<char>| (t0.contains(t) || t == key) implies t1.contains(
                    t,
                ) by {
                    if t0.contains(t) {
                        let j = choose|j: int| 0 <= j < t0.len() && (#[trigger] t0[j]) == t;
                        assert(t1[j] == t);
                    } else {
                        assert(t1[i as int] == t);
                    }
                }
                assert forall|t: Seq<char>|
                    #![trigger self.created_views@.contains(t)]
                    self.created_views@.contains(t) <==> (old(self).created_views@.contains(t)
                        && !t1.contains(t)) by {
                    assert(self.created_views@ == cv0.remove(key));
                    assert(cv0.contains(t) <==> (old(self).created_views@.contains(t)
                        && !t0.contains(t)));
                }
                assert forall|k: Seq<char>|
                    #![trigger self.tab_site_map@.dom().contains(k)]
                    self.tab_site_map@.dom().contains(k) <==> (old(self).tab_site_map@.dom().contains(k) && !t1.contains(k)) by {
                    assert(self.tab_site_map@ == m0.remove(key));
                    assert(m0.dom().contains(k) <==> (old(self).tab_site_map@.dom().contains(k)
                        && !t0.contains(k)));
                }
                assert forall|k: Seq<char>|
                    #![trigger self.tab_site_map@[k]]
                    self.tab_site_map@.dom().contains(k) implies self.tab_site_map@[k] == old(self).tab_site_map@[k] by {
                    assert(self.tab_site_map@ == m0.remove(key));
                    assert(m0.dom().contains(k) && m0[k] == old(self).tab_site_map@[k]);
                }
            }
            i += 1;
        }
        proof {
            assert(doomed.take(doomed.len() as int) =~= doomed);
        }
    }

    /// Edits a site's basic fields.  A changed URL also tears down every
    /// instance of the site (they reload under the new URL on next use)
    /// and, when the site was being shown, clears the whole view state.
    /// Returns the tab ids whose instances must be closed.
    pub fn update_site(
        &mut self,
        site_id: &str,
        name: String,
        url: String,
        icon: String,
        summary_prompt_override: Option<String>,
    ) -> (r: Result<Vec<String>, HubError>)
        requires
            old(self).wf(),
        ensures
            final(self).wf(),
            !is_site(old(self).config.sites@, site_id@) ==> r == Err::<Vec<String>, HubError>(
                HubError::NotFound,
            ) && *final(self) == *old(self),
            is_site(old(self).config.sites@, site_id@) ==> ({
                let fidx = crate::sites::first_site_idx(old(self).config.sites@, site_id@);
                let q = old(self).config.sites@[fidx];
                let p = final(self).config.sites@[fidx];
                &&& final(self).config.sites@.len() == old(self).config.sites@.len()
                &&& (forall|j: int|
                    0 <= j < old(self).config.sites@.len() && j != fidx ==> final(self).config.sites@[j] == old(self).config.sites@[j])
                &&& p.id == q.id
                &&& p.name == name
                &&& p.url == url
                &&& p.icon == icon
                &&& p.builtin == q.builtin
                &&& p.summary_prompt_override == (match summary_prompt_override {
                    Some(o) => o,
                    None => q.summary_prompt_override,
                })
                &&& final(self).config == (crate::sites::AppConfig {
                    sites: final(self).config.sites,
                    ..old(self).config
                })
                &&& (url@ == q.url@ ==> (r matches Ok(v) && v@.len() == 0) && *final(self)
                    == (HubState { config: final(self).config, ..*old(self) }))
                &&& (url@ != q.url@ ==> (r matches Ok(v) && seq_views(v@) == seq![site_id@]
                    + keys_with_value(old(self).tab_site_map.entries@, site_id@)
                    && records_purged(*old(self), *final(self), seq_views(v@))) && ({
                    let cleared = old(self).current_view@ == site_id@ || (old(self).active_tab_id@.len() > 0 && spec_resolve(
                        final(self).config.sites@,
                        final(self).tab_site_map@,
                        old(self).active_tab_id@,
                    ) == Some(site_id@));
                    if cleared {
                        &&& final(self).current_view@.len() == 0
                        &&& final(self).active_tab_id@.len() == 0
                        &&& final(self).layout.mode is Single
                        &&& final(self).layout.ratio == crate::layout::RATIO_DEFAULT
                        &&& final(self).layout.left_tab_id is None
                        &&& final(self).layout.right_tab_id is None
                    } else {
                        &&& final(self).current_view == old(self).current_view
                        &&& final(self).active_tab_id == old(self).active_tab_id
                        &&& final(self).layout == old(self).layout
                    }
                }) && final(self).pending_extracts == old(self).pending_extracts && final(self).summary_in_progress == old(self).summary_in_progress && final(self).webview_create_in_progress == old(self).webview_create_in_progress)
            }),
    {
        let idx = match site_position(&self.config.sites, site_id) {
            Some(idx) => idx,
            None => {
                return Err(HubError::NotFound);
            },
        };
        proof {
            crate::sites::lemma_first_site_idx(self.config.sites@, site_id@);
            assert(crate::sites::first_site_idx(self.config.sites@, site_id@) == idx as int) by {
                let f = crate::sites::first_site_idx(self.config.sites@, site_id@);
                assert(f <= idx as int);
                assert(idx as int <= f);
            }
        }
        let q = self.config.sites.remove(idx);
        let old_url = q.url;
        let new_override = match summary_prompt_override {
            Some(o) => o,
            None => q.summary_prompt_override,
        };
        let changed = !str_eq(old_url.as_str(), url.as_str());
        let updated = crate::sites::AiSite {
            id: q.id,
            name,
            url,
            icon,
            builtin: q.builtin,
            summary_prompt_override: new_override,
        };
        self.config.sites.insert(idx, updated);
        if !changed {
            return Ok(Vec::new());
        }
        let tabs = self.tab_ids_for_site(site_id);
        self.purge_records(&tabs);
        let clear = if str_eq(self.current_view.as_str(), site_id) {
            true
        } else if !self.active_tab_id.as_str().is_empty() {
            let active = self.active_tab_id.clone();
            match self.get_tab_site_id(active.as_str()) {
                Ok(s) => str_eq(s.as_str(), site_id),
                Err(_) => false,
            }
        } else {
            false
        };
        if clear {
            self.current_view = String::new();
            self.active_tab_id = String::new();
            self.layout = Default::default();
        }
        Ok(tabs)
    }

    /// Removes a custom site entirely: the registry, ordering, pinning and
    /// recency forget it, its instances are torn down, and the view state
    /// is cleared when it was current.  Built-in sites cannot be removed.
    /// Returns the tab ids whose instances must be closed.
    pub fn remove_site(&mut self, site_id: &str) -> (r: Result<Vec<String>, HubError>)
        requires
            old(self).wf(),
        ensures
            final(self).wf(),
            !is_site(old(self).config.sites@, site_id@) ==> r == Err::<Vec<String>, HubError>(
                HubError::NotFound,
            ) && *final(self) == *old(self),
            is_site(old(self).config.sites@, site_id@) && crate::sites::site_of(
                old(self).config.sites@,
                site_id@,
            ).builtin ==> r == Err::<Vec<String>, HubError>(HubError::InvalidArgument) && *final(self) == *old(self),
            is_site(old(self).config.sites@, site_id@) && !crate::sites::site_of(
                old(self).config.sites@,
                site_id@,
            ).builtin ==> ({
                &&& (r matches Ok(v) && seq_views(v@) == seq![site_id@] + keys_with_value(
                    old(self).tab_site_map.entries@,
                    site_id@,
                ) && records_purged(*old(self), *final(self), seq_views(v@)))
                &&& final(self).config.sites@ == old(self).config.sites@.filter(
                    site_keep_pred(site_id@),
                )
                &&& seq_views(final(self).config.site_order@) == seq_views(
                    old(self).config.site_order@,
                ).filter(crate::strutil::not_eq_pred(site_id@))
                &&& seq_views(final(self).config.pinned_site_ids@) == seq_views(
                    old(self).config.pinned_site_ids@,
                ).filter(crate::strutil::not_eq_pred(site_id@))
                &&& seq_views(final(self).config.recent_site_ids@) == seq_views(
                    old(self).config.recent_site_ids@,
                ).filter(crate::strutil::not_eq_pred(site_id@))
                &&& final(self).config == (crate::sites::AppConfig {
                    sites: final(self).config.sites,
                    site_order: final(self).config.site_order,
                    pinned_site_ids: final(self).config.pinned_site_ids,
                    recent_site_ids: final(self).config.recent_site_ids,
                    ..old(self).config
                })
                &&& (old(self).current_view@ == site_id@ ==> final(self).current_view@.len() == 0
                    && final(self).active_tab_id@.len() == 0 && final(self).layout.mode is Single
                    && final(self).layout.ratio == crate::layout::RATIO_DEFAULT && final(self).layout.left_tab_id is None && final(self).layout.right_tab_id is None)
                &&& (old(self).current_view@ != site_id@ ==> final(self).current_view == old(self).current_view && final(self).active_tab_id == old(self).active_tab_id && final(self).layout == old(self).layout)
                &&& final(self).pending_extracts == old(self).pending_extracts
                &&& final(self).summary_in_progress == old(self).summary_in_progress
                &&& final(self).webview_create_in_progress == old(self).webview_create_in_progress
            }),
    {
        let site = match self.config.get_site_by_id(site_id) {
            Ok(s) => s,
            Err(e) => {
                return Err(e);
            },
        };
        if site.builtin {
            return Err(HubError::InvalidArgument);
        }
        self.config.sites = filter_sites_out(&self.config.sites, site_id);
        self.config.site_order = crate::sites::filter_out_id(&self.config.site_order, site_id);
        self.config.pinned_site_ids = crate::sites::filter_out_id(
            &self.config.pinned_site_ids,
            site_id,
        );
        self.config.recent_site_ids = crate::sites::filter_out_id(
            &self.config.recent_site_ids,
            site_id,
        );
        let tabs = self.tab_ids_for_site(site_id);
        self.purge_records(&tabs);
        if str_eq(self.current_view.as_str(), site_id) {
            self.current_view = String::new();
            self.active_tab_id = String::new();
            self.layout = Default::default();
        }
        Ok(tabs)
    }
}

/// The index of the first site with this id, if any.
fn site_position(sites: &Vec<crate::sites::AiSite>, id: &str) -> (r: Option<usize>)
    ensures
        match r {
            Some(i) => i < sites@.len() && sites@[i as int].id@ == id@ && (forall|j: int|
                0 <= j < i ==> sites@[j].id@ != id@),
            None => !is_site(sites@, id@),
        },
{
    let mut i: usize = 0;
    while i < sites.len()
        invariant
            i <= sites@.len(),
            forall|j: int| 0 <= j < i ==> sites@[j].id@ != id@,
        decreases sites@.len() - i,
    {
        if str_eq(sites[i].id.as_str(), id) {
            return Some(i);
        }
        i += 1;
    }
    None
}

/// The sites of `list` whose id differs from `id`, in order.
fn filter_sites_out(list: &Vec<crate::sites::AiSite>, id: &str) -> (r: Vec<crate::sites::AiSite>)
    ensures
        r@ == list@.filter(site_keep_pred(id@)),
{
    let ghost full = list@;
    let ghost pred = site_keep_pred(id@);
    let mut out: Vec<crate::sites::AiSite> = Vec::new();
    let mut i: usize = 0;
    proof {
        reveal(Seq::filter);
        assert(full.take(0) =~= Seq::<crate::sites::AiSite>::empty());
        assert(out@ =~= full.take(0).filter(pred));
    }
    while i < list.len()
        invariant
            i <= full.len(),
            full == list@,
            pred == site_keep_pred(id@),
            out@ == full.take(i as int).filter(pred),
        decreases full.len() - i,
    {
        proof {
            broadcast use vstd::prelude::Seq::lemma_filter_push;

            assert(full.take(i as int + 1) =~= full.take(i as int).push(full[i as int]));
        }
        if !str_eq(list[i].id.as_str(), id) {
            out.push(list[i].clone());
            proof {
                assert(out@ =~= full.take(i as int).filter(pred).push(full[i as int]));
            }
        }
        i += 1;
    }
    proof {
        assert(full.take(full.len() as int) =~= full);
    }
    out
}

/// Whether a tab resolves to the given site in the given state.
pub open spec fn resolves_to_pred(s: HubState, site: Seq<char>) -> spec_fn(Seq<char>) -> bool {
    |t: Seq<char>| spec_resolve(s.config.sites@, s.tab_site_map@, t) == Some(site)
}

/// The created tabs that resolve to `site`, in record order.
pub open spec fn spec_refresh_targets(s: HubState, site: Seq<char>) -> Seq<Seq<char>> {
    seq_views(s.created_views.items@).filter(resolves_to_pred(s, site))
}

/// An entry's key appears in `keys_with_value` for its value.
pub proof fn lemma_key_in_keys_with_value(
    es: Seq<crate::strmap::StrPair>,
    v: Seq<char>,
    j: int,
)
    requires
        0 <= j < es.len(),
        es[j].value@ == v,
    ensures
        exists|fi: int|
            0 <= fi < keys_with_value(es, v).len() && keys_with_value(es, v)[fi] == es[j].key@,
    decreases es.len(),
{
    broadcast use vstd::prelude::Seq::lemma_filter_push;

    if j == es.len() - 1 {
        assert(es =~= es.drop_last().push(es.last()));
        let kw = keys_with_value(es, v);
        assert(kw[kw.len() - 1] == es[j].key@);
    } else {
        lemma_key_in_keys_with_value(es.drop_last(), v, j);
        assert(es =~= es.drop_last().push(es.last()));
        let fi = choose|fi: int|
            0 <= fi < keys_with_value(es.drop_last(), v).len() && keys_with_value(
                es.drop_last(),
                v,
            )[fi] == es.drop_last()[j].key@;
        assert(keys_with_value(es, v)[fi] == es[j].key@);
    }
}

/// The keys of the entries of `es` that map to `v`, in entry order.
pub open spec fn keys_with_value(es: Seq<crate::strmap::StrPair>, v: Seq<char>) -> Seq<Seq<char>> {
    es.filter(|p: crate::strmap::StrPair| p.value@ == v).map_values(
        |p: crate::strmap::StrPair| p.key@,
    )
}

/// Chooses between the two layout mode words; anything else is invalid.
pub fn set_layout_mode_check(mode: &str) -> (r: Result<bool, HubError>)
    ensures
        mode@ == "single"@ ==> r == Ok::<bool, HubError>(true),
        mode@ != "single"@ && mode@ == "split"@ ==> r == Ok::<bool, HubError>(false),
        mode@ != "single"@ && mode@ != "split"@ ==> r == Err::<bool, HubError>(
            HubError::InvalidArgument,
        ),
{
    if str_eq(mode, "single") {
        Ok(true)
    } else if str_eq(mode, "split") {
        Ok(false)
    } else {
        Err(HubError::InvalidArgument)
    }
}

/// What the extraction callback decides for a submitted result.
#[derive(Clone, Copy, Debug, PartialEq, Eq, Structural)]
pub enum SubmitOutcome {
    /// A pending entry matched: deliver the text to the waiting caller.
    Deliver,
    /// A pending entry existed but the token did not match: the entry is
    /// consumed and the waiting caller fails immediately.
    Rejected,
    /// No pending entry: the submission is silently ignored.
    NoPending,
}

} // verus!
