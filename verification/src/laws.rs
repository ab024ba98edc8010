//! Cross-cutting laws of the engine, each proved from the contracts the
//! operations themselves carry.

use vstd::prelude::*;
use crate::hub::close_transition;
use crate::hub::keys_with_value;
use crate::hub::layout_reported;
use crate::hub::records_purged;
use crate::hub::single_forced;
use crate::hub::spec_resolve;
use crate::hub::CloseFallback;
use crate::hub::HubState;
use crate::ids::lemma_suffix_distinct;
use crate::layout::spec_clamp_ratio;
use crate::layout::split_committed;
use crate::layout::RATIO_MAX;
use crate::layout::RATIO_MIN;
use crate::sites::is_site;
use crate::sites::spec_first_site_excluding;
use crate::sites::AiSite;
use crate::strutil::seq_views;
use crate::strutil::view_opt_string;
use crate::tabstate::TabsStateResponse;

verus! {

/// A site id always resolves to itself — a site is its own main tab — and
/// the outcome never depends on the auxiliary map.
pub proof fn lemma_main_tab_identity(
    sites: Seq<AiSite>,
    aux1: Map<Seq<char>, Seq<char>>,
    aux2: Map<Seq<char>, Seq<char>>,
    site_id: Seq<char>,
)
    requires
        is_site(sites, site_id),
    ensures
        spec_resolve(sites, aux1, site_id) == Some(site_id),
        spec_resolve(sites, aux1, site_id) == spec_resolve(sites, aux2, site_id),
{
}

/// Registering two auxiliary tabs for one site from distinct suffixes
/// yields distinct tab ids, and afterwards both resolve to that site.
/// (Minted ids that happen to equal a site id are left out: such an id
/// resolves as a main tab instead.)
pub proof fn lemma_create_tab_twice_distinct(
    s0: HubState,
    s1: HubState,
    s2: HubState,
    site_id: Seq<char>,
    sfx1: Seq<char>,
    sfx2: Seq<char>,
    t1: Seq<char>,
    t2: Seq<char>,
)
    requires
        sfx1 != sfx2,
        t1 == site_id + "_"@ + sfx1,
        s1.tab_site_map@ == s0.tab_site_map@.insert(t1, site_id),
        s1.config == s0.config,
        t2 == site_id + "_"@ + sfx2,
        s2.tab_site_map@ == s1.tab_site_map@.insert(t2, site_id),
        s2.config == s1.config,
        !is_site(s0.config.sites@, t1),
        !is_site(s0.config.sites@, t2),
    ensures
        t1 != t2,
        spec_resolve(s2.config.sites@, s2.tab_site_map@, t1) == Some(site_id),
        spec_resolve(s2.config.sites@, s2.tab_site_map@, t2) == Some(site_id),
{
    assert(t1 != t2) by {
        lemma_suffix_distinct(site_id + "_"@, sfx1, sfx2);
        assert(site_id + "_"@ + sfx1 =~= (site_id + "_"@) + sfx1);
        assert(site_id + "_"@ + sfx2 =~= (site_id + "_"@) + sfx2);
    }
    assert(s2.tab_site_map@[t1] == site_id);
    assert(s2.tab_site_map@[t2] == site_id);
}

/// Closing the shown single-mode tab with no other site remaining clears
/// the active tab and the current view entirely.
pub proof fn lemma_close_active_clears_when_no_sites(
    pre: HubState,
    post: HubState,
    tab: Seq<char>,
    r: CloseFallback,
)
    requires
        close_transition(pre, post, tab, r),
        pre.layout.mode is Single,
        pre.active_tab_id@ == tab,
        spec_first_site_excluding(
            pre.config.sites@,
            seq_views(pre.config.site_order@),
            seq_views(pre.config.pinned_site_ids@),
            match spec_resolve(pre.config.sites@, pre.tab_site_map@, tab) {
                Some(s) => s,
                None => tab,
            },
        ) is None,
    ensures
        r is ClearToEmpty,
        post.active_tab_id@.len() == 0,
        post.current_view@.len() == 0,
{
}

/// Closing the shown single-mode tab with sites remaining falls back to
/// the highest-priority remaining site: pinned order first, then display
/// order, then any remaining site.
pub proof fn lemma_close_active_falls_back(
    pre: HubState,
    post: HubState,
    tab: Seq<char>,
    r: CloseFallback,
    fallback: Seq<char>,
)
    requires
        close_transition(pre, post, tab, r),
        pre.layout.mode is Single,
        pre.active_tab_id@ == tab,
        spec_first_site_excluding(
            pre.config.sites@,
            seq_views(pre.config.site_order@),
            seq_views(pre.config.pinned_site_ids@),
            match spec_resolve(pre.config.sites@, pre.tab_site_map@, tab) {
                Some(s) => s,
                None => tab,
            },
        ) == Some(fallback),
    ensures
        r matches CloseFallback::SwitchToFirstSite(v) && v@ == fallback,
        post.active_tab_id@.len() == 0,
        post.current_view@.len() == 0,
{
}

/// Closing the left side of an established split collapses to single mode
/// showing the surviving right tab.
pub proof fn lemma_close_split_left_collapses(
    pre: HubState,
    post: HubState,
    tab: Seq<char>,
    r: CloseFallback,
    survivor: Seq<char>,
)
    requires
        close_transition(pre, post, tab, r),
        pre.layout.mode is Split,
        pre.layout.left_tab_id matches Some(l) && l@ == tab,
        pre.layout.right_tab_id matches Some(x) && x@ == survivor,
        survivor != tab,
    ensures
        r matches CloseFallback::SwitchToTab(v) && v@ == survivor,
        single_forced(pre.layout, post.layout),
{
}

/// Closing the right side of an established split collapses to single
/// mode showing the surviving left tab.
pub proof fn lemma_close_split_right_collapses(
    pre: HubState,
    post: HubState,
    tab: Seq<char>,
    r: CloseFallback,
    survivor: Seq<char>,
)
    requires
        close_transition(pre, post, tab, r),
        pre.layout.mode is Split,
        pre.layout.right_tab_id matches Some(x) && x@ == tab,
        pre.layout.left_tab_id matches Some(l) && l@ == survivor,
        survivor != tab,
    ensures
        r matches CloseFallback::SwitchToTab(v) && v@ == survivor,
        single_forced(pre.layout, post.layout),
{
}

/// Tearing down every tab of a site leaves no auxiliary mapping pointing
/// at that site.
pub proof fn lemma_purge_removes_site_tabs(
    pre: HubState,
    post: HubState,
    site: Seq<char>,
    doomed: Seq<Seq<char>>,
)
    requires
        pre.wf(),
        records_purged(pre, post, doomed),
        doomed == seq![site] + keys_with_value(pre.tab_site_map.entries@, site),
    ensures
        forall|k: Seq<char>|
            #![trigger post.tab_site_map@[k]]
            post.tab_site_map@.dom().contains(k) ==> post.tab_site_map@[k] != site,
{
    assert forall|k: Seq<char>|
        #![trigger post.tab_site_map@[k]]
        post.tab_site_map@.dom().contains(k) implies post.tab_site_map@[k] != site by {
        if post.tab_site_map@[k] == site {
            let es = pre.tab_site_map.entries@;
            assert(pre.tab_site_map@.dom().contains(k) && !doomed.contains(k));
            let j = choose|i: int| 0 <= i < es.len() && es[i].key@ == k;
            assert(pre.tab_site_map@[k] == crate::strmap::value_of(es, k));
            assert(es[j].value@ == site);
            crate::hub::lemma_key_in_keys_with_value(es, site, j);
            let fi = choose|fi: int|
                0 <= fi < keys_with_value(es, site).len() && (#[trigger] keys_with_value(
                    es,
                    site,
                )[fi]) == k;
            assert(doomed[fi + 1] == k);
            assert(doomed.contains(k));
        }
    }
}

/// A resize notification arriving while a creation is in flight is
/// suppressed; once the creation ends, resize handling resumes.
pub proof fn lemma_creation_suppresses_resize(pre: HubState, mid: HubState, post: HubState)
    requires
        pre.webview_create_in_progress == 0,
        mid.webview_create_in_progress == pre.webview_create_in_progress + 1,
        post.webview_create_in_progress == mid.webview_create_in_progress - 1,
    ensures
        mid.webview_create_in_progress != 0,
        post.webview_create_in_progress == 0,
{
}

/// Every clamped ratio lies within the admissible range.
pub proof fn lemma_clamp_ratio_in_range(r: u32)
    ensures
        RATIO_MIN <= spec_clamp_ratio(r) <= RATIO_MAX,
{
}

/// Round trip: committing a split and then reading the tab state reports
/// split mode with exactly the committed slots and ratio.
pub proof fn lemma_set_layout_round_trip(
    pre: HubState,
    post: HubState,
    left: Seq<char>,
    right: Seq<char>,
    ratio: u32,
    resp: TabsStateResponse,
)
    requires
        split_committed(pre.layout, post.layout, left, right, Some(ratio)),
        RATIO_MIN <= ratio <= RATIO_MAX,
        layout_reported(post, resp),
    ensures
        resp.mode@ == "split"@,
        resp.ratio == ratio,
        view_opt_string(resp.left_tab_id) == Some(left),
        view_opt_string(resp.right_tab_id) == Some(right),
{
}

} // verus!
