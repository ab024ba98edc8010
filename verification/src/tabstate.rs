//! The tab-state snapshot handed to the host front-end: every known tab
//! with its site, sorted by tab id, together with the layout fields.

use vstd::prelude::*;
use crate::strutil::lex_le;
use crate::strutil::lemma_lex_le_total;
use crate::strutil::lemma_lex_le_trans;
use crate::strutil::str_le;

verus! {

/// One tab and the site it displays.
#[derive(Debug)]
pub struct TabInfo {
    pub tab_id: String,
    pub site_id: String,
}

/// The snapshot `get_tabs_state` reports.
#[derive(Debug)]
pub struct TabsStateResponse {
    pub active_tab_id: String,
    pub mode: String,
    pub ratio: u32,
    pub left_tab_id: Option<String>,
    pub right_tab_id: Option<String>,
    pub tabs: Vec<TabInfo>,
}

/// Whether some entry lists this tab id.
pub open spec fn has_tab_entry(s: Seq<TabInfo>, t: Seq<char>) -> bool {
    exists|i: int| 0 <= i < s.len() && s[i].tab_id@ == t
}

/// Whether some entry pairs this tab id with this site id.
pub open spec fn entry_in(s: Seq<TabInfo>, t: Seq<char>, site: Seq<char>) -> bool {
    exists|i: int| 0 <= i < s.len() && s[i].tab_id@ == t && s[i].site_id@ == site
}

/// Entries are sorted by tab id.
pub open spec fn sorted_by_tab(s: Seq<TabInfo>) -> bool {
    forall|i: int, j: int|
        #![trigger s[i], s[j]]
        0 <= i < j < s.len() ==> lex_le(s[i].tab_id@, s[j].tab_id@)
}

/// Tab ids are pairwise distinct.
pub open spec fn unique_tabs(s: Seq<TabInfo>) -> bool {
    forall|i: int, j: int|
        #![trigger s[i], s[j]]
        0 <= i < j < s.len() ==> s[i].tab_id@ != s[j].tab_id@
}

/// The first position whose entry is not lexicographically at or below `t`.
fn insertion_point(v: &Vec<TabInfo>, t: &str) -> (idx: usize)
    ensures
        idx <= v@.len(),
        forall|j: int| 0 <= j < idx ==> lex_le(v@[j].tab_id@, t@),
        idx < v@.len() ==> !lex_le(v@[idx as int].tab_id@, t@),
{
    let mut idx: usize = 0;
    while idx < v.len() && str_le(v[idx].tab_id.as_str(), t)
        invariant
            idx <= v@.len(),
            forall|j: int| 0 <= j < idx ==> lex_le(v@[j].tab_id@, t@),
        decreases v@.len() - idx,
    {
        idx += 1;
    }
    idx
}

/// Inserts an entry with a fresh tab id into a sorted list, keeping it
/// sorted and keeping exactly the old pairs plus the new one.
pub fn sorted_insert(v: &mut Vec<TabInfo>, x: TabInfo)
    requires
        sorted_by_tab(old(v)@),
        unique_tabs(old(v)@),
        !has_tab_entry(old(v)@, x.tab_id@),
    ensures
        sorted_by_tab(final(v)@),
        unique_tabs(final(v)@),
        final(v)@.len() == old(v)@.len() + 1,
        forall|t: Seq<char>, site: Seq<char>|
            #![trigger entry_in(final(v)@, t, site)]
            entry_in(final(v)@, t, site) <==> (entry_in(old(v)@, t, site) || (t == x.tab_id@
                && site == x.site_id@)),
        forall|t: Seq<char>|
            #![trigger has_tab_entry(final(v)@, t)]
            has_tab_entry(final(v)@, t) <==> (has_tab_entry(old(v)@, t) || t == x.tab_id@),
{
    let ghost v0 = old(v)@;
    let ghost xt = x.tab_id@;
    let idx: usize = insertion_point(v, x.tab_id.as_str());
    proof {
        if idx < v0.len() {
            lemma_lex_le_total(v0[idx as int].tab_id@, xt);
            assert(lex_le(xt, v0[idx as int].tab_id@));
        }
        assert forall|j: int| idx <= j < v0.len() implies lex_le(xt, v0[j].tab_id@) by {
            if j > idx {
                assert(lex_le(v0[idx as int].tab_id@, v0[j].tab_id@));
                lemma_lex_le_trans(xt, v0[idx as int].tab_id@, v0[j].tab_id@);
            }
        }
    }
    v.insert(idx, x);
    proof {
        let v1 = v@;
        assert forall|a: int, b: int|
            #![trigger v1[a], v1[b]]
            0 <= a < b < v1.len() implies lex_le(v1[a].tab_id@, v1[b].tab_id@) && v1[a].tab_id@
            != v1[b].tab_id@ by {
            let ga: TabInfo = if a < idx {
                v0[a]
            } else if a == idx {
                x
            } else {
                v0[a - 1]
            };
            let gb: TabInfo = if b < idx {
                v0[b]
            } else if b == idx {
                x
            } else {
                v0[b - 1]
            };
            assert(v1[a] == ga);
            assert(v1[b] == gb);
            if a == idx {
                assert(lex_le(xt, v0[b - 1].tab_id@));
                assert(v0[b - 1].tab_id@ != xt);
            } else if b == idx {
                assert(lex_le(v0[a].tab_id@, xt));
                assert(v0[a].tab_id@ != xt);
            } else if a < idx && b > idx {
                assert(lex_le(v0[a].tab_id@, v0[b - 1].tab_id@));
                assert(v0[a].tab_id@ != v0[b - 1].tab_id@);
            }
        }
        assert forall|t: Seq<char>, site: Seq<char>| entry_in(v1, t, site) implies (entry_in(
            v0,
            t,
            site,
        ) || (t == xt && site == x.site_id@)) by {
            let i = choose|i: int| 0 <= i < v1.len() && v1[i].tab_id@ == t && v1[i].site_id@
                == site;
            if i < idx {
                assert(v0[i].tab_id@ == t && v0[i].site_id@ == site);
            } else if i > idx {
                assert(v0[i - 1].tab_id@ == t && v0[i - 1].site_id@ == site);
            }
        }
        assert forall|t: Seq<char>, site: Seq<char>|
            (entry_in(v0, t, site) || (t == xt && site == x.site_id@)) implies entry_in(
            v1,
            t,
            site,
        ) by {
            if entry_in(v0, t, site) {
                let i = choose|i: int| 0 <= i < v0.len() && v0[i].tab_id@ == t && v0[i].site_id@
                    == site;
                if i < idx {
                    assert(v1[i].tab_id@ == t && v1[i].site_id@ == site);
                } else {
                    assert(v1[i + 1].tab_id@ == t && v1[i + 1].site_id@ == site);
                }
            } else {
                assert(v1[idx as int].tab_id@ == t && v1[idx as int].site_id@ == site);
            }
        }
        assert forall|t: Seq<char>| has_tab_entry(v1, t) implies (has_tab_entry(v0, t) || t
            == xt) by {
            let i = choose|i: int| 0 <= i < v1.len() && v1[i].tab_id@ == t;
            if i < idx {
                assert(v0[i].tab_id@ == t);
            } else if i > idx {
                assert(v0[i - 1].tab_id@ == t);
            }
        }
        assert forall|t: Seq<char>| (has_tab_entry(v0, t) || t == xt) implies has_tab_entry(
            v1,
            t,
        ) by {
            if has_tab_entry(v0, t) {
                let i = choose|i: int| 0 <= i < v0.len() && v0[i].tab_id@ == t;
                if i < idx {
                    assert(v1[i].tab_id@ == t);
                } else {
                    assert(v1[i + 1].tab_id@ == t);
                }
            } else {
                assert(v1[idx as int].tab_id@ == t);
            }
        }
    }
}

} // verus!
