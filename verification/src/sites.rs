//! The site registry and application configuration the engine works over.
//!
//! Sites are identified by globally unique string ids; the configuration
//! carries the registry itself plus ordering, pinning and recency lists and
//! the summarization settings.  Persistence of this structure is a
//! collaborator's job; everything here is the in-memory model and the exact
//! list manipulations the commands perform.

use vstd::prelude::*;
use crate::errors::HubError;
use crate::strutil::not_eq_pred;
use crate::strutil::seq_views;
use crate::strutil::str_eq;
use crate::strutil::vec_has_str;
use crate::strutil::view_opt_string;

verus! {

/// The recent-sites list after pushing `id` to the front: any other
/// occurrence of `id` is dropped and at most ten entries are kept.
pub open spec fn spec_upsert_recent(olds: Seq<Seq<char>>, id: Seq<char>) -> Seq<Seq<char>> {
    let full = seq![id] + olds.filter(not_eq_pred(id));
    if full.len() <= 10 {
        full
    } else {
        full.take(10)
    }
}

/// One embedded web front-end.
#[derive(Debug, PartialEq, Eq)]
pub struct AiSite {
    pub id: String,
    pub name: String,
    pub url: String,
    pub icon: String,
    pub builtin: bool,
    pub summary_prompt_override: String,
}

impl Clone for AiSite {
    fn clone(&self) -> (r: Self)
        ensures
            r == *self,
    {
        AiSite {
            id: self.id.clone(),
            name: self.name.clone(),
            url: self.url.clone(),
            icon: self.icon.clone(),
            builtin: self.builtin,
            summary_prompt_override: self.summary_prompt_override.clone(),
        }
    }
}

/// The ids of `sites`, in order.
pub open spec fn spec_site_ids(sites: Seq<AiSite>) -> Seq<Seq<char>> {
    sites.map_values(|s: AiSite| s.id@)
}

/// Whether some site of `sites` has id `id`.
pub open spec fn is_site(sites: Seq<AiSite>, id: Seq<char>) -> bool {
    exists|i: int| 0 <= i < sites.len() && sites[i].id@ == id
}

/// The first index whose site has id `id` (meaningful when `is_site` holds).
pub open spec fn first_site_idx(sites: Seq<AiSite>, id: Seq<char>) -> int
    decreases sites.len(),
{
    if sites.len() == 0 {
        0
    } else if sites[0].id@ == id {
        0
    } else {
        1 + first_site_idx(sites.drop_first(), id)
    }
}

/// The first site of `sites` whose id is `id`.
pub open spec fn site_of(sites: Seq<AiSite>, id: Seq<char>) -> AiSite {
    sites[first_site_idx(sites, id)]
}

/// `first_site_idx` indeed finds the first match.
pub proof fn lemma_first_site_idx(sites: Seq<AiSite>, id: Seq<char>)
    requires
        is_site(sites, id),
    ensures
        0 <= first_site_idx(sites, id) < sites.len(),
        sites[first_site_idx(sites, id)].id@ == id,
        forall|j: int| 0 <= j < first_site_idx(sites, id) ==> sites[j].id@ != id,
    decreases sites.len(),
{
    if sites.len() > 0 && sites[0].id@ != id {
        assert(is_site(sites.drop_first(), id)) by {
            let i = choose|i: int| 0 <= i < sites.len() && sites[i].id@ == id;
            assert(sites.drop_first()[i - 1].id@ == id);
        }
        lemma_first_site_idx(sites.drop_first(), id);
        assert(forall|j: int|
            1 <= j < first_site_idx(sites, id) ==> sites[j] == sites.drop_first()[j - 1]);
    }
}

/// The first id of `list` that names an existing site other than `exclude`.
pub open spec fn first_listed_site(
    list: Seq<Seq<char>>,
    sites: Seq<AiSite>,
    exclude: Seq<char>,
) -> Option<Seq<char>>
    decreases list.len(),
{
    if list.len() == 0 {
        None
    } else if list[0] != exclude && is_site(sites, list[0]) {
        Some(list[0])
    } else {
        first_listed_site(list.drop_first(), sites, exclude)
    }
}

/// The fallback site after a close: the first pinned site, then the first
/// site in display order, then any remaining site — always excluding
/// `exclude` and ids that name no existing site.
pub open spec fn spec_first_site_excluding(
    sites: Seq<AiSite>,
    order: Seq<Seq<char>>,
    pinned: Seq<Seq<char>>,
    exclude: Seq<char>,
) -> Option<Seq<char>> {
    match first_listed_site(pinned, sites, exclude) {
        Some(s) => Some(s),
        None => match first_listed_site(order, sites, exclude) {
            Some(s) => Some(s),
            None => first_listed_site(spec_site_ids(sites), sites, exclude),
        },
    }
}

/// The ids of `list` that name an existing site, first occurrence only,
/// given the ids already seen.
pub open spec fn spec_keep_known(
    list: Seq<Seq<char>>,
    sites: Seq<AiSite>,
    seen: Seq<Seq<char>>,
) -> Seq<Seq<char>>
    decreases list.len(),
{
    if list.len() == 0 {
        Seq::empty()
    } else if is_site(sites, list[0]) && !seen.contains(list[0]) {
        seq![list[0]] + spec_keep_known(list.drop_first(), sites, seen.push(list[0]))
    } else {
        spec_keep_known(list.drop_first(), sites, seen)
    }
}

/// The ids of `sites` not yet seen, in site order, first occurrence only.
pub open spec fn spec_missing_ids(sites: Seq<AiSite>, seen: Seq<Seq<char>>) -> Seq<Seq<char>>
    decreases sites.len(),
{
    if sites.len() == 0 {
        Seq::empty()
    } else if seen.contains(sites[0].id@) {
        spec_missing_ids(sites.drop_first(), seen)
    } else {
        seq![sites[0].id@] + spec_missing_ids(sites.drop_first(), seen.push(sites[0].id@))
    }
}

/// The sites of `sites` whose ids were not yet seen, first occurrence of
/// each id, in order.  With nothing seen this deduplicates the registry.
pub open spec fn spec_first_occurrences(sites: Seq<AiSite>, seen: Seq<Seq<char>>) -> Seq<AiSite>
    decreases sites.len(),
{
    if sites.len() == 0 {
        Seq::empty()
    } else if seen.contains(sites[0].id@) {
        spec_first_occurrences(sites.drop_first(), seen)
    } else {
        seq![sites[0]] + spec_first_occurrences(sites.drop_first(), seen.push(sites[0].id@))
    }
}

/// The sites listed by the display order: each listed id marks itself
/// seen, and ids that exist contribute their (first) site.  The second
/// component is every id seen afterwards.
pub open spec fn spec_listed_sites(
    order: Seq<Seq<char>>,
    sites: Seq<AiSite>,
    seen: Seq<Seq<char>>,
) -> (Seq<AiSite>, Seq<Seq<char>>)
    decreases order.len(),
{
    if order.len() == 0 {
        (Seq::empty(), seen)
    } else if seen.contains(order[0]) {
        spec_listed_sites(order.drop_first(), sites, seen)
    } else if is_site(sites, order[0]) {
        let rest = spec_listed_sites(order.drop_first(), sites, seen.push(order[0]));
        (seq![site_of(sites, order[0])] + rest.0, rest.1)
    } else {
        spec_listed_sites(order.drop_first(), sites, seen.push(order[0]))
    }
}

/// Every site, in display order first and registry order for the rest.
pub open spec fn spec_get_ai_sites(order: Seq<Seq<char>>, sites: Seq<AiSite>) -> Seq<AiSite> {
    let l = spec_listed_sites(order, sites, Seq::empty());
    l.0 + spec_first_occurrences(sites, l.1)
}

/// The registry and order after the built-in sites were re-added: each
/// missing built-in is appended to both.
pub open spec fn spec_ensure_builtins(
    sites: Seq<AiSite>,
    order: Seq<Seq<char>>,
    builtins: Seq<AiSite>,
) -> (Seq<AiSite>, Seq<Seq<char>>)
    decreases builtins.len(),
{
    if builtins.len() == 0 {
        (sites, order)
    } else if is_site(sites, builtins[0].id@) {
        spec_ensure_builtins(sites, order, builtins.drop_first())
    } else {
        spec_ensure_builtins(
            sites.push(builtins[0]),
            order.push(builtins[0].id@),
            builtins.drop_first(),
        )
    }
}

/// A sanitized site order: the submitted ids that exist, deduplicated,
/// followed by every site id not yet listed.
pub open spec fn spec_sanitized_order(order: Seq<Seq<char>>, sites: Seq<AiSite>) -> Seq<
    Seq<char>,
> {
    let kept = spec_keep_known(order, sites, Seq::empty());
    kept + spec_missing_ids(sites, kept)
}

/// The language the summaries default to.
pub fn default_language() -> (r: String)
    ensures
        r@ == "zh-CN"@,
{
    "zh-CN".to_owned()
}

/// The view of the built-in summary prompt template.
pub open spec fn default_summary_prompt_template_view() -> Seq<char> {
    "请把以下内容总结成可迁移的上下文（输出语言：{language}）：\n\n要求：\n1) 1段简短摘要（<=120字）\n2) 5-10条要点列表\n3) 关键约束/偏好（如有）\n\n输出为纯文本，结构：\n摘要: ...\n要点: - ...\n约束: - ...\n\n内容：\n{text}"@
}

/// The built-in summary prompt template.  `{language}` and `{text}` are
/// placeholders filled in by `build_summary_prompt`.
pub fn default_summary_prompt_template() -> (r: String)
    ensures
        r@ == default_summary_prompt_template_view(),
{
    "请把以下内容总结成可迁移的上下文（输出语言：{language}）：\n\n要求：\n1) 1段简短摘要（<=120字）\n2) 5-10条要点列表\n3) 关键约束/偏好（如有）\n\n输出为纯文本，结构：\n摘要: ...\n要点: - ...\n约束: - ...\n\n内容：\n{text}".to_owned()
}

/// The sidebar width an expanded sidebar defaults to, in logical units.
pub fn default_sidebar_expanded_width() -> (r: u32)
    ensures
        r == 180,
{
    180
}

/// The four sites every installation starts with.
pub fn get_builtin_sites() -> (r: Vec<AiSite>)
    ensures
        r@.len() == 4,
        r@[0].id@ == "deepseek"@ && r@[0].name@ == "DeepSeek"@ && r@[0].url@
            == "https://chat.deepseek.com"@ && r@[0].icon@ == "deepseek"@,
        r@[1].id@ == "doubao"@ && r@[1].name@ == "豆包"@ && r@[1].url@
            == "https://www.doubao.com/chat/"@ && r@[1].icon@ == "doubao"@,
        r@[2].id@ == "openai"@ && r@[2].name@ == "ChatGPT"@ && r@[2].url@
            == "https://chatgpt.com"@ && r@[2].icon@ == "openai"@,
        r@[3].id@ == "qianwen"@ && r@[3].name@ == "通义千问"@ && r@[3].url@
            == "https://tongyi.aliyun.com/qianwen/"@ && r@[3].icon@ == "qianwen"@,
        forall|i: int| 0 <= i < 4 ==> r@[i].builtin && r@[i].summary_prompt_override@.len() == 0,
{
    let mut sites: Vec<AiSite> = Vec::new();
    sites.push(
        AiSite {
            id: "deepseek".to_owned(),
            name: "DeepSeek".to_owned(),
            url: "https://chat.deepseek.com".to_owned(),
            icon: "deepseek".to_owned(),
            builtin: true,
            summary_prompt_override: String::new(),
        },
    );
    sites.push(
        AiSite {
            id: "doubao".to_owned(),
            name: "豆包".to_owned(),
            url: "https://www.doubao.com/chat/".to_owned(),
            icon: "doubao".to_owned(),
            builtin: true,
            summary_prompt_override: String::new(),
        },
    );
    sites.push(
        AiSite {
            id: "openai".to_owned(),
            name: "ChatGPT".to_owned(),
            url: "https://chatgpt.com".to_owned(),
            icon: "openai".to_owned(),
            builtin: true,
            summary_prompt_override: String::new(),
        },
    );
    sites.push(
        AiSite {
            id: "qianwen".to_owned(),
            name: "通义千问".to_owned(),
            url: "https://tongyi.aliyun.com/qianwen/".to_owned(),
            icon: "qianwen".to_owned(),
            builtin: true,
            summary_prompt_override: String::new(),
        },
    );
    sites
}

/// The whole persisted configuration, with widths in logical units.
#[derive(Debug)]
pub struct AppConfig {
    pub sites: Vec<AiSite>,
    pub site_order: Vec<String>,
    pub pinned_site_ids: Vec<String>,
    pub recent_site_ids: Vec<String>,
    pub theme: String,
    pub sidebar_width: u32,
    pub sidebar_expanded_width: u32,
    pub language: String,
    pub summary_prompt_template: String,
    pub ai_api_base_url: String,
    pub ai_api_model: String,
    pub ai_api_key: String,
    pub active_project_id: String,
}

impl Default for AppConfig {
    /// The configuration of a fresh installation.
    fn default() -> (r: AppConfig)
        ensures
            r.sites@.len() == 4,
            r.sites@[0].id@ == "deepseek"@ && r.sites@[1].id@ == "doubao"@ && r.sites@[2].id@
                == "openai"@ && r.sites@[3].id@ == "qianwen"@,
            forall|i: int| 0 <= i < 4 ==> r.sites@[i].builtin,
            seq_views(r.site_order@) == spec_site_ids(r.sites@),
            r.summary_prompt_template@ == default_summary_prompt_template_view(),
            r.pinned_site_ids@.len() == 0,
            r.recent_site_ids@.len() == 0,
            r.theme@ == "dark"@,
            r.sidebar_width == 64,
            r.sidebar_expanded_width == 180,
            r.language@ == "zh-CN"@,
            r.ai_api_base_url@ == "https://api.openai.com/v1"@,
            r.ai_api_model@.len() == 0,
            r.ai_api_key@.len() == 0,
            r.active_project_id@.len() == 0,
    {
        let sites = get_builtin_sites();
        let mut site_order: Vec<String> = Vec::new();
        let mut i: usize = 0;
        while i < sites.len()
            invariant
                i <= sites@.len(),
                site_order@.len() == i,
                forall|j: int| 0 <= j < i ==> site_order@[j]@ == sites@[j].id@,
            decreases sites@.len() - i,
        {
            site_order.push(sites[i].id.clone());
            i += 1;
        }
        let r = AppConfig {
            sites,
            site_order,
            pinned_site_ids: Vec::new(),
            recent_site_ids: Vec::new(),
            theme: "dark".to_owned(),
            sidebar_width: 64,
            sidebar_expanded_width: default_sidebar_expanded_width(),
            language: default_language(),
            summary_prompt_template: default_summary_prompt_template(),
            ai_api_base_url: "https://api.openai.com/v1".to_owned(),
            ai_api_model: String::new(),
            ai_api_key: String::new(),
            active_project_id: String::new(),
        };
        proof {
            assert(seq_views(r.site_order@) =~= spec_site_ids(r.sites@));
        }
        r
    }
}

impl AppConfig {
    /// Whether a site with this id exists.
    pub fn site_exists(&self, site_id: &str) -> (r: bool)
        ensures
            r == is_site(self.sites@, site_id@),
    {
        let mut i: usize = 0;
        while i < self.sites.len()
            invariant
                i <= self.sites@.len(),
                forall|j: int| 0 <= j < i ==> self.sites@[j].id@ != site_id@,
            decreases self.sites@.len() - i,
        {
            if str_eq(self.sites[i].id.as_str(), site_id) {
                return true;
            }
            i += 1;
        }
        false
    }

    /// The first site with this id, or `NotFound`.
    pub fn get_site_by_id(&self, site_id: &str) -> (r: Result<AiSite, HubError>)
        ensures
            r is Ok <==> is_site(self.sites@, site_id@),
            r matches Ok(site) ==> site == site_of(self.sites@, site_id@) && site.id@ == site_id@,
            r matches Err(e) ==> e == HubError::NotFound,
    {
        let mut i: usize = 0;
        while i < self.sites.len()
            invariant
                i <= self.sites@.len(),
                forall|j: int| 0 <= j < i ==> self.sites@[j].id@ != site_id@,
            decreases self.sites@.len() - i,
        {
            if str_eq(self.sites[i].id.as_str(), site_id) {
                proof {
                    lemma_first_site_idx(self.sites@, site_id@);
                    assert(first_site_idx(self.sites@, site_id@) == i as int) by {
                        let f = first_site_idx(self.sites@, site_id@);
                        assert(f <= i as int);
                        assert(i as int <= f);
                    }
                }
                return Ok(self.sites[i].clone());
            }
            i += 1;
        }
        Err(HubError::NotFound)
    }

    /// Moves `site_id` to the front of the recent list, removing any other
    /// occurrence of it and keeping at most the ten most recent entries.
    pub fn upsert_recent_site(&mut self, site_id: &str)
        ensures
            *final(self) == (AppConfig {
                recent_site_ids: final(self).recent_site_ids,
                ..*old(self)
            }),
            seq_views(final(self).recent_site_ids@) == spec_upsert_recent(
                seq_views(old(self).recent_site_ids@),
                site_id@,
            ),
    {
        let ghost pred = not_eq_pred(site_id@);
        let ghost olds = seq_views(old(self).recent_site_ids@);
        let mut next: Vec<String> = Vec::new();
        let mut id0 = String::new();
        id0.append(site_id);
        next.push(id0);
        let mut i: usize = 0;
        proof {
            assert(olds.take(0) =~= Seq::<Seq<char>>::empty());
            reveal(Seq::filter);
            assert(seq_views(next@) =~= seq![site_id@] + olds.take(0).filter(pred));
        }
        while i < self.recent_site_ids.len()
            invariant
                i <= self.recent_site_ids@.len(),
                self.recent_site_ids@ == old(self).recent_site_ids@,
                olds == seq_views(old(self).recent_site_ids@),
                pred == not_eq_pred(site_id@),
                seq_views(next@) == seq![site_id@] + olds.take(i as int).filter(pred),
            decreases self.recent_site_ids@.len() - i,
        {
            let keep = !str_eq(self.recent_site_ids[i].as_str(), site_id);
            proof {
                reveal(Seq::filter);
                let t1 = olds.take(i as int + 1);
                assert(t1.drop_last() =~= olds.take(i as int));
                assert(t1.last() == olds[i as int]);
            }
            if keep {
                next.push(self.recent_site_ids[i].clone());
                proof {
                    assert(seq_views(next@) =~= (seq![site_id@] + olds.take(i as int).filter(
                        pred,
                    )).push(olds[i as int]));
                    assert((seq![site_id@] + olds.take(i as int).filter(pred)).push(
                        olds[i as int],
                    ) =~= seq![site_id@] + olds.take(i as int + 1).filter(pred));
                }
            }
            i += 1;
        }
        proof {
            assert(olds.take(olds.len() as int) =~= olds);
        }
        next.truncate(10);
        self.recent_site_ids = next;
        proof {
            let full = seq![site_id@] + olds.filter(pred);
            if full.len() <= 10 {
                assert(seq_views(final(self).recent_site_ids@) =~= full.take(full.len() as int));
            } else {
                assert(seq_views(final(self).recent_site_ids@) =~= full.take(10));
            }
        }
    }

    /// The fallback site chosen when a shown tab was closed: the first
    /// pinned site, then the first site in display order, then any remaining
    /// site, never `exclude_site_id` and never an id without a site.
    pub fn first_site_id_excluding(&self, exclude_site_id: &str) -> (r: Option<String>)
        ensures
            view_opt_string(r) == spec_first_site_excluding(
                self.sites@,
                seq_views(self.site_order@),
                seq_views(self.pinned_site_ids@),
                exclude_site_id@,
            ),
    {
        let ghost sites = self.sites@;
        let ghost ex = exclude_site_id@;
        let ghost pinned = seq_views(self.pinned_site_ids@);
        let mut i: usize = 0;
        proof {
            assert(pinned.skip(0) =~= pinned);
        }
        while i < self.pinned_site_ids.len()
            invariant
                i <= self.pinned_site_ids@.len(),
                sites == self.sites@,
                ex == exclude_site_id@,
                pinned == seq_views(self.pinned_site_ids@),
                first_listed_site(pinned, sites, ex) == first_listed_site(
                    pinned.skip(i as int),
                    sites,
                    ex,
                ),
            decreases self.pinned_site_ids@.len() - i,
        {
            proof {
                assert(pinned.skip(i as int)[0] == pinned[i as int]);
                assert(pinned.skip(i as int).drop_first() =~= pinned.skip(i as int + 1));
            }
            if !str_eq(self.pinned_site_ids[i].as_str(), exclude_site_id) && self.site_exists(
                self.pinned_site_ids[i].as_str(),
            ) {
                return Some(self.pinned_site_ids[i].clone());
            }
            i += 1;
        }
        let ghost order = seq_views(self.site_order@);
        let mut i: usize = 0;
        proof {
            assert(pinned.skip(pinned.len() as int) =~= Seq::<Seq<char>>::empty());
            assert(order.skip(0) =~= order);
        }
        while i < self.site_order.len()
            invariant
                i <= self.site_order@.len(),
                sites == self.sites@,
                ex == exclude_site_id@,
                pinned == seq_views(self.pinned_site_ids@),
                order == seq_views(self.site_order@),
                first_listed_site(pinned, sites, ex) is None,
                first_listed_site(order, sites, ex) == first_listed_site(
                    order.skip(i as int),
                    sites,
                    ex,
                ),
            decreases self.site_order@.len() - i,
        {
            proof {
                assert(order.skip(i as int)[0] == order[i as int]);
                assert(order.skip(i as int).drop_first() =~= order.skip(i as int + 1));
            }
            if !str_eq(self.site_order[i].as_str(), exclude_site_id) && self.site_exists(
                self.site_order[i].as_str(),
            ) {
                proof {
                    assert(order[i as int] == self.site_order@[i as int]@);
                    assert(first_listed_site(order.skip(i as int), sites, ex) == Some(
                        order[i as int],
                    ));
                }
                return Some(self.site_order[i].clone());
            }
            i += 1;
        }
        let ghost ids = spec_site_ids(self.sites@);
        let mut i: usize = 0;
        proof {
            assert(order.skip(order.len() as int) =~= Seq::<Seq<char>>::empty());
            assert(ids.skip(0) =~= ids);
        }
        while i < self.sites.len()
            invariant
                i <= self.sites@.len(),
                sites == self.sites@,
                ex == exclude_site_id@,
                pinned == seq_views(self.pinned_site_ids@),
                order == seq_views(self.site_order@),
                ids == spec_site_ids(self.sites@),
                first_listed_site(pinned, sites, ex) is None,
                first_listed_site(order, sites, ex) is None,
                first_listed_site(ids, sites, ex) == first_listed_site(
                    ids.skip(i as int),
                    sites,
                    ex,
                ),
            decreases self.sites@.len() - i,
        {
            proof {
                assert(ids.skip(i as int)[0] == ids[i as int]);
                assert(ids.skip(i as int).drop_first() =~= ids.skip(i as int + 1));
            }
            if !str_eq(self.sites[i].id.as_str(), exclude_site_id) {
                proof {
                    assert(ids[i as int] == self.sites@[i as int].id@);
                    assert(is_site(sites, ids[i as int])) by {
                        assert(sites[i as int].id@ == ids[i as int]);
                    }
                    assert(first_listed_site(ids.skip(i as int), sites, ex) == Some(
                        ids[i as int],
                    ));
                }
                return Some(self.sites[i].id.clone());
            }
            i += 1;
        }
        proof {
            assert(ids.skip(ids.len() as int) =~= Seq::<Seq<char>>::empty());
        }
        None
    }

    /// Replaces the site order with the submitted one, keeping only ids of
    /// existing sites, dropping duplicates, and appending every site the
    /// submission forgot.
    pub fn update_sites_order(&mut self, order: Vec<String>)
        ensures
            seq_views(final(self).site_order@) == spec_sanitized_order(
                seq_views(order@),
                final(self).sites@,
            ),
            *final(self) == (AppConfig { site_order: final(self).site_order, ..*old(self) }),
    {
        let mut next = keep_known_ids(&order, &self.sites);
        append_missing_ids(&mut next, &self.sites);
        self.site_order = next;
    }

    /// Replaces the pinned list with the submitted one, keeping only ids
    /// of existing sites and dropping duplicates.
    pub fn update_pinned_sites_order(&mut self, order: Vec<String>)
        ensures
            seq_views(final(self).pinned_site_ids@) == spec_keep_known(
                seq_views(order@),
                final(self).sites@,
                Seq::empty(),
            ),
            *final(self) == (AppConfig {
                pinned_site_ids: final(self).pinned_site_ids,
                ..*old(self)
            }),
    {
        let next = keep_known_ids(&order, &self.sites);
        self.pinned_site_ids = next;
    }

    /// Pins a site to the front of the pinned list, or unpins it.  An
    /// unknown site fails with `NotFound`.
    pub fn toggle_pin_site(&mut self, site_id: &str, pinned: bool) -> (r: Result<(), HubError>)
        ensures
            !is_site(old(self).sites@, site_id@) ==> r == Err::<(), HubError>(HubError::NotFound)
                && *final(self) == *old(self),
            is_site(old(self).sites@, site_id@) ==> r == Ok::<(), HubError>(()) && seq_views(
                final(self).pinned_site_ids@,
            ) == ({
                let f = seq_views(old(self).pinned_site_ids@).filter(not_eq_pred(site_id@));
                if pinned {
                    seq![site_id@] + f
                } else {
                    f
                }
            }) && *final(self) == (AppConfig {
                pinned_site_ids: final(self).pinned_site_ids,
                ..*old(self)
            }),
    {
        if !self.site_exists(site_id) {
            return Err(HubError::NotFound);
        }
        let mut next = filter_out_id(&self.pinned_site_ids, site_id);
        if pinned {
            let mut with_front: Vec<String> = Vec::new();
            let mut owned = String::new();
            owned.append(site_id);
            with_front.push(owned);
            let ghost f = seq_views(next@);
            let mut i: usize = 0;
            while i < next.len()
                invariant
                    i <= next@.len(),
                    f == seq_views(next@),
                    seq_views(with_front@) == seq![site_id@] + f.take(i as int),
                decreases next@.len() - i,
            {
                let ghost w0 = seq_views(with_front@);
                with_front.push(next[i].clone());
                proof {
                    assert(next@[i as int]@ == f[i as int]);
                    assert(seq_views(with_front@) =~= w0.push(f[i as int]));
                    assert(f.take(i as int + 1) =~= f.take(i as int).push(f[i as int]));
                    assert((seq![site_id@] + f.take(i as int)).push(f[i as int]) =~= seq![site_id@]
                        + f.take(i as int + 1));
                    assert(seq_views(with_front@) == seq![site_id@] + f.take(i as int + 1));
                }
                i += 1;
            }
            proof {
                assert(f.take(f.len() as int) =~= f);
            }
            self.pinned_site_ids = with_front;
        } else {
            self.pinned_site_ids = next;
        }
        Ok(())
    }

    /// Empties the recent-sites list.
    pub fn clear_recent_sites(&mut self)
        ensures
            final(self).recent_site_ids@.len() == 0,
            *final(self) == (AppConfig {
                recent_site_ids: final(self).recent_site_ids,
                ..*old(self)
            }),
    {
        self.recent_site_ids = Vec::new();
    }

    /// Records the theme word.
    pub fn set_theme(&mut self, theme: String)
        ensures
            final(self).theme == theme,
            *final(self) == (AppConfig { theme: final(self).theme, ..*old(self) }),
    {
        self.theme = theme;
    }

    /// Records the language code; a blank code is rejected.
    pub fn set_language(&mut self, language: &str) -> (r: Result<(), HubError>)
        ensures
            crate::strutil::spec_trim(language@).len() == 0 ==> r == Err::<(), HubError>(
                HubError::InvalidArgument,
            ) && *final(self) == *old(self),
            crate::strutil::spec_trim(language@).len() > 0 ==> r == Ok::<(), HubError>(())
                && final(self).language@ == crate::strutil::spec_trim(language@) && *final(self)
                == (AppConfig { language: final(self).language, ..*old(self) }),
    {
        let trimmed = crate::strutil::trim_str(language);
        if trimmed.as_str().is_empty() {
            return Err(HubError::InvalidArgument);
        }
        self.language = trimmed;
        Ok(())
    }

    /// Records the summary prompt template; a blank one restores the
    /// built-in default.
    pub fn set_summary_prompt_template(&mut self, template: &str)
        ensures
            crate::strutil::spec_trim(template@).len() == 0 ==> final(self).summary_prompt_template@ == default_summary_prompt_template_view(),
            crate::strutil::spec_trim(template@).len() > 0 ==> final(self).summary_prompt_template@
                == crate::strutil::spec_trim(template@),
            *final(self) == (AppConfig {
                summary_prompt_template: final(self).summary_prompt_template,
                ..*old(self)
            }),
    {
        let trimmed = crate::strutil::trim_str(template);
        if trimmed.as_str().is_empty() {
            self.summary_prompt_template = default_summary_prompt_template();
        } else {
            self.summary_prompt_template = trimmed;
        }
    }

    /// Records the summarization API settings.  A blank base URL falls
    /// back to the default endpoint; the stored key changes only when a
    /// non-blank key is supplied or clearing is requested.
    pub fn set_ai_api_settings(
        &mut self,
        base_url: &str,
        model: &str,
        api_key: &str,
        clear_key: Option<bool>,
    )
        ensures
            ({
                let b = crate::strutil::spec_trim_end_slashes(crate::strutil::spec_trim(base_url@));
                &&& final(self).ai_api_base_url@ == (if b.len() == 0 {
                    "https://api.openai.com/v1"@
                } else {
                    b
                })
                &&& final(self).ai_api_model@ == crate::strutil::spec_trim(model@)
                &&& final(self).ai_api_key@ == (if crate::strutil::spec_trim(api_key@).len() > 0
                    || clear_key == Some(true) {
                    crate::strutil::spec_trim(api_key@)
                } else {
                    old(self).ai_api_key@
                })
                &&& *final(self) == (AppConfig {
                    ai_api_base_url: final(self).ai_api_base_url,
                    ai_api_model: final(self).ai_api_model,
                    ai_api_key: final(self).ai_api_key,
                    ..*old(self)
                })
            }),
    {
        let base_trimmed = crate::strutil::trim_str(base_url);
        let base = crate::strutil::trim_end_slashes(base_trimmed.as_str());
        if base.as_str().is_empty() {
            self.ai_api_base_url = "https://api.openai.com/v1".to_owned();
        } else {
            self.ai_api_base_url = base;
        }
        self.ai_api_model = crate::strutil::trim_str(model);
        let key_trimmed = crate::strutil::trim_str(api_key);
        let clear = match clear_key {
            Some(true) => true,
            _ => false,
        };
        if !key_trimmed.as_str().is_empty() || clear {
            self.ai_api_key = key_trimmed;
        }
    }

    /// Records the active project id.
    pub fn set_active_project(&mut self, project_id: String)
        ensures
            final(self).active_project_id == project_id,
            *final(self) == (AppConfig {
                active_project_id: final(self).active_project_id,
                ..*old(self)
            }),
    {
        self.active_project_id = project_id;
    }

    /// A copy safe to hand to the front-end: the API key is blanked so it
    /// never reaches page content.
    pub fn config_without_key(&self) -> (r: AppConfig)
        ensures
            r.ai_api_key@.len() == 0,
            r.sites@ == self.sites@,
            r.site_order@ == self.site_order@,
            r.pinned_site_ids@ == self.pinned_site_ids@,
            r.recent_site_ids@ == self.recent_site_ids@,
            r.theme == self.theme,
            r.sidebar_width == self.sidebar_width,
            r.sidebar_expanded_width == self.sidebar_expanded_width,
            r.language == self.language,
            r.summary_prompt_template == self.summary_prompt_template,
            r.ai_api_base_url == self.ai_api_base_url,
            r.ai_api_model == self.ai_api_model,
            r.active_project_id == self.active_project_id,
    {
        let mut sites: Vec<AiSite> = Vec::new();
        let mut i: usize = 0;
        while i < self.sites.len()
            invariant
                i <= self.sites@.len(),
                sites@.len() == i,
                forall|j: int| 0 <= j < i ==> sites@[j] == self.sites@[j],
            decreases self.sites@.len() - i,
        {
            sites.push(self.sites[i].clone());
            i += 1;
        }
        proof {
            assert(sites@ =~= self.sites@);
        }
        let r = AppConfig {
            sites,
            site_order: clone_string_vec(&self.site_order),
            pinned_site_ids: clone_string_vec(&self.pinned_site_ids),
            recent_site_ids: clone_string_vec(&self.recent_site_ids),
            theme: self.theme.clone(),
            sidebar_width: self.sidebar_width,
            sidebar_expanded_width: self.sidebar_expanded_width,
            language: self.language.clone(),
            summary_prompt_template: self.summary_prompt_template.clone(),
            ai_api_base_url: self.ai_api_base_url.clone(),
            ai_api_model: self.ai_api_model.clone(),
            ai_api_key: String::new(),
            active_project_id: self.active_project_id.clone(),
        };
        r
    }
}

/// An element-wise copy of a vector of strings.
pub fn clone_string_vec(v: &Vec<String>) -> (r: Vec<String>)
    ensures
        r@ == v@,
{
    let mut out: Vec<String> = Vec::new();
    let mut i: usize = 0;
    while i < v.len()
        invariant
            i <= v@.len(),
            out@.len() == i,
            forall|j: int| 0 <= j < i ==> out@[j] == v@[j],
        decreases v@.len() - i,
    {
        out.push(v[i].clone());
        i += 1;
    }
    proof {
        assert(out@ =~= v@);
    }
    out
}

/// The elements of `list` other than `id`, in order.
pub fn filter_out_id(list: &Vec<String>, id: &str) -> (r: Vec<String>)
    ensures
        seq_views(r@) == seq_views(list@).filter(not_eq_pred(id@)),
{
    let ghost full = seq_views(list@);
    let ghost pred = not_eq_pred(id@);
    let mut out: Vec<String> = Vec::new();
    let mut i: usize = 0;
    proof {
        reveal(Seq::filter);
        assert(full.take(0) =~= Seq::<Seq<char>>::empty());
        assert(seq_views(out@) =~= full.take(0).filter(pred));
    }
    while i < list.len()
        invariant
            i <= full.len(),
            full == seq_views(list@),
            pred == not_eq_pred(id@),
            seq_views(out@) == full.take(i as int).filter(pred),
        decreases full.len() - i,
    {
        proof {
            broadcast use vstd::prelude::Seq::lemma_filter_push;

            assert(full.take(i as int + 1) =~= full.take(i as int).push(full[i as int]));
            assert(full[i as int] == list@[i as int]@);
        }
        if !str_eq(list[i].as_str(), id) {
            out.push(list[i].clone());
            proof {
                assert(seq_views(out@) =~= full.take(i as int).filter(pred).push(full[i as int]));
            }
        }
        i += 1;
    }
    proof {
        assert(full.take(full.len() as int) =~= full);
    }
    out
}

/// The ids of `list` that name existing sites, first occurrence of each.
pub fn keep_known_ids(list: &Vec<String>, sites: &Vec<AiSite>) -> (r: Vec<String>)
    ensures
        seq_views(r@) == spec_keep_known(seq_views(list@), sites@, Seq::empty()),
{
    let ghost full = seq_views(list@);
    let mut built: Vec<String> = Vec::new();
    let mut i: usize = 0;
    proof {
        assert(full.skip(0) =~= full);
        assert(seq_views(built@) =~= Seq::<Seq<char>>::empty());
        assert(seq_views(built@) + spec_keep_known(full.skip(0), sites@, seq_views(built@))
            =~= spec_keep_known(full, sites@, Seq::empty()));
    }
    while i < list.len()
        invariant
            i <= full.len(),
            full == seq_views(list@),
            spec_keep_known(full, sites@, Seq::empty()) == seq_views(built@) + spec_keep_known(
                full.skip(i as int),
                sites@,
                seq_views(built@),
            ),
        decreases full.len() - i,
    {
        let ghost b0 = seq_views(built@);
        proof {
            assert(full.skip(i as int)[0] == full[i as int]);
            assert(full.skip(i as int).drop_first() =~= full.skip(i as int + 1));
            assert(full[i as int] == list@[i as int]@);
        }
        let exists_here = site_exists_in(sites, list[i].as_str());
        let dup = vec_has_str(&built, list[i].as_str());
        proof {
            assert(dup == b0.contains(full[i as int])) by {
                if crate::strutil::seq_has_str(built@, full[i as int]) {
                    let j = choose|j: int| 0 <= j < built@.len() && built@[j]@ == full[i as int];
                    assert(b0[j] == full[i as int]);
                }
                if b0.contains(full[i as int]) {
                    let j = choose|j: int| 0 <= j < b0.len() && b0[j] == full[i as int];
                    assert(built@[j]@ == full[i as int]);
                }
            }
        }
        if exists_here && !dup {
            built.push(list[i].clone());
            proof {
                assert(seq_views(built@) =~= b0.push(full[i as int]));
                assert(b0 + (seq![full[i as int]] + spec_keep_known(
                    full.skip(i as int + 1),
                    sites@,
                    b0.push(full[i as int]),
                )) =~= seq_views(built@) + spec_keep_known(
                    full.skip(i as int + 1),
                    sites@,
                    seq_views(built@),
                ));
            }
        }
        i += 1;
    }
    proof {
        assert(full.skip(full.len() as int) =~= Seq::<Seq<char>>::empty());
        assert(seq_views(built@) + Seq::<Seq<char>>::empty() =~= seq_views(built@));
    }
    built
}

/// Whether some site of `sites` has this id.
pub fn site_exists_in(sites: &Vec<AiSite>, site_id: &str) -> (r: bool)
    ensures
        r == is_site(sites@, site_id@),
{
    let mut i: usize = 0;
    while i < sites.len()
        invariant
            i <= sites@.len(),
            forall|j: int| 0 <= j < i ==> sites@[j].id@ != site_id@,
        decreases sites@.len() - i,
    {
        if str_eq(sites[i].id.as_str(), site_id) {
            return true;
        }
        i += 1;
    }
    false
}

/// Appends to `built` every site id not already in it, in site order.
pub fn append_missing_ids(built: &mut Vec<String>, sites: &Vec<AiSite>)
    ensures
        seq_views(final(built)@) == seq_views(old(built)@) + spec_missing_ids(
            sites@,
            seq_views(old(built)@),
        ),
{
    let ghost base = seq_views(old(built)@);
    let mut i: usize = 0;
    proof {
        assert(sites@.skip(0) =~= sites@);
        assert(base + spec_missing_ids(sites@.skip(0), base) =~= base + spec_missing_ids(
            sites@,
            base,
        ));
    }
    while i < sites.len()
        invariant
            i <= sites@.len(),
            base + spec_missing_ids(sites@, base) == seq_views(built@) + spec_missing_ids(
                sites@.skip(i as int),
                seq_views(built@),
            ),
        decreases sites@.len() - i,
    {
        let ghost b0 = seq_views(built@);
        proof {
            assert(sites@.skip(i as int)[0] == sites@[i as int]);
            assert(sites@.skip(i as int).drop_first() =~= sites@.skip(i as int + 1));
        }
        let dup = vec_has_str(built, sites[i].id.as_str());
        proof {
            assert(dup == b0.contains(sites@[i as int].id@)) by {
                if crate::strutil::seq_has_str(built@, sites@[i as int].id@) {
                    let j = choose|j: int|
                        0 <= j < built@.len() && built@[j]@ == sites@[i as int].id@;
                    assert(b0[j] == sites@[i as int].id@);
                }
                if b0.contains(sites@[i as int].id@) {
                    let j = choose|j: int| 0 <= j < b0.len() && b0[j] == sites@[i as int].id@;
                    assert(built@[j]@ == sites@[i as int].id@);
                }
            }
        }
        if !dup {
            built.push(sites[i].id.clone());
            proof {
                assert(seq_views(built@) =~= b0.push(sites@[i as int].id@));
                assert(b0 + (seq![sites@[i as int].id@] + spec_missing_ids(
                    sites@.skip(i as int + 1),
                    b0.push(sites@[i as int].id@),
                )) =~= seq_views(built@) + spec_missing_ids(
                    sites@.skip(i as int + 1),
                    seq_views(built@),
                ));
            }
        }
        i += 1;
    }
    proof {
        assert(sites@.skip(sites@.len() as int) =~= Seq::<AiSite>::empty());
        assert(seq_views(built@) + Seq::<Seq<char>>::empty() =~= seq_views(built@));
    }
}

/// The registry with duplicate ids dropped, first occurrence kept.
pub fn dedup_sites(sites: &Vec<AiSite>) -> (r: Vec<AiSite>)
    ensures
        r@ == spec_first_occurrences(sites@, Seq::empty()),
{
    let mut out: Vec<AiSite> = Vec::new();
    let mut seen: Vec<String> = Vec::new();
    let mut i: usize = 0;
    proof {
        assert(sites@.skip(0) =~= sites@);
        assert(seq_views(seen@) =~= Seq::<Seq<char>>::empty());
        assert(out@ + spec_first_occurrences(sites@.skip(0), seq_views(seen@))
            =~= spec_first_occurrences(sites@, Seq::empty()));
    }
    while i < sites.len()
        invariant
            i <= sites@.len(),
            spec_first_occurrences(sites@, Seq::empty()) == out@ + spec_first_occurrences(
                sites@.skip(i as int),
                seq_views(seen@),
            ),
        decreases sites@.len() - i,
    {
        let ghost s0 = seq_views(seen@);
        proof {
            assert(sites@.skip(i as int)[0] == sites@[i as int]);
            assert(sites@.skip(i as int).drop_first() =~= sites@.skip(i as int + 1));
        }
        let dup = vec_has_str(&seen, sites[i].id.as_str());
        proof {
            assert(dup == s0.contains(sites@[i as int].id@)) by {
                if crate::strutil::seq_has_str(seen@, sites@[i as int].id@) {
                    let j = choose|j: int|
                        0 <= j < seen@.len() && seen@[j]@ == sites@[i as int].id@;
                    assert(s0[j] == sites@[i as int].id@);
                }
                if s0.contains(sites@[i as int].id@) {
                    let j = choose|j: int| 0 <= j < s0.len() && s0[j] == sites@[i as int].id@;
                    assert(seen@[j]@ == sites@[i as int].id@);
                }
            }
        }
        if !dup {
            let ghost o0 = out@;
            out.push(sites[i].clone());
            seen.push(sites[i].id.clone());
            proof {
                assert(seq_views(seen@) =~= s0.push(sites@[i as int].id@));
                assert(o0 + (seq![sites@[i as int]] + spec_first_occurrences(
                    sites@.skip(i as int + 1),
                    s0.push(sites@[i as int].id@),
                )) =~= out@ + spec_first_occurrences(
                    sites@.skip(i as int + 1),
                    seq_views(seen@),
                ));
            }
        }
        i += 1;
    }
    proof {
        assert(sites@.skip(sites@.len() as int) =~= Seq::<AiSite>::empty());
        assert(out@ + Seq::<AiSite>::empty() =~= out@);
    }
    out
}

impl AppConfig {
    /// Every site, listed in display order first, then the remaining
    /// registry entries.
    pub fn get_ai_sites(&self) -> (r: Vec<AiSite>)
        ensures
            r@ == spec_get_ai_sites(seq_views(self.site_order@), self.sites@),
    {
        let ghost orderv = seq_views(self.site_order@);
        let ghost sitesv = self.sites@;
        let mut out: Vec<AiSite> = Vec::new();
        let mut seen: Vec<String> = Vec::new();
        let mut i: usize = 0;
        proof {
            assert(orderv.skip(0) =~= orderv);
            assert(seq_views(seen@) =~= Seq::<Seq<char>>::empty());
            assert(spec_listed_sites(orderv, sitesv, Seq::empty()) == spec_listed_sites(
                orderv.skip(0),
                sitesv,
                seq_views(seen@),
            ));
        }
        while i < self.site_order.len()
            invariant
                i <= orderv.len(),
                orderv == seq_views(self.site_order@),
                sitesv == self.sites@,
                spec_listed_sites(orderv, sitesv, Seq::empty()).0 == out@ + spec_listed_sites(
                    orderv.skip(i as int),
                    sitesv,
                    seq_views(seen@),
                ).0,
                spec_listed_sites(orderv, sitesv, Seq::empty()).1 == spec_listed_sites(
                    orderv.skip(i as int),
                    sitesv,
                    seq_views(seen@),
                ).1,
            decreases orderv.len() - i,
        {
            let ghost s0 = seq_views(seen@);
            proof {
                assert(orderv.skip(i as int)[0] == orderv[i as int]);
                assert(orderv.skip(i as int).drop_first() =~= orderv.skip(i as int + 1));
                assert(orderv[i as int] == self.site_order@[i as int]@);
            }
            let dup = vec_has_str(&seen, self.site_order[i].as_str());
            proof {
                assert(dup == s0.contains(orderv[i as int])) by {
                    if crate::strutil::seq_has_str(seen@, orderv[i as int]) {
                        let j = choose|j: int|
                            0 <= j < seen@.len() && seen@[j]@ == orderv[i as int];
                        assert(s0[j] == orderv[i as int]);
                    }
                    if s0.contains(orderv[i as int]) {
                        let j = choose|j: int| 0 <= j < s0.len() && s0[j] == orderv[i as int];
                        assert(seen@[j]@ == orderv[i as int]);
                    }
                }
            }
            if !dup {
                seen.push(self.site_order[i].clone());
                proof {
                    assert(seq_views(seen@) =~= s0.push(orderv[i as int]));
                }
                let ghost o0 = out@;
                match self.get_site_by_id(self.site_order[i].as_str()) {
                    Ok(site) => {
                        out.push(site);
                        proof {
                            assert(o0 + (seq![site_of(sitesv, orderv[i as int])]
                                + spec_listed_sites(
                                orderv.skip(i as int + 1),
                                sitesv,
                                seq_views(seen@),
                            ).0) =~= out@ + spec_listed_sites(
                                orderv.skip(i as int + 1),
                                sitesv,
                                seq_views(seen@),
                            ).0);
                        }
                    },
                    Err(_) => {},
                }
            }
            i += 1;
        }
        proof {
            assert(orderv.skip(orderv.len() as int) =~= Seq::<Seq<char>>::empty());
        }
        let ghost l = spec_listed_sites(orderv, sitesv, Seq::empty());
        let mut i: usize = 0;
        proof {
            assert(sitesv.skip(0) =~= sitesv);
        }
        while i < self.sites.len()
            invariant
                i <= sitesv.len(),
                sitesv == self.sites@,
                l == spec_listed_sites(orderv, sitesv, Seq::empty()),
                l.0 + spec_first_occurrences(sitesv, l.1) == out@ + spec_first_occurrences(
                    sitesv.skip(i as int),
                    seq_views(seen@),
                ),
            decreases sitesv.len() - i,
        {
            let ghost s0 = seq_views(seen@);
            proof {
                assert(sitesv.skip(i as int)[0] == sitesv[i as int]);
                assert(sitesv.skip(i as int).drop_first() =~= sitesv.skip(i as int + 1));
            }
            let dup = vec_has_str(&seen, self.sites[i].id.as_str());
            proof {
                assert(dup == s0.contains(sitesv[i as int].id@)) by {
                    if crate::strutil::seq_has_str(seen@, sitesv[i as int].id@) {
                        let j = choose|j: int|
                            0 <= j < seen@.len() && seen@[j]@ == sitesv[i as int].id@;
                        assert(s0[j] == sitesv[i as int].id@);
                    }
                    if s0.contains(sitesv[i as int].id@) {
                        let j = choose|j: int| 0 <= j < s0.len() && s0[j] == sitesv[i as int].id@;
                        assert(seen@[j]@ == sitesv[i as int].id@);
                    }
                }
            }
            if !dup {
                let ghost o0 = out@;
                out.push(self.sites[i].clone());
                seen.push(self.sites[i].id.clone());
                proof {
                    assert(seq_views(seen@) =~= s0.push(sitesv[i as int].id@));
                    assert(o0 + (seq![sitesv[i as int]] + spec_first_occurrences(
                        sitesv.skip(i as int + 1),
                        s0.push(sitesv[i as int].id@),
                    )) =~= out@ + spec_first_occurrences(
                        sitesv.skip(i as int + 1),
                        seq_views(seen@),
                    ));
                }
            }
            i += 1;
        }
        proof {
            assert(sitesv.skip(sitesv.len() as int) =~= Seq::<AiSite>::empty());
            assert(out@ + Seq::<AiSite>::empty() =~= out@);
        }
        out
    }

    /// Repairs a freshly loaded configuration: duplicate sites dropped,
    /// missing built-ins restored, the order and the pinned and recent
    /// lists sanitized, the expanded sidebar width migrated, and a blank
    /// API base URL replaced by the default endpoint.
    pub fn normalize_config(&mut self, builtins: &Vec<AiSite>)
        ensures
            ({
                let ded = spec_first_occurrences(old(self).sites@, Seq::empty());
                let eb = spec_ensure_builtins(ded, seq_views(old(self).site_order@), builtins@);
                &&& final(self).sites@ == eb.0
                &&& seq_views(final(self).site_order@) == spec_sanitized_order(eb.1, eb.0)
                &&& seq_views(final(self).pinned_site_ids@) == spec_keep_known(
                    seq_views(old(self).pinned_site_ids@),
                    eb.0,
                    Seq::empty(),
                )
                &&& seq_views(final(self).recent_site_ids@) == spec_keep_known(
                    seq_views(old(self).recent_site_ids@),
                    eb.0,
                    Seq::empty(),
                )
                &&& final(self).sidebar_width == old(self).sidebar_width
                &&& final(self).sidebar_expanded_width == (if old(self).sidebar_width > 64 && old(
                    self,
                ).sidebar_expanded_width <= 64 {
                    old(self).sidebar_width
                } else {
                    old(self).sidebar_expanded_width
                })
                &&& final(self).ai_api_base_url@ == (if crate::strutil::spec_trim(
                    old(self).ai_api_base_url@,
                ).len() == 0 {
                    "https://api.openai.com/v1"@
                } else {
                    old(self).ai_api_base_url@
                })
                &&& final(self).theme == old(self).theme
                &&& final(self).language == old(self).language
                &&& final(self).summary_prompt_template == old(self).summary_prompt_template
                &&& final(self).ai_api_model == old(self).ai_api_model
                &&& final(self).ai_api_key == old(self).ai_api_key
                &&& final(self).active_project_id == old(self).active_project_id
            }),
    {
        self.sites = dedup_sites(&self.sites);
        let mut i: usize = 0;
        proof {
            assert(builtins@.skip(0) =~= builtins@);
        }
        while i < builtins.len()
            invariant
                i <= builtins@.len(),
                spec_ensure_builtins(
                    spec_first_occurrences(old(self).sites@, Seq::empty()),
                    seq_views(old(self).site_order@),
                    builtins@,
                ) == spec_ensure_builtins(
                    self.sites@,
                    seq_views(self.site_order@),
                    builtins@.skip(i as int),
                ),
                *self == (AppConfig {
                    sites: self.sites,
                    site_order: self.site_order,
                    ..*old(self)
                }),
            decreases builtins@.len() - i,
        {
            proof {
                assert(builtins@.skip(i as int)[0] == builtins@[i as int]);
                assert(builtins@.skip(i as int).drop_first() =~= builtins@.skip(i as int + 1));
            }
            if !self.site_exists(builtins[i].id.as_str()) {
                let ghost s0 = self.sites@;
                let ghost o0 = seq_views(self.site_order@);
                self.sites.push(builtins[i].clone());
                self.site_order.push(builtins[i].id.clone());
                proof {
                    assert(self.sites@ =~= s0.push(builtins@[i as int]));
                    assert(seq_views(self.site_order@) =~= o0.push(builtins@[i as int].id@));
                }
            }
            i += 1;
        }
        proof {
            assert(builtins@.skip(builtins@.len() as int) =~= Seq::<AiSite>::empty());
        }
        let order_now = clone_string_vec(&self.site_order);
        self.update_sites_order(order_now);
        if self.sidebar_width > 64 && self.sidebar_expanded_width <= 64 {
            self.sidebar_expanded_width = self.sidebar_width;
        }
        let base_trimmed = crate::strutil::trim_str(self.ai_api_base_url.as_str());
        if base_trimmed.as_str().is_empty() {
            self.ai_api_base_url = "https://api.openai.com/v1".to_owned();
        }
        self.pinned_site_ids = keep_known_ids(&self.pinned_site_ids, &self.sites);
        self.recent_site_ids = keep_known_ids(&self.recent_site_ids, &self.sites);
    }

    /// Resets the navigation data: duplicate sites dropped, pinning and
    /// recency cleared, and the order rebuilt from the built-in order with
    /// the remaining sites appended.
    pub fn reset_navigation(&mut self, builtins: &Vec<AiSite>)
        ensures
            final(self).sites@ == spec_first_occurrences(old(self).sites@, Seq::empty()),
            final(self).pinned_site_ids@.len() == 0,
            final(self).recent_site_ids@.len() == 0,
            seq_views(final(self).site_order@) == spec_sanitized_order(
                spec_site_ids(builtins@),
                final(self).sites@,
            ),
            *final(self) == (AppConfig {
                sites: final(self).sites,
                site_order: final(self).site_order,
                pinned_site_ids: final(self).pinned_site_ids,
                recent_site_ids: final(self).recent_site_ids,
                ..*old(self)
            }),
    {
        self.sites = dedup_sites(&self.sites);
        self.pinned_site_ids = Vec::new();
        self.recent_site_ids = Vec::new();
        let mut builtin_ids: Vec<String> = Vec::new();
        let mut i: usize = 0;
        while i < builtins.len()
            invariant
                i <= builtins@.len(),
                builtin_ids@.len() == i,
                forall|j: int| 0 <= j < i ==> builtin_ids@[j]@ == builtins@[j].id@,
            decreases builtins@.len() - i,
        {
            builtin_ids.push(builtins[i].id.clone());
            i += 1;
        }
        proof {
            assert(seq_views(builtin_ids@) =~= spec_site_ids(builtins@));
        }
        let mut next = keep_known_ids(&builtin_ids, &self.sites);
        append_missing_ids(&mut next, &self.sites);
        self.site_order = next;
    }

    /// Registers a custom site under the given id and appends it to the
    /// display order.
    pub fn add_site_entry(&mut self, name: String, url: String, icon: String, id: &str) -> (r:
        AiSite)
        ensures
            r.id@ == id@,
            r.name == name,
            r.url == url,
            r.icon == icon,
            !r.builtin,
            r.summary_prompt_override@.len() == 0,
            final(self).sites@ == old(self).sites@.push(r),
            seq_views(final(self).site_order@) == seq_views(old(self).site_order@).push(id@),
            *final(self) == (AppConfig {
                sites: final(self).sites,
                site_order: final(self).site_order,
                ..*old(self)
            }),
    {
        let mut owned = String::new();
        owned.append(id);
        let site = AiSite {
            id: owned,
            name,
            url,
            icon,
            builtin: false,
            summary_prompt_override: String::new(),
        };
        let r = site.clone();
        self.sites.push(site);
        self.site_order.push(r.id.clone());
        proof {
            assert(seq_views(final(self).site_order@) =~= seq_views(
                old(self).site_order@,
            ).push(id@));
        }
        r
    }

    /// Registers a custom site under a fresh random id.
    pub fn add_site(&mut self, name: String, url: String, icon: String) -> (r: AiSite)
        ensures
            (exists|sfx: Seq<char>| r.id@ == "custom_"@ + sfx),
            r.name == name,
            r.url == url,
            r.icon == icon,
            !r.builtin,
            final(self).sites@ == old(self).sites@.push(r),
            seq_views(final(self).site_order@) == seq_views(old(self).site_order@).push(r.id@),
            *final(self) == (AppConfig {
                sites: final(self).sites,
                site_order: final(self).site_order,
                ..*old(self)
            }),
    {
        let suffix = crate::ids::fresh_short_suffix();
        let id = crate::ids::make_custom_site_id(suffix.as_str());
        let r = self.add_site_entry(name, url, icon, id.as_str());
        proof {
            assert(r.id@ == "custom_"@ + suffix@);
        }
        r
    }
}

} // verus!
