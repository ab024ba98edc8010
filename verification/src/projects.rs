//! The project/notes model: the list of project contexts a summarize
//! writes into, and the exact list manipulations of the project commands.
//! Loading and saving the list is a collaborator's job.

use vstd::prelude::*;
use crate::errors::HubError;
use crate::ids::fresh_short_suffix;
use crate::ids::make_project_id;
use crate::ids::now_ts;
use crate::sites::AppConfig;
use crate::strutil::spec_trim;
use crate::strutil::str_eq;
use crate::strutil::trim_str;

verus! {

/// One project: notes, the latest summary, and timestamps.
#[derive(Debug, PartialEq, Eq)]
pub struct ProjectContext {
    pub id: String,
    pub title: String,
    pub notes: String,
    pub summary: String,
    pub created_at: u64,
    pub updated_at: u64,
}

impl Clone for ProjectContext {
    fn clone(&self) -> (r: Self)
        ensures
            r == *self,
    {
        ProjectContext {
            id: self.id.clone(),
            title: self.title.clone(),
            notes: self.notes.clone(),
            summary: self.summary.clone(),
            created_at: self.created_at,
            updated_at: self.updated_at,
        }
    }
}

/// The listing row of a project.
#[derive(Debug)]
pub struct ProjectSummary {
    pub id: String,
    pub title: String,
    pub updated_at: u64,
}

/// What a listing row carries, as plain values.
pub open spec fn sum_entry(s: ProjectSummary) -> (Seq<char>, Seq<char>, u64) {
    (s.id@, s.title@, s.updated_at)
}

/// The listing row a project maps to, as plain values.
pub open spec fn proj_entry(p: ProjectContext) -> (Seq<char>, Seq<char>, u64) {
    (p.id@, p.title@, p.updated_at)
}

/// Whether some project has this id.
pub open spec fn has_project(ps: Seq<ProjectContext>, id: Seq<char>) -> bool {
    exists|i: int| 0 <= i < ps.len() && ps[i].id@ == id
}

/// The first index whose project has id `id`.
pub open spec fn first_project_idx(ps: Seq<ProjectContext>, id: Seq<char>) -> int
    decreases ps.len(),
{
    if ps.len() == 0 {
        0
    } else if ps[0].id@ == id {
        0
    } else {
        1 + first_project_idx(ps.drop_first(), id)
    }
}

/// `first_project_idx` indeed finds the first match.
pub proof fn lemma_first_project_idx(ps: Seq<ProjectContext>, id: Seq<char>)
    requires
        has_project(ps, id),
    ensures
        0 <= first_project_idx(ps, id) < ps.len(),
        ps[first_project_idx(ps, id)].id@ == id,
        forall|j: int| 0 <= j < first_project_idx(ps, id) ==> ps[j].id@ != id,
    decreases ps.len(),
{
    if ps.len() > 0 && ps[0].id@ != id {
        assert(has_project(ps.drop_first(), id)) by {
            let i = choose|i: int| 0 <= i < ps.len() && ps[i].id@ == id;
            assert(ps.drop_first()[i - 1].id@ == id);
        }
        lemma_first_project_idx(ps.drop_first(), id);
        assert(forall|j: int|
            1 <= j < first_project_idx(ps, id) ==> ps[j] == ps.drop_first()[j - 1]);
    }
}

/// Rows are sorted by `updated_at`, newest first.
pub open spec fn sorted_desc(s: Seq<ProjectSummary>) -> bool {
    forall|i: int, j: int|
        #![trigger s[i], s[j]]
        0 <= i < j < s.len() ==> s[i].updated_at >= s[j].updated_at
}

/// The first position whose row is strictly older than `key`.
fn insertion_point_desc(v: &Vec<ProjectSummary>, key: u64) -> (idx: usize)
    ensures
        idx <= v@.len(),
        forall|j: int| 0 <= j < idx ==> v@[j].updated_at >= key,
        idx < v@.len() ==> v@[idx as int].updated_at < key,
{
    let mut idx: usize = 0;
    while idx < v.len() && v[idx].updated_at >= key
        invariant
            idx <= v@.len(),
            forall|j: int| 0 <= j < idx ==> v@[j].updated_at >= key,
        decreases v@.len() - idx,
    {
        idx += 1;
    }
    idx
}

/// Inserts a row into a newest-first list, keeping it sorted and adding
/// exactly that row to the contents.
fn sorted_insert_desc(v: &mut Vec<ProjectSummary>, x: ProjectSummary)
    requires
        sorted_desc(old(v)@),
    ensures
        sorted_desc(final(v)@),
        final(v)@.len() == old(v)@.len() + 1,
        final(v)@.map_values(|s: ProjectSummary| sum_entry(s)).to_multiset() == old(v)@.map_values(|s: ProjectSummary| sum_entry(s)).to_multiset().insert(sum_entry(x)),
{
    let ghost v0 = old(v)@;
    let ghost xe = sum_entry(x);
    let idx = insertion_point_desc(v, x.updated_at);
    v.insert(idx, x);
    proof {
        let v1 = v@;
        assert forall|a: int, b: int|
            #![trigger v1[a], v1[b]]
            0 <= a < b < v1.len() implies v1[a].updated_at >= v1[b].updated_at by {
            if a < idx && b > idx {
                assert(v1[a] == v0[a] && v1[b] == v0[b - 1]);
            } else if a == idx && b > idx {
                assert(v1[b] == v0[b - 1]);
                assert(v0[idx as int].updated_at < x.updated_at);
            } else if a < idx && b == idx {
                assert(v1[a] == v0[a]);
            }
        }
        let m1 = v1.map_values(|s: ProjectSummary| sum_entry(s));
        let m0 = v0.map_values(|s: ProjectSummary| sum_entry(s));
        m1.to_multiset_ensures();
        m0.to_multiset_ensures();
        assert(m1.remove(idx as int) =~= m0);
        assert(m1.remove(idx as int).to_multiset() =~= m1.to_multiset().remove(
            m1[idx as int],
        ));
        assert(m1[idx as int] == xe);
        assert(m1.to_multiset().contains(xe)) by {
            assert(m1.to_multiset().count(xe) > 0);
        }
        assert(m1.to_multiset() =~= m0.to_multiset().insert(xe));
    }
}

/// Every project as a listing row, newest first.
pub fn list_projects(projects: &Vec<ProjectContext>) -> (r: Vec<ProjectSummary>)
    ensures
        sorted_desc(r@),
        r@.len() == projects@.len(),
        r@.map_values(|s: ProjectSummary| sum_entry(s)).to_multiset() == projects@.map_values(
            |p: ProjectContext| proj_entry(p),
        ).to_multiset(),
{
    let ghost ps = projects@;
    let mut out: Vec<ProjectSummary> = Vec::new();
    let mut i: usize = 0;
    proof {
        broadcast use vstd::prelude::Seq::to_multiset_ensures;

        assert(ps.take(0) =~= Seq::<ProjectContext>::empty());
        assert(out@.map_values(|s: ProjectSummary| sum_entry(s)) =~= Seq::<
            (Seq<char>, Seq<char>, u64),
        >::empty());
        assert(ps.take(0).map_values(|p: ProjectContext| proj_entry(p)) =~= Seq::<
            (Seq<char>, Seq<char>, u64),
        >::empty());
    }
    while i < projects.len()
        invariant
            i <= ps.len(),
            ps == projects@,
            sorted_desc(out@),
            out@.len() == i,
            out@.map_values(|s: ProjectSummary| sum_entry(s)).to_multiset() == ps.take(
                i as int,
            ).map_values(|p: ProjectContext| proj_entry(p)).to_multiset(),
        decreases ps.len() - i,
    {
        let p = &projects[i];
        let row = ProjectSummary {
            id: p.id.clone(),
            title: p.title.clone(),
            updated_at: p.updated_at,
        };
        proof {
            assert(sum_entry(row) == proj_entry(ps[i as int]));
        }
        sorted_insert_desc(&mut out, row);
        proof {
            let t1 = ps.take(i as int + 1);
            assert(t1 =~= ps.take(i as int).push(ps[i as int]));
            let mt1 = t1.map_values(|p: ProjectContext| proj_entry(p));
            let mt0 = ps.take(i as int).map_values(|p: ProjectContext| proj_entry(p));
            mt0.to_multiset_ensures();
            assert(mt1 =~= mt0.push(proj_entry(ps[i as int])));
            assert(mt1.to_multiset() =~= mt0.to_multiset().insert(proj_entry(ps[i as int])));
        }
        i += 1;
    }
    proof {
        assert(ps.take(ps.len() as int) =~= ps);
    }
    out
}

/// The first project with this id, or `NotFound`.
pub fn get_project(projects: &Vec<ProjectContext>, project_id: &str) -> (r: Result<
    ProjectContext,
    HubError,
>)
    ensures
        r is Ok <==> has_project(projects@, project_id@),
        r matches Ok(p) ==> p == projects@[first_project_idx(projects@, project_id@)] && p.id@
            == project_id@,
        r matches Err(e) ==> e == HubError::NotFound,
{
    let mut i: usize = 0;
    while i < projects.len()
        invariant
            i <= projects@.len(),
            forall|j: int| 0 <= j < i ==> projects@[j].id@ != project_id@,
        decreases projects@.len() - i,
    {
        if str_eq(projects[i].id.as_str(), project_id) {
            proof {
                lemma_first_project_idx(projects@, project_id@);
                assert(first_project_idx(projects@, project_id@) == i as int) by {
                    let f = first_project_idx(projects@, project_id@);
                    assert(f <= i as int);
                    assert(i as int <= f);
                }
            }
            return Ok(projects[i].clone());
        }
        i += 1;
    }
    Err(HubError::NotFound)
}

/// Appends a project with the given id and timestamp; a blank title
/// becomes the default title.
pub fn create_project_entry(projects: &mut Vec<ProjectContext>, title: &str, id: &str, ts: u64)
    ensures
        final(projects)@.len() == old(projects)@.len() + 1,
        final(projects)@.take(old(projects)@.len() as int) == old(projects)@,
        ({
            let p = final(projects)@.last();
            &&& p.id@ == id@
            &&& p.title@ == (if spec_trim(title@).len() == 0 {
                "默认项目"@
            } else {
                spec_trim(title@)
            })
            &&& p.notes@.len() == 0
            &&& p.summary@.len() == 0
            &&& p.created_at == ts
            &&& p.updated_at == ts
        }),
{
    let trimmed = trim_str(title);
    let chosen = if trimmed.as_str().is_empty() {
        "默认项目".to_owned()
    } else {
        trimmed
    };
    let mut owned_id = String::new();
    owned_id.append(id);
    projects.push(
        ProjectContext {
            id: owned_id,
            title: chosen,
            notes: String::new(),
            summary: String::new(),
            created_at: ts,
            updated_at: ts,
        },
    );
    proof {
        assert(final(projects)@.take(old(projects)@.len() as int) =~= old(projects)@);
    }
}

/// Creates a project with a fresh random id and the current time and
/// returns the id.
pub fn create_project(projects: &mut Vec<ProjectContext>, title: &str) -> (r: String)
    ensures
        (exists|sfx: Seq<char>| r@ == "proj_"@ + sfx),
        final(projects)@.len() == old(projects)@.len() + 1,
        final(projects)@.take(old(projects)@.len() as int) == old(projects)@,
        ({
            let p = final(projects)@.last();
            &&& p.id@ == r@
            &&& p.title@ == (if spec_trim(title@).len() == 0 {
                "默认项目"@
            } else {
                spec_trim(title@)
            })
            &&& p.notes@.len() == 0
            &&& p.summary@.len() == 0
            &&& p.created_at == p.updated_at
        }),
{
    let suffix = fresh_short_suffix();
    let id = make_project_id(suffix.as_str());
    let ts = now_ts();
    create_project_entry(projects, title, id.as_str(), ts);
    id
}

/// Updates the first project with this id: a blank title keeps the old
/// one, notes and summary are replaced, and the update time is recorded.
pub fn update_project(
    projects: &mut Vec<ProjectContext>,
    project_id: &str,
    title: &str,
    notes: String,
    summary: String,
    ts: u64,
) -> (r: Result<(), HubError>)
    ensures
        !has_project(old(projects)@, project_id@) ==> r == Err::<(), HubError>(HubError::NotFound)
            && final(projects)@ == old(projects)@,
        has_project(old(projects)@, project_id@) ==> r == Ok::<(), HubError>(()) && ({
            let fidx = first_project_idx(old(projects)@, project_id@);
            let p = final(projects)@[fidx];
            let q = old(projects)@[fidx];
            &&& final(projects)@.len() == old(projects)@.len()
            &&& (forall|j: int|
                0 <= j < old(projects)@.len() && j != fidx ==> final(projects)@[j] == old(projects)@[j])
            &&& p.id == q.id
            &&& p.title@ == (if spec_trim(title@).len() == 0 {
                q.title@
            } else {
                spec_trim(title@)
            })
            &&& p.notes@ == notes@
            &&& p.summary@ == summary@
            &&& p.created_at == q.created_at
            &&& p.updated_at == ts
        }),
{
    let mut i: usize = 0;
    while i < projects.len()
        invariant
            i <= projects@.len(),
            projects@ == old(projects)@,
            forall|j: int| 0 <= j < i ==> projects@[j].id@ != project_id@,
        decreases projects@.len() - i,
    {
        if str_eq(projects[i].id.as_str(), project_id) {
            proof {
                lemma_first_project_idx(projects@, project_id@);
                assert(first_project_idx(projects@, project_id@) == i as int) by {
                    let f = first_project_idx(projects@, project_id@);
                    assert(f <= i as int);
                    assert(i as int <= f);
                }
            }
            let q = projects.remove(i);
            let trimmed = trim_str(title);
            let new_title = if trimmed.as_str().is_empty() {
                q.title
            } else {
                trimmed
            };
            let updated = ProjectContext {
                id: q.id,
                title: new_title,
                notes,
                summary,
                created_at: q.created_at,
                updated_at: ts,
            };
            projects.insert(i, updated);
            return Ok(());
        }
        i += 1;
    }
    Err(HubError::NotFound)
}

/// The predicate "keeps a project whose id differs from `id`".
pub open spec fn keep_other_pred(id: Seq<char>) -> spec_fn(ProjectContext) -> bool {
    |p: ProjectContext| p.id@ != id
}

/// Deletes every project with this id; `NotFound` when none matches.
pub fn delete_project(projects: &mut Vec<ProjectContext>, project_id: &str) -> (r: Result<
    (),
    HubError,
>)
    ensures
        !has_project(old(projects)@, project_id@) ==> r == Err::<(), HubError>(HubError::NotFound)
            && final(projects)@ == old(projects)@,
        has_project(old(projects)@, project_id@) ==> r == Ok::<(), HubError>(()) && final(projects)@ == old(projects)@.filter(keep_other_pred(project_id@)),
{
    let ghost ps = old(projects)@;
    let ghost pred = keep_other_pred(project_id@);
    let mut kept: Vec<ProjectContext> = Vec::new();
    let mut found = false;
    let mut i: usize = 0;
    proof {
        reveal(Seq::filter);
        assert(ps.take(0) =~= Seq::<ProjectContext>::empty());
        assert(kept@ =~= ps.take(0).filter(pred));
    }
    while i < projects.len()
        invariant
            i <= ps.len(),
            ps == projects@,
            pred == keep_other_pred(project_id@),
            kept@ == ps.take(i as int).filter(pred),
            found <==> exists|j: int| 0 <= j < i && (#[trigger] ps[j]).id@ == project_id@,
        decreases ps.len() - i,
    {
        proof {
            broadcast use vstd::prelude::Seq::lemma_filter_push;

            assert(ps.take(i as int + 1) =~= ps.take(i as int).push(ps[i as int]));
        }
        if str_eq(projects[i].id.as_str(), project_id) {
            found = true;
            proof {
                assert(ps[i as int].id@ == project_id@);
            }
        } else {
            kept.push(projects[i].clone());
        }
        i += 1;
    }
    proof {
        assert(ps.take(ps.len() as int) =~= ps);
        if found {
            let j = choose|j: int| 0 <= j < ps.len() && (#[trigger] ps[j]).id@ == project_id@;
            assert(has_project(ps, project_id@));
        } else {
            assert(!has_project(ps, project_id@)) by {
                if has_project(ps, project_id@) {
                    let j = choose|j: int| 0 <= j < ps.len() && ps[j].id@ == project_id@;
                    assert((#[trigger] ps[j]).id@ == project_id@);
                }
            }
        }
    }
    if !found {
        return Err(HubError::NotFound);
    }
    *projects = kept;
    Ok(())
}

/// The active project id, establishing one if none is set: a blank id
/// falls back to the first project, and with no projects at all a default
/// project is created with a fresh id.
pub fn ensure_active_project_id(config: &mut AppConfig, projects: &mut Vec<ProjectContext>) -> (r:
    String)
    ensures
        spec_trim(old(config).active_project_id@).len() > 0 ==> r@ == old(config).active_project_id@ && *final(config) == *old(config) && final(projects)@ == old(projects)@,
        spec_trim(old(config).active_project_id@).len() == 0 && old(projects)@.len() > 0 ==> r@
            == old(projects)@[0].id@ && final(config).active_project_id@ == r@ && *final(config)
            == (AppConfig { active_project_id: final(config).active_project_id, ..*old(config) })
            && final(projects)@ == old(projects)@,
        spec_trim(old(config).active_project_id@).len() == 0 && old(projects)@.len() == 0 ==> final(projects)@.len() == 1 && ({
            let p = final(projects)@[0];
            &&& p.id@ == r@
            &&& p.title@ == "默认项目"@
            &&& p.notes@.len() == 0
            &&& p.summary@.len() == 0
            &&& p.created_at == p.updated_at
        }) && final(config).active_project_id@ == r@ && *final(config) == (AppConfig {
            active_project_id: final(config).active_project_id,
            ..*old(config)
        }),
{
    let trimmed = trim_str(config.active_project_id.as_str());
    if !trimmed.as_str().is_empty() {
        return config.active_project_id.clone();
    }
    if projects.len() > 0 {
        let id = projects[0].id.clone();
        config.active_project_id = id.clone();
        return id;
    }
    let id = create_project(projects, "");
    proof {
        reveal_strlit("");
        assert(spec_trim(""@).len() == 0);
        assert(final(projects)@[0] == final(projects)@.last());
    }
    config.active_project_id = id.clone();
    id
}

/// Writes an extraction's text and its summary into the project, creating
/// the project if it vanished: then the notes start empty and only the
/// summary is recorded, as a fresh default project.
pub fn save_summary_to_project(
    projects: &mut Vec<ProjectContext>,
    project_id: &str,
    notes_text: &str,
    summary_text: &str,
    ts: u64,
)
    ensures
        has_project(old(projects)@, project_id@) ==> ({
            let fidx = first_project_idx(old(projects)@, project_id@);
            let p = final(projects)@[fidx];
            let q = old(projects)@[fidx];
            &&& final(projects)@.len() == old(projects)@.len()
            &&& (forall|j: int|
                0 <= j < old(projects)@.len() && j != fidx ==> final(projects)@[j] == old(projects)@[j])
            &&& p.id == q.id
            &&& p.title == q.title
            &&& p.notes@ == notes_text@
            &&& p.summary@ == summary_text@
            &&& p.created_at == q.created_at
            &&& p.updated_at == ts
        }),
        !has_project(old(projects)@, project_id@) ==> final(projects)@.len() == old(projects)@.len() + 1 && final(projects)@.take(old(projects)@.len() as int) == old(projects)@ && ({
            let p = final(projects)@.last();
            &&& p.id@ == project_id@
            &&& p.title@ == "默认项目"@
            &&& p.notes@.len() == 0
            &&& p.summary@ == summary_text@
            &&& p.created_at == ts
            &&& p.updated_at == ts
        }),
{
    let mut i: usize = 0;
    while i < projects.len()
        invariant
            i <= projects@.len(),
            projects@ == old(projects)@,
            forall|j: int| 0 <= j < i ==> projects@[j].id@ != project_id@,
        decreases projects@.len() - i,
    {
        if str_eq(projects[i].id.as_str(), project_id) {
            proof {
                lemma_first_project_idx(projects@, project_id@);
                assert(first_project_idx(projects@, project_id@) == i as int) by {
                    let f = first_project_idx(projects@, project_id@);
                    assert(f <= i as int);
                    assert(i as int <= f);
                }
            }
            let q = projects.remove(i);
            let mut notes = String::new();
            notes.append(notes_text);
            let mut summary = String::new();
            summary.append(summary_text);
            let updated = ProjectContext {
                id: q.id,
                title: q.title,
                notes,
                summary,
                created_at: q.created_at,
                updated_at: ts,
            };
            projects.insert(i, updated);
            return;
        }
        i += 1;
    }
    let mut owned_id = String::new();
    owned_id.append(project_id);
    let mut summary = String::new();
    summary.append(summary_text);
    projects.push(
        ProjectContext {
            id: owned_id,
            title: "默认项目".to_owned(),
            notes: String::new(),
            summary,
            created_at: ts,
            updated_at: ts,
        },
    );
    proof {
        assert(final(projects)@.take(old(projects)@.len() as int) =~= old(projects)@);
    }
}

} // verus!
