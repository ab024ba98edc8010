//! Identifier construction: webview labels, auxiliary tab ids, project and
//! custom-site ids, and the two host facts they need (a fresh random UUID
//! and the current time).

use vstd::prelude::*;
use crate::strutil::concat2;
use crate::strutil::concat3;

verus! {

/// Relies on `uuid::Uuid::new_v4` and its `Display` impl: a fresh random
/// UUID rendered in the 36-character hyphenated form.  The value is random,
/// so nothing beyond its length is promised.
#[verifier::external_body]
pub fn new_uuid_string() -> (r: String)
    ensures
        r@.len() == 36,
{
    uuid::Uuid::new_v4().to_string()
}

/// Relies on `std::time::SystemTime::now`: seconds since the Unix epoch
/// (0 if the clock reads before it).  The value depends on the clock, so
/// nothing is promised about it.
#[verifier::external_body]
pub fn now_ts() -> u64 {
    std::time::SystemTime::now()
        .duration_since(std::time::UNIX_EPOCH)
        .unwrap_or_default()
        .as_secs()
}

/// The prefix of `s` before its first `'-'`, or all of `s` if it has none.
pub fn prefix_before_dash(s: &str) -> (r: String)
    ensures
        exists|k: int|
            0 <= k <= s@.len() && r@ == s@.subrange(0, k) && (k == s@.len() || s@[k] == '-')
                && (forall|j: int| 0 <= j < k ==> s@[j] != '-'),
{
    let n = s.unicode_len();
    let mut i: usize = 0;
    while i < n && s.get_char(i) != '-'
        invariant
            i <= n,
            n == s@.len(),
            forall|j: int| 0 <= j < i ==> s@[j] != '-',
        decreases n - i,
    {
        i += 1;
    }
    let sub = s.substring_char(0, i);
    let r = sub.to_owned();
    proof {
        assert(0 <= i as int <= s@.len() && r@ == s@.subrange(0, i as int) && (i as int
            == s@.len() || s@[i as int] == '-') && (forall|j: int|
            0 <= j < i as int ==> s@[j] != '-'));
    }
    r
}

/// A short random suffix: the first hyphen-separated group of a fresh UUID.
pub fn fresh_short_suffix() -> (r: String)
    ensures
        forall|i: int| 0 <= i < r@.len() ==> r@[i] != '-',
{
    let u = new_uuid_string();
    prefix_before_dash(u.as_str())
}

/// The label under which the host registers the webview of a tab.
pub fn webview_label(tab_id: &str) -> (r: String)
    ensures
        r@ == "ai_"@ + tab_id@,
{
    concat2("ai_", tab_id)
}

/// An auxiliary tab id: the site id, an underscore, and a suffix.
pub fn make_tab_id(site_id: &str, suffix: &str) -> (r: String)
    ensures
        r@ == site_id@ + "_"@ + suffix@,
{
    concat3(site_id, "_", suffix)
}

/// A custom-site id with the given suffix.
pub fn make_custom_site_id(suffix: &str) -> (r: String)
    ensures
        r@ == "custom_"@ + suffix@,
{
    concat2("custom_", suffix)
}

/// A project id with the given suffix.
pub fn make_project_id(suffix: &str) -> (r: String)
    ensures
        r@ == "proj_"@ + suffix@,
{
    concat2("proj_", suffix)
}

/// Appending distinct suffixes to one prefix yields distinct strings.
pub proof fn lemma_suffix_distinct(p: Seq<char>, a: Seq<char>, b: Seq<char>)
    requires
        a != b,
    ensures
        p + a != p + b,
{
    if p + a == p + b {
        assert(a =~= (p + a).skip(p.len() as int));
        assert(b =~= (p + b).skip(p.len() as int));
    }
}

} // verus!
