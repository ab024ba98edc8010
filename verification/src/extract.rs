//! The script side of the extraction protocol: the snippet an embedded
//! instance runs to read its page text and call back with the request id
//! and token.  The ids are embedded verbatim, twice each — once for the
//! success path and once for the in-page error path, which reports empty
//! text rather than surfacing an error into the page.

use vstd::prelude::*;
use crate::strutil::concat2;

verus! {

/// The whole script with `rid` and `tok` spliced in.
pub open spec fn spec_extraction_script(rid: Seq<char>, tok: Seq<char>) -> Seq<char> {
    "(async () => {\n  try {\n    const text = document?.body?.innerText || '';\n    await window.__TAURI__.core.invoke('aihub_submit_page_text', { requestId: '"@
        + rid + "', token: '"@ + tok
        + "', text });\n  } catch (e) {\n    try {\n      await window.__TAURI__.core.invoke('aihub_submit_page_text', { requestId: '"@
        + rid + "', token: '"@ + tok + "', text: '' });\n    } catch (_) {}\n  }\n})();"@
}

/// Builds the extraction script for one request.
pub fn extraction_script(request_id: &str, token: &str) -> (r: String)
    ensures
        r@ == spec_extraction_script(request_id@, token@),
{
    let mut s = String::new();
    s.append(
        "(async () => {\n  try {\n    const text = document?.body?.innerText || '';\n    await window.__TAURI__.core.invoke('aihub_submit_page_text', { requestId: '",
    );
    s.append(request_id);
    s.append("', token: '");
    s.append(token);
    s.append(
        "', text });\n  } catch (e) {\n    try {\n      await window.__TAURI__.core.invoke('aihub_submit_page_text', { requestId: '",
    );
    s.append(request_id);
    s.append("', token: '");
    s.append(token);
    s.append("', text: '' });\n    } catch (_) {}\n  }\n})();");
    s
}

} // verus!
