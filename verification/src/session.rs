//! Pure decision helpers behind the browser-session operations: URL and
//! file-name building, and the bounds checks of the tab-management calls.

use vstd::prelude::*;

use crate::types::BrowserError;

verus! {

/// The search URL for a query.
pub fn duckduckgo_url(query: &str) -> (r: String)
    ensures
        r@ == "https://duckduckgo.com/?q="@ + query@,
{
    let mut out: Vec<char> = Vec::new();
    crate::strutil::push_str_chars(&mut out, "https://duckduckgo.com/?q=");
    crate::strutil::push_str_chars(&mut out, query);
    crate::strutil::chars_to_string(&out)
}

/// The file name a screenshot is captured under: prefix, timestamp, `.png`.
pub fn screenshot_filename(prefix: &str, timestamp: &str) -> (r: String)
    ensures
        r@ == prefix@ + "-"@ + timestamp@ + ".png"@,
{
    let mut out: Vec<char> = Vec::new();
    crate::strutil::push_str_chars(&mut out, prefix);
    crate::strutil::push_str_chars(&mut out, "-");
    crate::strutil::push_str_chars(&mut out, timestamp);
    crate::strutil::push_str_chars(&mut out, ".png");
    crate::strutil::chars_to_string(&out)
}

/// Whether a tab at `index` may be closed among `n_tabs` open tabs: the
/// only remaining tab stays, and the index must exist. On success the tab
/// to close is the one at `index`.
pub fn close_tab_choice(n_tabs: usize, index: usize) -> (r: Result<usize, BrowserError>)
    ensures
        n_tabs <= 1 ==> (r matches Err(e) && e matches BrowserError::OperationError(_)),
        n_tabs > 1 && index >= n_tabs ==> (r matches Err(e) && e matches
            BrowserError::OperationError(_)),
        n_tabs > 1 && index < n_tabs ==> r == Ok::<usize, BrowserError>(index),
{
    if n_tabs <= 1 {
        Err(BrowserError::OperationError(String::from_str("cannot close the only remaining tab")))
    } else if index >= n_tabs {
        Err(BrowserError::OperationError(String::from_str("tab index out of bounds")))
    } else {
        Ok(index)
    }
}

/// Whether a tab at `index` exists among `n_tabs` open tabs and may be
/// switched to.
pub fn switch_tab_choice(n_tabs: usize, index: usize) -> (r: Result<usize, BrowserError>)
    ensures
        index >= n_tabs ==> (r matches Err(e) && e matches BrowserError::OperationError(_)),
        index < n_tabs ==> r == Ok::<usize, BrowserError>(index),
{
    if index >= n_tabs {
        Err(BrowserError::OperationError(String::from_str("no tab at this index")))
    } else {
        Ok(index)
    }
}

} // verus!
