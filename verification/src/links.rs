//! Following a link clicked in a document: the link is percent-decoded and, when the
//! vault resolves it to a document, that document opens; otherwise the link opens as a URL.

use vstd::prelude::*;
use crate::paths::DocPath;
use crate::text::string_of;

verus! {

/// `url` percent-decoded, with invalid UTF-8 replaced, as `percent_encoding` gives it.
pub uninterp spec fn percent_decoded(url: Seq<char>) -> Seq<char>;

/// `url` percent-decoded (`percent_encoding::percent_decode_str`, then
/// `PercentDecode::decode_utf8_lossy`). The contract names the result and states one fact
/// the crate's source shows: text without `%` comes back unchanged.
#[verifier::external_body]
fn percent_decode(url: &str) -> (r: String)
    ensures
        r@ == percent_decoded(url@),
        !url@.contains('%') ==> r@ == url@,
{
    percent_encoding::percent_decode_str(url).decode_utf8_lossy().into_owned()
}

/// The text a clicked link is resolved from: the link percent-decoded.
pub fn decode_link(url: &str) -> (r: String)
    ensures
        r@ == percent_decoded(url@),
        !url@.contains('%') ==> r@ == url@,
{
    percent_decode(url)
}

/// What following a clicked link does.
pub enum LinkAction {
    /// Open the document the vault resolved the link to, in a new tab when asked.
    OpenDocument { path: DocPath, new_tab: bool },
    /// Open the link, as clicked, as a URL.
    OpenUrl(String),
}

/// What following `url` does, given the document the vault resolved its decoded form to.
pub fn link_action(url: &str, resolved: Option<DocPath>, new_tab: bool) -> (r: LinkAction)
    ensures
        match (resolved, r) {
            (Some(p), LinkAction::OpenDocument { path, new_tab: n }) => path@ == p@ && n == new_tab,
            (None, LinkAction::OpenUrl(u)) => u@ == url@,
            _ => false,
        },
{
    match resolved {
        Some(path) => LinkAction::OpenDocument { path, new_tab },
        None => LinkAction::OpenUrl(string_of(url)),
    }
}

} // verus!
