//! Maildir-specific naming: folder names are percent-encoded into
//! directory names, and subfolders live under a leading dot.

use vstd::prelude::*;

verus! {

/// What percent-encoding a folder name yields. Relies on the encoder
/// named in `encode_folder`.
pub uninterp spec fn url_encoded_of(s: Seq<char>) -> Seq<char>;

/// What percent-decoding a folder name yields, where it succeeds.
/// Relies on the decoder named in `decode_folder`.
pub uninterp spec fn url_decoded_of(s: Seq<char>) -> Seq<char>;

/// Relies on urlencoding's `encode`: percent-encodes a folder name,
/// as a pure function of its characters.
#[verifier::external_body]
pub fn encode_folder(folder: &str) -> (r: String)
    ensures
        r@ == url_encoded_of(folder@),
{
    urlencoding::encode(folder).to_string()
}

/// Relies on urlencoding's `decode`: percent-decodes a folder name,
/// as a pure function of its characters; a name that does not decode
/// comes back unchanged.
#[verifier::external_body]
pub fn decode_folder(folder: &str) -> (r: String)
    ensures
        r@ == url_decoded_of(folder@) || r@ == folder@,
{
    match urlencoding::decode(folder) {
        Ok(s) => s.to_string(),
        Err(_) => folder.to_string(),
    }
}

/// The directory name a folder is stored under: the inbox is the
/// maildir root's own `cur`, any other folder is a subdirectory named
/// by a dot and the percent-encoded folder name.
pub fn maildir_folder_dirname(folder: &str) -> (r: String)
    ensures
        folder@ == "INBOX"@ ==> r@ == "cur"@,
        folder@ != "INBOX"@ ==> r@ == seq!['.'] + url_encoded_of(folder@),
{
    proof {
        reveal_strlit("INBOX");
        reveal_strlit("cur");
        reveal_strlit(".");
    }
    if crate::flag::str_eq(folder, "INBOX") {
        String::from_str("cur")
    } else {
        let mut r = String::from_str(".");
        r.append(encode_folder(folder).as_str());
        r
    }
}

/// Builds a maildir-backed store.
#[derive(Debug)]
pub struct MaildirBackendBuilder {
    /// Where the store's id mapper database lives; the store's own
    /// default when absent.
    pub db_path: Option<String>,
}

impl MaildirBackendBuilder {
    pub fn new() -> (r: MaildirBackendBuilder)
        ensures
            r.db_path is None,
    {
        MaildirBackendBuilder { db_path: None }
    }

    pub fn db_path(self, path: String) -> (r: MaildirBackendBuilder)
        ensures
            r.db_path matches Some(p) && p == path,
    {
        MaildirBackendBuilder { db_path: Some(path) }
    }
}

impl Default for MaildirBackendBuilder {
    fn default() -> (r: MaildirBackendBuilder)
        ensures
            r.db_path is None,
    {
        MaildirBackendBuilder::new()
    }
}

} // verus!
