//! Session files: one `<session id>.json` per session in the sessions directory.
use vstd::prelude::*;
use crate::text::str_eq;

verus! {

/// The file name of a session's status file.
pub open spec fn file_name_of(session_id: Seq<char>) -> Seq<char> {
    session_id + ".json"@
}

/// The session id that a file name stands for: the name without its
/// `.json` suffix, `None` when it has no such suffix.
pub open spec fn session_id_of(file_name: Seq<char>) -> Option<Seq<char>> {
    let n = file_name.len();
    if n >= ".json"@.len() && file_name.subrange(n - ".json"@.len(), n as int) == ".json"@ {
        Some(file_name.subrange(0, n - ".json"@.len()))
    } else {
        None
    }
}

/// The file name under which a session's status is written.
pub fn session_file_name(session_id: &str) -> (name: String)
    ensures
        name@ == file_name_of(session_id@),
{
    let mut name = String::from_str(session_id);
    name.append(".json");
    name
}

/// The session id named by a file in the sessions directory, if the file is
/// a `.json` file.
pub fn session_id_from_file_name(file_name: &str) -> (id: Option<String>)
    ensures
        match id {
            Some(s) => session_id_of(file_name@) == Some(s@),
            None => session_id_of(file_name@) is None,
        },
{
    let n = file_name.unicode_len();
    let suffix = ".json";
    let k = suffix.unicode_len();
    if n >= k && str_eq(file_name.substring_char(n - k, n), suffix) {
        Some(String::from_str(file_name.substring_char(0, n - k)))
    } else {
        None
    }
}

/// Whether a change notification for the sessions directory is one to act
/// on: a file was created or closed after writing.
pub fn is_session_file_event(close_write: bool, create: bool) -> (r: bool)
    ensures
        r == (close_write || create),
{
    close_write || create
}

} // verus!
