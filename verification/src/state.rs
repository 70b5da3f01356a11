//! Where the application keeps its files.

use vstd::prelude::*;
use vstd::string::StringExecFns;
use crate::text::chars_of;

verus! {

/// A directory with a relative name under it: the two joined by one `/`,
/// which is left out where the directory is empty or ends in one.
pub open spec fn joined_path(base: Seq<char>, name: Seq<char>) -> Seq<char> {
    if base.len() == 0 || base.last() == '/' {
        base + name
    } else {
        base + "/"@ + name
    }
}

/// Joins a directory and a relative name.
fn join_path(base: &str, name: &str) -> (r: String)
    ensures
        r@ == joined_path(base@, name@),
{
    let chars = chars_of(base);
    let mut out = String::from_str(base);
    if chars.len() > 0 && chars[chars.len() - 1] != '/' {
        out.append("/");
    }
    out.append(name);
    out
}

/// The paths that the application works under. No password and no key is
/// ever kept here.
#[derive(Debug, Clone, PartialEq, Eq)]
pub struct AppState {
    pub app_data_dir: String,
    pub db_path: String,
}

impl AppState {
    /// The state for a data directory: the database lies in it under
    /// `database/trace.db`.
    pub fn new(app_data_dir: &str) -> (r: AppState)
        ensures
            r.app_data_dir@ == app_data_dir@,
            r.db_path@ == joined_path(joined_path(app_data_dir@, "database"@), "trace.db"@),
    {
        let database = join_path(app_data_dir, "database");
        AppState {
            app_data_dir: String::from_str(app_data_dir),
            db_path: join_path(database.as_str(), "trace.db"),
        }
    }

    /// The directory of the encrypted entries.
    pub fn diaries_dir(&self) -> (r: String)
        ensures
            r@ == joined_path(self.app_data_dir@, "diaries"@),
    {
        join_path(self.app_data_dir.as_str(), "diaries")
    }

    /// The directory of the summaries.
    pub fn summaries_dir(&self) -> (r: String)
        ensures
            r@ == joined_path(self.app_data_dir@, "summaries"@),
    {
        join_path(self.app_data_dir.as_str(), "summaries")
    }
}

} // verus!
