//! Where the data lives: the `.cyan` directory under the home directory and
//! the database file in it. Opening the database is the caller's.
use vstd::prelude::*;

use crate::support::path::{home_dir, joined, path_join};
use crate::text::owned;

verus! {

/// The data directory under a home directory, or the error for a missing
/// home directory.
pub fn cyan_home_in(home: Option<String>) -> (r: Result<String, String>)
    ensures
        match home {
            Some(h) => r matches Ok(p) && p@ == joined(h@, ".cyan"@),
            None => r matches Err(m) && m@ == "无法定位用户主目录"@,
        },
{
    match home {
        Some(h) => Ok(path_join(h.as_str(), ".cyan")),
        None => Err(owned("无法定位用户主目录")),
    }
}

/// The data directory, `.cyan` under the user's home directory (which is
/// read from the environment).
pub fn cyan_home() -> (r: Result<String, String>)
    ensures
        r matches Ok(p) ==> exists|h: Seq<char>| p@ == joined(h, ".cyan"@),
        r matches Err(m) ==> m@ == "无法定位用户主目录"@,
{
    let home = home_dir();
    let ghost hv = home;
    let r = cyan_home_in(home);
    proof {
        if let Some(h) = hv {
            assert(r matches Ok(p) && p@ == joined(h@, ".cyan"@));
        }
    }
    r
}

/// The database file, `cyan.db` in the data directory.
pub fn db_path() -> (r: Result<String, String>)
    ensures
        r matches Ok(p) ==> exists|h: Seq<char>| p@ == joined(joined(h, ".cyan"@), "cyan.db"@),
        r matches Err(m) ==> m@ == "无法定位用户主目录"@,
{
    let home = cyan_home()?;
    let p = path_join(home.as_str(), "cyan.db");
    proof {
        let h = choose|h: Seq<char>| home@ == joined(h, ".cyan"@);
        assert(p@ == joined(joined(h, ".cyan"@), "cyan.db"@));
    }
    Ok(p)
}

} // verus!
