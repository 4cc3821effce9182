//! The album cover module: fetches a cover image from the URL given on
//! the command line and attaches it to every song's file. The HTTP
//! request and the tag writing live outside the library; here stands the
//! decision of which URL, if any, to fetch.

use vstd::prelude::*;
use super::ModuleStruct;
use super::module_deps;
use crate::config::GlobalContext;

verus! {

pub const MODULE_NAME: &'static str = "albumcover";

/// The registry entry of the album cover module.
pub fn module_info() -> (r: ModuleStruct)
    ensures
        r.deps@.map_values(|s: String| s@) == module_deps("albumcover"@),
{
    proof {
        super::reveal_module_names();
    }
    let deps: Vec<String> = Vec::new();
    proof {
        assert(deps@.map_values(|s: String| s@) =~= module_deps("albumcover"@));
    }
    ModuleStruct { deps }
}

/// The cover URL given on the command line, if any: with `None` the
/// module has nothing to do.
pub fn get_cover_url(global: &GlobalContext) -> (r: Option<String>)
    ensures
        match r {
            Some(url) => global.args.cover_url matches Some(u) && u@ == url@,
            None => global.args.cover_url is None,
        },
{
    match &global.args.cover_url {
        Some(url) => Some(url.clone()),
        None => None,
    }
}

} // verus!
