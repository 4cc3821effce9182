//! The module registry: every unit of work the pipeline can schedule,
//! under its registered name, with the names of the modules it depends
//! on. Registration is a compile-time table; `get_module` is the lookup
//! that planning uses.

use vstd::prelude::*;
use crate::errors::PlanError;

pub mod album;
pub mod albumcover;
pub mod download;
pub mod infocopy;
pub mod jsonfetch;
pub mod rename;
pub mod songcounter;
pub mod tag_files;
pub mod tagui;

verus! {

/// The interface of a registered module: a unique name and the names of
/// the modules that must have completed in a strictly earlier stage.
/// The work itself runs against the shared documents outside this trait.
pub trait Module {
    /// The registered name, as a specification value.
    spec fn spec_name() -> Seq<char>;

    /// The registered name.
    fn name() -> (r: String)
        ensures
            r@ == Self::spec_name(),
    ;

    /// The names of the modules this one depends on.
    fn deps() -> (r: Vec<String>)
        ensures
            r@.map_values(|s: String| s@) == module_deps(Self::spec_name()),
    ;
}

/// A registry entry: the dependency names of one module.
pub struct ModuleStruct {
    pub deps: Vec<String>,
}

/// Whether a name is registered.
pub open spec fn known_module(name: Seq<char>) -> bool {
    ||| name == "fetch_song_info"@
    ||| name == "infocopy"@
    ||| name == "download"@
    ||| name == "trackcounter"@
    ||| name == "albumcover"@
    ||| name == "albumui"@
    ||| name == "tagui"@
    ||| name == "rename"@
    ||| name == "tag_files"@
}

/// The declared dependencies of a registered name. Only meaningful for
/// names that `known_module` accepts.
pub open spec fn module_deps(name: Seq<char>) -> Seq<Seq<char>> {
    if name == "rename"@ || name == "tag_files"@ {
        seq!["download"@]
    } else if name == "fetch_song_info"@ || name == "albumcover"@ || name == "trackcounter"@ {
        Seq::empty()
    } else {
        seq!["fetch_song_info"@]
    }
}

/// Reveals every registered module name.
pub(crate) proof fn reveal_module_names()
    ensures
        "fetch_song_info"@.len() == 15,
        "infocopy"@.len() == 8,
        "download"@.len() == 8,
        "trackcounter"@.len() == 12,
        "albumcover"@.len() == 10,
        "albumui"@.len() == 7,
        "tagui"@.len() == 5,
        "rename"@.len() == 6,
        "tag_files"@.len() == 9,
        "infocopy"@ != "download"@,
{
    reveal_strlit("fetch_song_info");
    reveal_strlit("infocopy");
    reveal_strlit("download");
    reveal_strlit("trackcounter");
    reveal_strlit("albumcover");
    reveal_strlit("albumui");
    reveal_strlit("tagui");
    reveal_strlit("rename");
    reveal_strlit("tag_files");
    assert("infocopy"@[0] != "download"@[0]);
}

/// Looks a module up by name: its registry entry, or the planning error
/// that names the unknown module.
pub fn get_module(name: &str) -> (r: Result<ModuleStruct, PlanError>)
    ensures
        r is Ok <==> known_module(name@),
        r matches Ok(m) ==> m.deps@.map_values(|s: String| s@) == module_deps(name@),
        r matches Err(e) ==> (e matches PlanError::UnknownModule { name: n } && n@ == name@),
{
    proof {
        reveal_module_names();
    }
    if crate::text::str_eq(name, "fetch_song_info") {
        Ok(ModuleStruct { deps: jsonfetch::Jsonfetch::deps() })
    } else if crate::text::str_eq(name, "infocopy") {
        Ok(infocopy::module_info())
    } else if crate::text::str_eq(name, "download") {
        Ok(ModuleStruct { deps: download::DownloadModule::deps() })
    } else if crate::text::str_eq(name, "trackcounter") {
        Ok(songcounter::module_info())
    } else if crate::text::str_eq(name, "albumcover") {
        Ok(albumcover::module_info())
    } else if crate::text::str_eq(name, "albumui") {
        Ok(ModuleStruct { deps: album::AlbumModule::deps() })
    } else if crate::text::str_eq(name, "tagui") {
        Ok(ModuleStruct { deps: tagui::TagUI::deps() })
    } else if crate::text::str_eq(name, "rename") {
        Ok(rename::module_info())
    } else if crate::text::str_eq(name, "tag_files") {
        Ok(ModuleStruct { deps: tag_files::TagModule::deps() })
    } else {
        Err(PlanError::UnknownModule { name: name.to_owned() })
    }
}

} // verus!
