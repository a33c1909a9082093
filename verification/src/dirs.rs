//! Directory resolution policy: which of the candidate directories the
//! application should use for its configuration, data and cache. The
//! candidates themselves (a development tree, the platform's project
//! directories, the working directory) come from the surrounding program;
//! only the choice among them is decided here.

use vstd::prelude::*;

verus! {

/// The development working directory: under the source tree, and only in a
/// development build.
pub fn debug_work_dir(debug_build: bool, manifest_dir: &str) -> (r: Option<String>)
    ensures
        debug_build ==> (r matches Some(s) && s@ == manifest_dir@ + "/cutis-work"@),
        !debug_build ==> r is None,
{
    if !debug_build {
        return None;
    }
    let mut out = String::from_str(manifest_dir);
    out.append("/cutis-work");
    Some(out)
}

/// Picks a directory for `name`: the development directory first, then the
/// platform's project directory, then the working directory; `None` only
/// when no candidate is available at all.
pub fn get_some_dir(
    name: &str,
    debug_dir: Option<String>,
    project_dir: Option<String>,
    current_dir: Option<String>,
) -> (r: Option<String>)
    ensures
        debug_dir is Some ==> (r matches Some(s) && s@ == debug_dir->Some_0@ + "/./"@ + name@),
        (debug_dir is None && project_dir is Some) ==> r == Some::<String>(project_dir->Some_0),
        (debug_dir is None && project_dir is None && current_dir is Some) ==> (r matches Some(s)
            && s@ == current_dir->Some_0@ + "/./"@ + name@),
        (debug_dir is None && project_dir is None && current_dir is None) ==> r is None,
{
    match debug_dir {
        Some(d) => {
            let mut out = d;
            out.append("/./");
            out.append(name);
            Some(out)
        },
        None => match project_dir {
            Some(p) => Some(p),
            None => match current_dir {
                Some(c) => {
                    let mut out = c;
                    out.append("/./");
                    out.append(name);
                    Some(out)
                },
                None => None,
            },
        },
    }
}

/// The configuration directory.
pub fn config_dir(
    debug_dir: Option<String>,
    project_dir: Option<String>,
    current_dir: Option<String>,
) -> (r: Option<String>)
    ensures
        debug_dir is Some ==> (r matches Some(s) && s@ == debug_dir->Some_0@ + "/./"@ + "config"@),
        (debug_dir is None && project_dir is Some) ==> r == Some::<String>(project_dir->Some_0),
        (debug_dir is None && project_dir is None && current_dir is Some) ==> (r matches Some(s)
            && s@ == current_dir->Some_0@ + "/./"@ + "config"@),
        (debug_dir is None && project_dir is None && current_dir is None) ==> r is None,
{
    get_some_dir("config", debug_dir, project_dir, current_dir)
}

/// The data directory.
pub fn data_dir(
    debug_dir: Option<String>,
    project_dir: Option<String>,
    current_dir: Option<String>,
) -> (r: Option<String>)
    ensures
        debug_dir is Some ==> (r matches Some(s) && s@ == debug_dir->Some_0@ + "/./"@ + "data"@),
        (debug_dir is None && project_dir is Some) ==> r == Some::<String>(project_dir->Some_0),
        (debug_dir is None && project_dir is None && current_dir is Some) ==> (r matches Some(s)
            && s@ == current_dir->Some_0@ + "/./"@ + "data"@),
        (debug_dir is None && project_dir is None && current_dir is None) ==> r is None,
{
    get_some_dir("data", debug_dir, project_dir, current_dir)
}

/// The cache directory.
pub fn cache_dir(
    debug_dir: Option<String>,
    project_dir: Option<String>,
    current_dir: Option<String>,
) -> (r: Option<String>)
    ensures
        debug_dir is Some ==> (r matches Some(s) && s@ == debug_dir->Some_0@ + "/./"@ + "cache"@),
        (debug_dir is None && project_dir is Some) ==> r == Some::<String>(project_dir->Some_0),
        (debug_dir is None && project_dir is None && current_dir is Some) ==> (r matches Some(s)
            && s@ == current_dir->Some_0@ + "/./"@ + "cache"@),
        (debug_dir is None && project_dir is None && current_dir is None) ==> r is None,
{
    get_some_dir("cache", debug_dir, project_dir, current_dir)
}

} // verus!
