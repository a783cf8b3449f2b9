//! Expansion of a leading home-directory shorthand in configuration paths.

use vstd::prelude::*;
use vstd::string::StrSliceExecFns;
use vstd::string::StringExecFns;

verus! {

/// What expansion yields: if the path starts with `~/` and a home directory is
/// known, the `~` is replaced by the home directory; otherwise the path is
/// returned unchanged.
pub open spec fn expanded_path(path: Seq<char>, home: Option<Seq<char>>) -> Seq<char> {
    if path.len() >= 2 && path[0] == '~' && path[1] == '/' && home is Some {
        home.unwrap() + path.skip(1)
    } else {
        path
    }
}

/// Expands `~/` at the front of a configuration path string, as git does for
/// settings such as `core.excludesFile`. The caller supplies the home
/// directory, if one is known; absence is not an error, the path then stays
/// as it is.
pub fn expand_git_path(path_str: &str, home_dir: Option<&str>) -> (r: String)
    ensures
        r@ == expanded_path(
            path_str@,
            match home_dir {
                Some(h) => Some(h@),
                None => None,
            },
        ),
{
    let n = path_str.unicode_len();
    if n >= 2 && path_str.get_char(0) == '~' && path_str.get_char(1) == '/' {
        if let Some(home) = home_dir {
            let rest = path_str.substring_char(1, n);
            let mut out = home.to_owned();
            out.append(rest);
            proof {
                assert(rest@ =~= path_str@.skip(1));
            }
            return out;
        }
    }
    path_str.to_owned()
}

} // verus!
