//! Locating candidate SSH private keys under the per-user SSH directory.
//!
//! Exactly three fixed filenames are checked, in a fixed priority order:
//! hardware-backed ed25519 first, then ed25519, then RSA. Only paths that
//! exist as regular files are returned; an undiscoverable home directory
//! yields the empty list, which is a valid "no keys available" answer.

use vstd::prelude::*;
use vstd::string::StringExecFns;

verus! {

/// The full candidate path for one key filename.
pub open spec fn ssh_candidate_path(home: Seq<char>, name: Seq<char>) -> Seq<char> {
    home + "/.ssh/"@ + name
}

/// The three candidate paths, in priority order.
pub open spec fn ssh_candidate_paths(home: Seq<char>) -> Seq<Seq<char>> {
    seq![
        ssh_candidate_path(home, "id_ed25519_sk"@),
        ssh_candidate_path(home, "id_ed25519"@),
        ssh_candidate_path(home, "id_rsa"@),
    ]
}

/// The views of a sequence of strings.
pub open spec fn str_views(v: Seq<String>) -> Seq<Seq<char>> {
    v.map_values(|s: String| s@)
}

/// The items whose flag holds, in their original order.
pub open spec fn kept(items: Seq<Seq<char>>, keep: Seq<bool>) -> Seq<Seq<char>>
    decreases items.len(),
{
    if items.len() == 0 || keep.len() != items.len() {
        Seq::empty()
    } else if keep.last() {
        kept(items.drop_last(), keep.drop_last()).push(items.last())
    } else {
        kept(items.drop_last(), keep.drop_last())
    }
}

/// Keeping items never yields more than there were.
pub proof fn lemma_kept_len(items: Seq<Seq<char>>, keep: Seq<bool>)
    ensures
        kept(items, keep).len() <= items.len(),
    decreases items.len(),
{
    if items.len() == 0 || keep.len() != items.len() {
    } else {
        lemma_kept_len(items.drop_last(), keep.drop_last());
    }
}

/// The selection law for the locator's three candidates: the result is the
/// concatenation, in the fixed priority order, of exactly those candidates
/// whose flag holds — a missing file is omitted, and no reordering happens.
pub proof fn lemma_ssh_key_selection(items: Seq<Seq<char>>, keep: Seq<bool>)
    requires
        items.len() == 3,
        keep.len() == 3,
    ensures
        kept(items, keep) == (if keep[0] {
            seq![items[0]]
        } else {
            Seq::<Seq<char>>::empty()
        }) + (if keep[1] {
            seq![items[1]]
        } else {
            Seq::<Seq<char>>::empty()
        }) + (if keep[2] {
            seq![items[2]]
        } else {
            Seq::<Seq<char>>::empty()
        }),
{
    reveal_with_fuel(kept, 4);
    let i1 = items.drop_last();
    let k1 = keep.drop_last();
    let i0 = i1.drop_last();
    let k0 = k1.drop_last();
    assert(i0.drop_last() =~= Seq::<Seq<char>>::empty());
    assert(kept(i0.drop_last(), k0.drop_last()) =~= Seq::<Seq<char>>::empty());
    assert(kept(items, keep) =~= (if keep[0] {
        seq![items[0]]
    } else {
        Seq::<Seq<char>>::empty()
    }) + (if keep[1] {
        seq![items[1]]
    } else {
        Seq::<Seq<char>>::empty()
    }) + (if keep[2] {
        seq![items[2]]
    } else {
        Seq::<Seq<char>>::empty()
    }));
}

/// Relies on `dirs::home_dir`: the per-user home directory, where the
/// platform reports one. The value depends on the environment, so nothing is
/// promised of it.
#[verifier::external_body]
fn home_dir_string() -> (r: Option<String>) {
    dirs::home_dir().and_then(|p| p.to_str().map(|s| s.to_owned()))
}

/// Relies on `std::path::Path::is_file`: whether the path names an existing
/// regular file. The answer depends on what is on disk, so nothing is
/// promised of it.
#[verifier::external_body]
fn path_is_file(path: &String) -> (r: bool) {
    std::path::Path::new(path.as_str()).is_file()
}

/// Builds the three candidate paths for one home directory, in priority
/// order.
pub fn ssh_key_candidates(home: &str) -> (r: Vec<String>)
    ensures
        str_views(r@) == ssh_candidate_paths(home@),
{
    let mut r: Vec<String> = Vec::new();
    let mut p = home.to_owned();
    p.append("/.ssh/");
    p.append("id_ed25519_sk");
    r.push(p);
    let mut p = home.to_owned();
    p.append("/.ssh/");
    p.append("id_ed25519");
    r.push(p);
    let mut p = home.to_owned();
    p.append("/.ssh/");
    p.append("id_rsa");
    r.push(p);
    proof {
        assert(str_views(r@) =~= ssh_candidate_paths(home@));
    }
    r
}

/// Keeps, in order, the paths whose flag holds.
pub fn filter_existing(paths: Vec<String>, keep: &Vec<bool>) -> (r: Vec<String>)
    requires
        paths@.len() == keep@.len(),
    ensures
        str_views(r@) == kept(str_views(paths@), keep@),
{
    let n = paths.len();
    let mut r: Vec<String> = Vec::new();
    let mut i: usize = 0;
    proof {
        assert(str_views(paths@.take(0)) =~= Seq::<Seq<char>>::empty());
        assert(str_views(r@) =~= kept(str_views(paths@.take(0)), keep@.take(0)));
    }
    while i < n
        invariant
            0 <= i <= n,
            n == paths@.len() == keep@.len(),
            str_views(r@) == kept(str_views(paths@.take(i as int)), keep@.take(i as int)),
        decreases n - i,
    {
        let ghost pre_items = str_views(paths@.take(i as int));
        let ghost pre_keep = keep@.take(i as int);
        if keep[i] {
            r.push(paths[i].clone());
        }
        proof {
            let post_items = str_views(paths@.take(i + 1));
            let post_keep = keep@.take(i + 1);
            assert(post_items.drop_last() =~= pre_items);
            assert(post_keep.drop_last() =~= pre_keep);
            assert(post_items.last() == paths@[i as int]@);
            if keep@[i as int] {
                assert(str_views(r@) =~= kept(pre_items, pre_keep).push(paths@[i as int]@));
            }
            assert(str_views(r@) =~= kept(post_items, post_keep));
        }
        i = i + 1;
    }
    proof {
        assert(paths@.take(n as int) =~= paths@);
        assert(keep@.take(n as int) =~= keep@);
    }
    r
}

/// Returns the paths of the existing SSH private keys, in the fixed priority
/// order; the empty list where the home directory cannot be determined.
///
/// The result is always a selection, in order, from the three candidate
/// paths of some home directory: which of them stand depends on what is on
/// disk.
pub fn get_ssh_keys(_username: &str) -> (r: Vec<String>)
    ensures
        r@.len() <= 3,
        exists|home: Seq<char>, keep: Seq<bool>|
            keep.len() == 3 && str_views(r@) == kept(ssh_candidate_paths(home), keep),
{
    match home_dir_string() {
        None => {
            let r: Vec<String> = Vec::new();
            proof {
                reveal_with_fuel(kept, 4);
                let home = Seq::<char>::empty();
                let keep = seq![false, false, false];
                let items = ssh_candidate_paths(home);
                assert(kept(items.drop_last().drop_last().drop_last(),
                    keep.drop_last().drop_last().drop_last()) =~= Seq::<Seq<char>>::empty());
                assert(str_views(r@) =~= kept(items, keep));
            }
            r
        },
        Some(home) => {
            let cands = ssh_key_candidates(home.as_str());
            proof {
                assert(str_views(cands@).len() == 3);
                assert(cands@.len() == 3);
            }
            let mut keep: Vec<bool> = Vec::new();
            keep.push(path_is_file(&cands[0]));
            keep.push(path_is_file(&cands[1]));
            keep.push(path_is_file(&cands[2]));
            let r = filter_existing(cands, &keep);
            proof {
                lemma_kept_len(ssh_candidate_paths(home@), keep@);
                assert(keep@.len() == 3 && str_views(r@) == kept(
                    ssh_candidate_paths(home@),
                    keep@,
                ));
            }
            r
        },
    }
}

} // verus!
