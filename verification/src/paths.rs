//! Path phrase rewriting and path-derived locations: placeholder
//! expansion for configured paths, the database location candidates, and
//! the storage folder that sits beside the database file.

use vstd::prelude::*;
use vstd::string::StringSliceAdditionalSpecFns;
use vstd::utf8::is_ascii_chars;
use crate::catalog::{ascii_bytes, str_bytes};
use crate::search::{bytes_search, contains_seq, is_first_match_at, is_match_at,
    lemma_first_match_exists, lemma_first_match_unique};

verus! {

/// Replaces every occurrence of `from` in `hay` with `to`, left to right,
/// non-overlapping.  An empty `from` replaces nothing.
pub open spec fn spec_replace(hay: Seq<u8>, from: Seq<u8>, to: Seq<u8>) -> Seq<u8>
    decreases hay.len(),
    via spec_replace_decreases
{
    if !contains_seq(hay, from) {
        hay
    } else {
        let i = choose|i: int| is_first_match_at(hay, from, i);
        hay.take(i) + to + spec_replace(hay.skip(i + from.len()), from, to)
    }
}

#[via_fn]
proof fn spec_replace_decreases(hay: Seq<u8>, from: Seq<u8>, to: Seq<u8>) {
    if contains_seq(hay, from) {
        let w = choose|w: int| is_match_at(hay, from, w);
        lemma_first_match_exists(hay, from, w);
        let i = choose|i: int| is_first_match_at(hay, from, i);
        assert(is_first_match_at(hay, from, i));
    }
}

/// Appends `src[start..end]` to `out`.
fn push_range(out: &mut Vec<u8>, src: &[u8], start: usize, end: usize)
    requires
        start <= end <= src@.len(),
    ensures
        final(out)@ == old(out)@ + src@.subrange(start as int, end as int),
{
    let mut j: usize = start;
    while j < end
        invariant
            start <= j <= end <= src@.len(),
            out@ =~= old(out)@ + src@.subrange(start as int, j as int),
        decreases end - j,
    {
        out.push(src[j]);
        j = j + 1;
    }
    proof {
        assert(out@ =~= old(out)@ + src@.subrange(start as int, end as int));
    }
}

/// Replaces every occurrence of `from` in `hay` with `to`, left to
/// right, non-overlapping.
pub fn replace_all(hay: &[u8], from: &[u8], to: &[u8]) -> (r: Vec<u8>)
    ensures
        r@ == spec_replace(hay@, from@, to@),
{
    let mut out: Vec<u8> = Vec::new();
    let mut rest_start: usize = 0;
    let hl = hay.len();
    proof {
        assert(hay@.skip(0) =~= hay@);
        assert(out@ + spec_replace(hay@, from@, to@) =~= spec_replace(hay@, from@, to@));
    }
    loop
        invariant
            rest_start <= hl == hay@.len(),
            out@ + spec_replace(hay@.skip(rest_start as int), from@, to@) == spec_replace(
                hay@,
                from@,
                to@,
            ),
        decreases hl - rest_start,
    {
        let rest = &hay[rest_start..hl];
        proof {
            assert(rest@ == hay@.skip(rest_start as int));
        }
        match bytes_search(rest, from) {
            Some(i) => {
                proof {
                    let c = choose|c: int| is_first_match_at(rest@, from@, c);
                    lemma_first_match_unique(rest@, from@, c, i as int);
                    assert(spec_replace(rest@, from@, to@) == rest@.take(i as int) + to@
                        + spec_replace(rest@.skip(i + from@.len()), from@, to@));
                }
                push_range(&mut out, rest, 0, i);
                proof {
                    assert(rest@.subrange(0, i as int) =~= rest@.take(i as int));
                }
                push_range(&mut out, to, 0, to.len());
                proof {
                    assert(to@.subrange(0, to@.len() as int) =~= to@);
                }
                let step = i + from.len();
                proof {
                    assert(rest@.skip(step as int) =~= hay@.skip(rest_start + step));
                }
                rest_start = rest_start + step;
            },
            None => {
                push_range(&mut out, rest, 0, rest.len());
                proof {
                    assert(rest@.subrange(0, rest@.len() as int) =~= rest@);
                    assert(spec_replace(rest@, from@, to@) == rest@);
                }
                return out;
            },
        }
    }
}

/// Concatenation of three byte strings.
pub fn concat3(a: &[u8], b: &[u8], c: &[u8]) -> (r: Vec<u8>)
    ensures
        r@ == a@ + b@ + c@,
{
    let mut r: Vec<u8> = Vec::new();
    push_range(&mut r, a, 0, a.len());
    push_range(&mut r, b, 0, b.len());
    push_range(&mut r, c, 0, c.len());
    proof {
        assert(a@.subrange(0, a@.len() as int) =~= a@);
        assert(b@.subrange(0, b@.len() as int) =~= b@);
        assert(c@.subrange(0, c@.len() as int) =~= c@);
        assert(r@ =~= a@ + b@ + c@);
    }
    r
}

/// The expansion of the Windows temp-directory placeholder.
pub open spec fn spec_win_temp(user: Seq<u8>) -> Seq<u8> {
    ascii_bytes("C:\\Users\\"@) + user + ascii_bytes("\\AppData\\Local\\Temp"@)
}

/// The expansion of the Windows local-appdata placeholder.
pub open spec fn spec_win_local(user: Seq<u8>) -> Seq<u8> {
    ascii_bytes("C:\\Users\\"@) + user + ascii_bytes("\\AppData\\Local"@)
}

/// The expansion of the home-directory shorthand.
pub open spec fn spec_home(user: Seq<u8>) -> Seq<u8> {
    ascii_bytes("/home/"@) + user
}

/// A configured path with its placeholders expanded for `user`: the
/// Windows temp placeholder, then the Windows local-appdata placeholder,
/// then the home shorthand.
pub open spec fn spec_resolve_path(dir: Seq<u8>, user: Seq<u8>) -> Seq<u8> {
    spec_replace(
        spec_replace(
            spec_replace(dir, ascii_bytes("%Temp%"@), spec_win_temp(user)),
            ascii_bytes("%localappdata%"@),
            spec_win_local(user),
        ),
        ascii_bytes("~"@),
        spec_home(user),
    )
}

/// Expands the placeholder phrases of a configured path for the given
/// username.
pub fn resolve_path_bytes(directory: &[u8], username: &[u8]) -> (r: Vec<u8>)
    ensures
        r@ == spec_resolve_path(directory@, username@),
{
    proof {
        reveal_strlit("%Temp%");
        reveal_strlit("%localappdata%");
        reveal_strlit("~");
        reveal_strlit("C:\\Users\\");
        reveal_strlit("\\AppData\\Local\\Temp");
        reveal_strlit("\\AppData\\Local");
        reveal_strlit("/home/");
        assert(is_ascii_chars("%Temp%"@));
        assert(is_ascii_chars("%localappdata%"@));
        assert(is_ascii_chars("~"@));
        assert(is_ascii_chars("C:\\Users\\"@));
        assert(is_ascii_chars("\\AppData\\Local\\Temp"@));
        assert(is_ascii_chars("\\AppData\\Local"@));
        assert(is_ascii_chars("/home/"@));
        reveal_strlit("");
        assert(is_ascii_chars(""@));
    }
    let win_temp = concat3(str_bytes("C:\\Users\\"), username, str_bytes("\\AppData\\Local\\Temp"));
    let win_local = concat3(str_bytes("C:\\Users\\"), username, str_bytes("\\AppData\\Local"));
    let home = concat3(str_bytes("/home/"), username, str_bytes(""));
    proof {
        reveal_strlit("");
        assert(ascii_bytes(""@) =~= Seq::<u8>::empty());
        assert(home@ =~= spec_home(username@));
    }
    let step1 = replace_all(directory, str_bytes("%Temp%"), win_temp.as_slice());
    let step2 = replace_all(step1.as_slice(), str_bytes("%localappdata%"), win_local.as_slice());
    replace_all(step2.as_slice(), str_bytes("~"), home.as_slice())
}

/// The fixed platform-default database locations, before placeholder
/// expansion: the Windows client location, then the Linux (Sober)
/// location.
pub open spec fn spec_default_db_paths() -> Seq<Seq<char>> {
    seq![
        "%localappdata%\\Roblox\\rbx-storage.db"@,
        "~/.var/app/org.vinegarhq.Sober/data/sober/appData/rbx-storage.db"@,
    ]
}

/// The candidate database locations in resolution order: the
/// user-configured path first when there is one, then the fixed
/// platform defaults.
pub open spec fn spec_db_candidates(user: Option<Seq<char>>) -> Seq<Seq<char>> {
    match user {
        Some(u) => seq![u] + spec_default_db_paths(),
        None => spec_default_db_paths(),
    }
}

/// The ordered candidate paths where the database may live.  Each
/// candidate still holds its placeholders; callers expand and validate
/// each in turn and open the first that is an existing regular file.
pub fn db_path_candidates(user_path: Option<String>) -> (r: Vec<String>)
    ensures
        r@.len() == spec_db_candidates(
            match user_path {
                Some(u) => Some(u@),
                None => None,
            },
        ).len(),
        forall|i: int|
            0 <= i < r@.len() ==> r@[i]@ == spec_db_candidates(
                match user_path {
                    Some(u) => Some(u@),
                    None => None,
                },
            )[i],
{
    let mut r: Vec<String> = Vec::new();
    match user_path {
        Some(u) => r.push(u),
        None => (),
    }
    r.push("%localappdata%\\Roblox\\rbx-storage.db".to_owned());
    r.push("~/.var/app/org.vinegarhq.Sober/data/sober/appData/rbx-storage.db".to_owned());
    r
}

/// Whether a temporary directory path is safe to delete recursively on
/// clean-up: never the empty path and never the filesystem root, in case
/// a configured value resolved to one of them.
pub fn removable_temp_dir(path: &str) -> (r: bool)
    ensures
        r == (path.spec_bytes().len() > 0 && path.spec_bytes() != ascii_bytes("/"@)),
{
    proof {
        reveal_strlit("/");
        assert(is_ascii_chars("/"@));
    }
    let b = path.as_bytes();
    b.len() > 0 && !crate::search::bytes_eq(b, str_bytes("/"))
}

/// Whether the byte is a path separator of either convention.
pub open spec fn is_sep(b: u8) -> bool {
    b == '/' as u8 || b == '\\' as u8
}

/// The index of the last separator in the path, if any.
pub open spec fn is_last_sep_at(path: Seq<u8>, i: int) -> bool {
    0 <= i < path.len() && is_sep(path[i]) && forall|j: int|
        i < j < path.len() ==> !is_sep(#[trigger] path[j])
}

/// The sibling storage folder of the database file: everything up to and
/// including the last path separator, joined with the folder name.  None
/// when the path holds no separator.
pub open spec fn spec_storage_folder(path: Seq<u8>) -> Option<Seq<u8>> {
    if exists|i: int| is_last_sep_at(path, i) {
        let i = choose|i: int| is_last_sep_at(path, i);
        Some(path.take(i + 1) + ascii_bytes("rbx-storage"@))
    } else {
        None
    }
}

/// Computes the storage folder beside the database file.  The result
/// always ends in the storage folder's own name, so it never denotes a
/// bare filesystem root.
pub fn storage_folder_of(path: &[u8]) -> (r: Option<Vec<u8>>)
    ensures
        match r {
            Some(v) => spec_storage_folder(path@) == Some(v@) && v@.len() >= 12 && v@.skip(
                v@.len() - 11,
            ) == ascii_bytes("rbx-storage"@),
            None => spec_storage_folder(path@) is None,
        },
{
    proof {
        reveal_strlit("rbx-storage");
        assert(is_ascii_chars("rbx-storage"@));
        assert(ascii_bytes("rbx-storage"@).len() == 11);
    }
    let name = str_bytes("rbx-storage");
    let n = path.len();
    let mut k: usize = n;
    while k > 0
        invariant
            0 <= k <= n == path@.len(),
            name@ == ascii_bytes("rbx-storage"@),
            name@.len() == 11,
            forall|j: int| k <= j < n ==> !is_sep(#[trigger] path@[j]),
        decreases k,
    {
        k = k - 1;
        let b = path[k];
        if b == 47 || b == 92 {
            proof {
                assert(is_sep(path@[k as int]));
                assert(is_last_sep_at(path@, k as int));
                let c = choose|i: int| is_last_sep_at(path@, i);
                if c != k as int {
                    if c < k as int {
                        assert(!is_sep(path@[k as int]));
                    } else {
                        assert(!is_sep(path@[c]));
                    }
                }
            }
            let mut out: Vec<u8> = Vec::new();
            push_range(&mut out, path, 0, k + 1);
            push_range(&mut out, name, 0, name.len());
            proof {
                assert(path@.subrange(0, k as int + 1) =~= path@.take(k as int + 1));
                assert(name@.subrange(0, name@.len() as int) =~= name@);
                assert(out@ =~= path@.take(k as int + 1) + ascii_bytes("rbx-storage"@));
                assert(out@.skip(out@.len() - 11) =~= ascii_bytes("rbx-storage"@));
            }
            return Some(out);
        }
        proof {
            assert(!is_sep(path@[k as int]));
        }
    }
    proof {
        assert(forall|i: int| !is_last_sep_at(path@, i));
    }
    None
}

} // verus!
