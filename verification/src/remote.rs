//! Paths of the encrypted files on the drive and of downloaded files on
//! disk.

use crate::text::{decimal, decimal_spec, lemma_decimal_injective};
use onedrive_api::ItemLocation;
use vstd::prelude::*;
use vstd::string::*;

verus! {

/// The folder of the drive that holds the encrypted files.
pub const REMOTE_FOLDER: &'static str = "/encrypted";

/// The folder of the drive that holds the encrypted files.
pub open spec fn remote_folder() -> Seq<char> {
    REMOTE_FOLDER@
}

/// A character that OneDrive does not accept in a file name (other than
/// `/`, which separates names).
pub open spec fn forbidden_in_name(c: char) -> bool {
    c == '"' || c == '*' || c == ':' || c == '<' || c == '>' || c == '?' || c == '\\' || c == '|'
}

/// A path that `ItemLocation::from_path` accepts: `/`-started, no empty
/// component (no `//`), and no character that OneDrive forbids in names. A
/// trailing `/` is allowed.
pub open spec fn valid_item_path(p: Seq<char>) -> bool {
    &&& p.len() >= 1
    &&& p[0] == '/'
    &&& forall|i: int| 0 <= i < p.len() - 1 ==> !(#[trigger] p[i] == '/' && p[i + 1] == '/')
    &&& forall|i: int| 0 <= i < p.len() ==> !forbidden_in_name(#[trigger] p[i])
}

/// `onedrive_api::ItemLocation::from_path(path).is_some()`. Claimed, as
/// onedrive-api 0.11 shows: the path is accepted exactly when it is `/`, or
/// starts with `/` and each of its `/`-separated components (a trailing `/`
/// aside) is non-empty and free of the characters `"*:<>?\|`.
#[verifier::external_body]
fn item_path_accepted(path: &str) -> (ok: bool)
    ensures
        ok == valid_item_path(path@),
{
    ItemLocation::from_path(path).is_some()
}

/// The drive path of the encrypted file called `name`.
pub open spec fn encrypted_path_spec(name: Seq<char>) -> Seq<char> {
    remote_folder() + "/"@ + name
}

/// The drive path of a file is the folder `/encrypted`, a `/`, and the whole
/// name of the file.
pub proof fn lemma_encrypted_path_layout(name: Seq<char>)
    ensures
        encrypted_path_spec(name) == "/encrypted"@ + "/"@ + name,
        encrypted_path_spec(name).skip(11) == name,
{
    assert(REMOTE_FOLDER@ == "/encrypted"@);
    reveal_strlit("/encrypted");
    reveal_strlit("/");
    assert(encrypted_path_spec(name).skip(11) =~= name);
}

/// Different file names are stored at different drive paths, so no upload
/// lands on the path of another name.
pub proof fn lemma_encrypted_paths_distinct(a: Seq<char>, b: Seq<char>)
    requires
        a != b,
    ensures
        encrypted_path_spec(a) != encrypted_path_spec(b),
{
    lemma_encrypted_path_layout(a);
    lemma_encrypted_path_layout(b);
}

/// The drive path of the encrypted file called `name`, when the drive
/// accepts it as a path; `None` where it does not (a name with a character
/// that OneDrive forbids, or a leading or doubled `/`).
pub fn encrypted_item_path(name: &str) -> (p: Option<String>)
    ensures
        valid_item_path(encrypted_path_spec(name@)) ==> (p matches Some(q) && q@
            == encrypted_path_spec(name@)),
        !valid_item_path(encrypted_path_spec(name@)) ==> p is None,
        p matches Some(q) ==> q@ == "/encrypted"@ + "/"@ + name@,
        (p is Some) == valid_item_path("/encrypted"@ + "/"@ + name@),
{
    let mut path = String::from_str(REMOTE_FOLDER);
    path.append("/");
    path.append(name);
    assert(path@ =~= encrypted_path_spec(name@));
    proof {
        lemma_encrypted_path_layout(name@);
    }
    if item_path_accepted(path.as_str()) {
        Some(path)
    } else {
        None
    }
}

/// What `std::path::Path::file_name` gives for `path`: its final component,
/// or none where the path ends in `..` or is a root.
pub uninterp spec fn path_file_name(path: Seq<char>) -> Option<Seq<char>>;

/// `std::path::Path::new(path).file_name()`, taken as a `String`. Claimed:
/// the result named by `path_file_name`, and, as the documentation of
/// `Path::file_name` says, a final component: non-empty and free of `/`.
#[verifier::external_body]
fn file_name_of(path: &str) -> (name: Option<String>)
    ensures
        name matches Some(n) ==> path_file_name(path@) == Some(n@),
        name is None ==> path_file_name(path@) is None,
        name matches Some(n) ==> n@.len() > 0 && !n@.contains('/'),
{
    match std::path::Path::new(path).file_name() {
        Some(n) => Some(n.to_string_lossy().into_owned()),
        None => None,
    }
}

/// The name under which a local file at `local_path` is uploaded: its final
/// path component; `None` where it has none (a path ending in `..`).
pub fn upload_file_name(local_path: &str) -> (name: Option<String>)
    ensures
        name matches Some(n) ==> path_file_name(local_path@) == Some(n@),
        name is None ==> path_file_name(local_path@) is None,
{
    file_name_of(local_path)
}

/// Index of the last `.` in `s`, or -1 where there is none.
pub open spec fn last_dot(s: Seq<char>) -> int
    decreases s.len(),
{
    if s.len() == 0 {
        -1
    } else if s.last() == '.' {
        s.len() - 1
    } else {
        last_dot(s.drop_last())
    }
}

proof fn lemma_last_dot_bounds(s: Seq<char>)
    ensures
        -1 <= last_dot(s) < s.len(),
        last_dot(s) >= 0 ==> s[last_dot(s)] == '.',
        forall|k: int| last_dot(s) < k < s.len() ==> s[k] != '.',
    decreases s.len(),
{
    if s.len() > 0 && s.last() != '.' {
        lemma_last_dot_bounds(s.drop_last());
        let t = s.drop_last();
        assert forall|k: int| last_dot(s) < k < s.len() implies s[k] != '.' by {
            if k < t.len() {
                assert(s[k] == t[k]);
            }
        }
    }
}

/// The stem and extension of a file name, as `Path::file_stem` and
/// `Path::extension` split it: at the last `.`, unless the name has no `.`,
/// has its only `.` first, or is `..`; then the stem is the whole name and
/// there is no extension.
pub open spec fn stem_and_extension(name: Seq<char>) -> (Seq<char>, Option<Seq<char>>) {
    let k = last_dot(name);
    if name == ".."@ || k <= 0 {
        (name, None)
    } else {
        (name.take(k), Some(name.skip(k + 1)))
    }
}

/// A file name with an extension is its stem, a `.`, and its extension,
/// with a non-empty stem and no `.` in the extension; a name without one is
/// `..` or has no `.` after its first character, and its stem is the whole
/// name.
pub proof fn lemma_stem_and_extension(name: Seq<char>)
    ensures
        stem_and_extension(name).1 matches Some(e) ==> name == stem_and_extension(name).0 + "."@
            + e && stem_and_extension(name).0.len() > 0 && !e.contains('.'),
        stem_and_extension(name).1 is None ==> stem_and_extension(name).0 == name && (name
            == ".."@ || forall|i: int| 0 < i < name.len() ==> name[i] != '.'),
{
    lemma_last_dot_bounds(name);
    reveal_strlit(".");
    let k = last_dot(name);
    if name != ".."@ && k > 0 {
        let e = name.skip(k + 1);
        assert(name =~= name.take(k) + "."@ + e);
        assert forall|j: int| 0 <= j < e.len() implies e[j] != '.' by {
            assert(e[j] == name[k + 1 + j]);
        }
    }
}

/// Splits a file name into stem and extension at its last `.`.
pub fn split_extension(name: &str) -> (parts: (String, Option<String>))
    ensures
        parts.0@ == stem_and_extension(name@).0,
        parts.1 matches Some(e) ==> stem_and_extension(name@).1 == Some(e@),
        parts.1 is None ==> stem_and_extension(name@).1 is None,
        parts.1 matches Some(e) ==> name@ == parts.0@ + "."@ + e@ && parts.0@.len() > 0
            && !e@.contains('.'),
        parts.1 is None ==> parts.0@ == name@ && (name@ == ".."@ || forall|i: int|
            0 < i < name@.len() ==> name@[i] != '.'),
{
    let n = name.unicode_len();
    let mut k: usize = n;
    while k > 0 && name.get_char(k - 1) != '.'
        invariant
            n == name@.len(),
            k <= n,
            forall|j: int| k <= j < n ==> name@[j] != '.',
        decreases k,
    {
        k = k - 1;
    }
    proof {
        lemma_last_dot_bounds(name@);
        lemma_last_dot_is(name@, k as int - 1);
        reveal_strlit("..");
    }
    let is_parent = n == 2 && name.get_char(0) == '.' && name.get_char(1) == '.';
    assert(is_parent == (name@ == ".."@)) by {
        if name@ == ".."@ {
            assert(name@[0] == '.' && name@[1] == '.');
        }
        if is_parent {
            assert(name@ =~= ".."@);
        }
    }
    proof {
        lemma_stem_and_extension(name@);
    }
    if is_parent || k <= 1 {
        (String::from_str(name), None)
    } else {
        let stem = String::from_str(name.substring_char(0, k - 1));
        let ext = String::from_str(name.substring_char(k, n));
        assert(stem@ =~= name@.take(k - 1));
        assert(ext@ =~= name@.skip(k as int));
        (stem, Some(ext))
    }
}

proof fn lemma_last_dot_is(s: Seq<char>, d: int)
    requires
        -1 <= d < s.len(),
        d >= 0 ==> s[d] == '.',
        forall|j: int| d < j < s.len() ==> s[j] != '.',
    ensures
        last_dot(s) == d,
    decreases s.len(),
{
    if s.len() > 0 && d < s.len() - 1 {
        let t = s.drop_last();
        assert forall|j: int| d < j < t.len() implies t[j] != '.' by {
            assert(t[j] == s[j]);
        }
        if d >= 0 {
            assert(t[d] == s[d]);
        }
        lemma_last_dot_is(t, d);
    }
}

/// The first path tried for a download: the file name in the downloads
/// directory.
pub open spec fn download_target_spec(downloads: Seq<char>, file_name: Seq<char>) -> Seq<char> {
    downloads + "/"@ + file_name
}

/// The path tried for a download after `index + 1` taken paths: stem, `_`,
/// the index and the extension of the first path's file name, in the
/// downloads directory. None where that file name has no extension.
pub open spec fn numbered_target_spec(
    downloads: Seq<char>,
    first_target: Seq<char>,
    index: nat,
) -> Option<Seq<char>> {
    match path_file_name(first_target) {
        None => None,
        Some(name) => match stem_and_extension(name).1 {
            None => None,
            Some(ext) => Some(
                downloads + "/"@ + stem_and_extension(name).0 + "_"@ + decimal_spec(index) + "."@
                    + ext,
            ),
        },
    }
}

/// Different indexes give different numbered download paths, so the search
/// for a free path never tries the same numbered path twice.
pub proof fn lemma_numbered_targets_distinct(
    downloads: Seq<char>,
    first_target: Seq<char>,
    i: nat,
    j: nat,
)
    requires
        i != j,
        numbered_target_spec(downloads, first_target, i) is Some,
    ensures
        numbered_target_spec(downloads, first_target, j) is Some,
        numbered_target_spec(downloads, first_target, i) != numbered_target_spec(
            downloads,
            first_target,
            j,
        ),
{
    let name = path_file_name(first_target)->0;
    let stem = stem_and_extension(name).0;
    let ext = stem_and_extension(name).1->0;
    let head = downloads + "/"@ + stem + "_"@;
    let tail = "."@ + ext;
    let a = head + decimal_spec(i) + tail;
    let b = head + decimal_spec(j) + tail;
    assert(numbered_target_spec(downloads, first_target, i) == Some(a)) by {
        assert(a =~= downloads + "/"@ + stem + "_"@ + decimal_spec(i) + "."@ + ext);
    }
    assert(numbered_target_spec(downloads, first_target, j) == Some(b)) by {
        assert(b =~= downloads + "/"@ + stem + "_"@ + decimal_spec(j) + "."@ + ext);
    }
    if a == b {
        let di = decimal_spec(i);
        let dj = decimal_spec(j);
        assert(a.len() == head.len() + di.len() + tail.len());
        assert(b.len() == head.len() + dj.len() + tail.len());
        assert(a.len() == b.len());
        assert(di.len() == dj.len());
        assert(di =~= a.subrange(head.len() as int, (head.len() + di.len()) as int));
        assert(dj =~= b.subrange(head.len() as int, (head.len() + dj.len()) as int));
        lemma_decimal_injective(i, j);
    }
}

/// A numbered download path keeps the whole stem and the whole extension of
/// the first path's file name: it is the downloads directory, `/`, the part
/// of the name before its last `.`, `_`, the index in decimal, `.`, and
/// everything after that last `.`.
pub proof fn lemma_numbered_target_layout(downloads: Seq<char>, first_target: Seq<char>, index: nat)
    ensures
        numbered_target_spec(downloads, first_target, index) matches Some(q) ==> (path_file_name(
            first_target,
        ) matches Some(name) && exists|k: int|
            0 < k < name.len() && #[trigger] name[k] == '.' && !name.skip(k + 1).contains('.')
                && q == downloads + "/"@ + name.take(k) + "_"@ + decimal_spec(index) + "."@
                + name.skip(k + 1)),
        path_file_name(first_target) matches Some(name) ==> ((numbered_target_spec(
            downloads,
            first_target,
            index,
        ) is Some) <==> (name != ".."@ && exists|k: int| 0 < k < name.len() && #[trigger] name[k] == '.')),
{
    if let Some(name) = path_file_name(first_target) {
        lemma_stem_and_extension(name);
        reveal_strlit(".");
        if let Some(e) = stem_and_extension(name).1 {
            let stem = stem_and_extension(name).0;
            let k = stem.len() as int;
            assert(name.take(k) =~= stem);
            assert(name.skip(k + 1) =~= e);
            assert(name[k] == '.');
        }
    }
}

/// The path a download is first saved to: `downloads/file_name`.
pub fn download_target(downloads: &str, file_name: &str) -> (p: String)
    ensures
        p@ == download_target_spec(downloads@, file_name@),
        p@ == downloads@ + "/"@ + file_name@,
{
    let mut p = String::from_str(downloads);
    p.append("/");
    p.append(file_name);
    p
}

/// The path a download is saved to when the first path and the numbered
/// paths before `index` are taken: `downloads/stem_index.ext`, where stem
/// and extension are those of the first path's file name. `None` where that
/// file name has no extension, or where there is none.
pub fn numbered_download_target(downloads: &str, first_target: &str, index: u32) -> (p: Option<
    String,
>)
    ensures
        p matches Some(q) ==> numbered_target_spec(downloads@, first_target@, index as nat) == Some(
            q@,
        ),
        p is None ==> numbered_target_spec(downloads@, first_target@, index as nat) is None,
        p matches Some(q) ==> (path_file_name(first_target@) matches Some(name) && exists|k: int|
            0 < k < name.len() && #[trigger] name[k] == '.' && !name.skip(k + 1).contains('.')
                && q@ == downloads@ + "/"@ + name.take(k) + "_"@ + decimal_spec(index as nat)
                + "."@ + name.skip(k + 1)),
        p is None ==> (path_file_name(first_target@) matches None || (path_file_name(
            first_target@,
        ) matches Some(name) && (name == ".."@ || forall|i: int|
            0 < i < name.len() ==> name[i] != '.'))),
{
    match file_name_of(first_target) {
        None => None,
        Some(name) => {
            let (stem, ext) = split_extension(name.as_str());
            match ext {
                None => None,
                Some(ext) => {
                    let mut p = String::from_str(downloads);
                    p.append("/");
                    p.append(stem.as_str());
                    p.append("_");
                    let digits = decimal(index);
                    p.append(digits.as_str());
                    p.append(".");
                    p.append(ext.as_str());
                    proof {
                        let k = stem@.len() as int;
                        let nm = name@;
                        reveal_strlit(".");
                        assert(nm.take(k) =~= stem@);
                        assert(nm.skip(k + 1) =~= ext@);
                        assert(nm[k] == '.');
                        assert(0 < k < nm.len() && nm[k] == '.' && !nm.skip(k + 1).contains('.')
                            && p@ == downloads@ + "/"@ + nm.take(k) + "_"@ + decimal_spec(
                            index as nat,
                        ) + "."@ + nm.skip(k + 1));
                    }
                    Some(p)
                },
            }
        },
    }
}

} // verus!
