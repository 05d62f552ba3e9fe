//! Paths as the widget and the bridge use them: joining a directory and a
//! name, the socket location, asset lookup, and a path's extension. Paths are
//! Unix paths with `/` as the separator.

use vstd::prelude::*;
use vstd::string::*;
use crate::text::{chars_of, decimal, decimal_text};

verus! {

/// `part` appended to `base` as `PathBuf::join` does on Unix: an absolute
/// `part` replaces `base`; otherwise a `/` goes between them unless `base` is
/// empty or already ends with one.
pub open spec fn path_join(base: Seq<char>, part: Seq<char>) -> Seq<char> {
    if part.len() > 0 && part[0] == '/' {
        part
    } else if base.len() == 0 || base.last() == '/' {
        base + part
    } else {
        base + seq!['/'] + part
    }
}

/// Joins `part` onto `base` (see [`path_join`]).
pub fn join_path(base: &str, part: &str) -> (joined: String)
    ensures
        joined@ == path_join(base@, part@),
{
    let part_len = part.unicode_len();
    if part_len > 0 && part.get_char(0) == '/' {
        return String::from_str(part);
    }
    let base_len = base.unicode_len();
    let mut out = String::from_str(base);
    if base_len > 0 && base.get_char(base_len - 1) != '/' {
        proof {
            reveal_strlit("/");
        }
        out.append("/");
    }
    out.append(part);
    out
}

/// File name of the widget's socket inside a runtime directory.
pub open spec fn socket_file_name() -> Seq<char> {
    "kaomoji-widget.sock"@
}

/// Where the widget listens and the bridge connects on Unix: the socket file
/// inside `runtime_dir` (the value of `XDG_RUNTIME_DIR`) when there is one,
/// else `/tmp/kaomoji-widget-<uid>.sock` for the user `uid`.
pub open spec fn socket_location(runtime_dir: Option<Seq<char>>, uid: u32) -> Seq<char> {
    match runtime_dir {
        Some(dir) => path_join(dir, socket_file_name()),
        None => "/tmp/kaomoji-widget-"@ + decimal(uid as nat) + ".sock"@,
    }
}

/// The Unix socket path shared by both sides (see [`socket_location`]).
pub fn socket_path(runtime_dir: Option<&str>, uid: u32) -> (path: String)
    ensures
        path@ == socket_location(
            match runtime_dir {
                Some(d) => Some(d@),
                None => None,
            },
            uid,
        ),
{
    match runtime_dir {
        Some(dir) => join_path(dir, "kaomoji-widget.sock"),
        None => {
            let mut path = String::from_str("/tmp/kaomoji-widget-");
            let digits = decimal_text(uid as u64);
            path.append(digits.as_str());
            path.append(".sock");
            path
        },
    }
}

/// The path to try for the asset `name`: `name` joined onto the assets
/// directory, or `None` when no assets directory is configured. Whether the
/// file exists is for the caller to check.
pub fn resolve_asset_path(assets_dir: Option<&str>, name: &str) -> (path: Option<String>)
    ensures
        match assets_dir {
            Some(dir) => path is Some && path->0@ == path_join(dir@, name@),
            None => path is None,
        },
{
    match assets_dir {
        Some(dir) => Some(join_path(dir, name)),
        None => None,
    }
}

/// The assets directory used when `KAOMOJI_ASSETS_DIR` names no existing
/// directory: `assets/kaomoji-pack` under the working directory `cwd`.
pub open spec fn default_assets_location(cwd: Seq<char>) -> Seq<char> {
    path_join(path_join(cwd, "assets"@), "kaomoji-pack"@)
}

/// The fallback assets directory under `cwd` (see [`default_assets_location`]);
/// whether it exists is for the caller to check.
pub fn default_assets_dir(cwd: &str) -> (dir: String)
    ensures
        dir@ == default_assets_location(cwd@),
{
    let assets = join_path(cwd, "assets");
    join_path(assets.as_str(), "kaomoji-pack")
}

/// `p` without trailing separators and trailing `/.` components, which do
/// not change what the path's last component is.
pub open spec fn trim_tail(p: Seq<char>) -> Seq<char>
    decreases p.len(),
{
    if p.len() > 0 && p.last() == '/' {
        trim_tail(p.drop_last())
    } else if p.len() >= 2 && p.last() == '.' && p[p.len() - 2] == '/' {
        trim_tail(p.drop_last())
    } else {
        p
    }
}

/// The index of the last `c` in `s`, or -1 when there is none.
pub open spec fn last_index_of(s: Seq<char>, c: char) -> int
    decreases s.len(),
{
    if s.len() == 0 {
        -1
    } else if s.last() == c {
        s.len() - 1
    } else {
        last_index_of(s.drop_last(), c)
    }
}

/// The last component of `p`, as `Path::file_name` gives it: `None` when the
/// path is empty, is a root, or ends in `.` or `..`.
pub open spec fn file_name_of(p: Seq<char>) -> Option<Seq<char>> {
    let t = trim_tail(p);
    let name = t.skip(last_index_of(t, '/') + 1);
    if name.len() == 0 || name == seq!['.'] || name == seq!['.', '.'] {
        None
    } else {
        Some(name)
    }
}

/// The extension of `p`, as `Path::extension` gives it: what follows the
/// last `.` of the file name, or `None` when the file name has no `.` other
/// than a leading one.
pub open spec fn extension_of(p: Seq<char>) -> Option<Seq<char>> {
    match file_name_of(p) {
        None => None,
        Some(name) => {
            let k = last_index_of(name, '.');
            if k <= 0 {
                None
            } else {
                Some(name.skip(k + 1))
            }
        },
    }
}

proof fn lemma_last_index_of(s: Seq<char>, c: char, j: int)
    requires
        -1 <= j < s.len(),
        j >= 0 ==> s[j] == c,
        forall|q: int| j < q < s.len() ==> s[q] != c,
    ensures
        last_index_of(s, c) == j,
    decreases s.len(),
{
    if s.len() > 0 && s.last() != c {
        lemma_last_index_of(s.drop_last(), c, j);
    }
}

/// The extension of `path` (see [`extension_of`]).
pub fn path_extension(path: &str) -> (ext: Option<String>)
    ensures
        match extension_of(path@) {
            Some(e) => ext is Some && ext->0@ == e,
            None => ext is None,
        },
{
    let cs = chars_of(path);
    let ghost p = path@;
    let mut e: usize = cs.len();
    assert(p.take(e as int) =~= p);
    while e > 0
        invariant
            cs@ == p,
            e <= p.len(),
            trim_tail(p.take(e as int)) == trim_tail(p),
        ensures
            trim_tail(p.take(e as int)) == p.take(e as int),
        decreases e,
    {
        let ghost t = p.take(e as int);
        if cs[e - 1] == '/' {
            assert(t.drop_last() =~= p.take(e - 1));
            e = e - 1;
        } else if e >= 2 && cs[e - 1] == '.' && cs[e - 2] == '/' {
            assert(t.drop_last() =~= p.take(e - 1));
            e = e - 1;
        } else {
            assert(t.last() == cs@[e - 1]);
            assert(e >= 2 ==> t[t.len() - 2] == cs@[e - 2]);
            break;
        }
    }
    let ghost t = p.take(e as int);
    let mut j: usize = e;
    while j > 0 && cs[j - 1] != '/'
        invariant
            cs@ == p,
            j <= e <= p.len(),
            forall|q: int| j <= q < e ==> p[q] != '/',
        decreases j,
    {
        j = j - 1;
    }
    proof {
        lemma_last_index_of(t, '/', j - 1);
        assert(t.skip(j as int) =~= p.subrange(j as int, e as int));
    }
    let ghost name = p.subrange(j as int, e as int);
    if e == j {
        return None;
    }
    if e - j == 1 && cs[j] == '.' {
        assert(name =~= seq!['.']);
        return None;
    }
    if e - j == 2 && cs[j] == '.' && cs[j + 1] == '.' {
        assert(name =~= seq!['.', '.']);
        return None;
    }
    assert(name.len() != 0);
    assert(name != seq!['.']) by {
        if name.len() == 1 {
            assert(name[0] == cs@[j as int]);
        }
    }
    assert(name != seq!['.', '.']) by {
        if name.len() == 2 {
            assert(name[0] == cs@[j as int]);
            assert(name[1] == cs@[j + 1]);
        }
    }
    let mut d: usize = e;
    while d > j && cs[d - 1] != '.'
        invariant
            cs@ == p,
            j <= d <= e <= p.len(),
            forall|q: int| d <= q < e ==> p[q] != '.',
        decreases d,
    {
        d = d - 1;
    }
    proof {
        lemma_last_index_of(name, '.', d - 1 - j);
    }
    if d <= j + 1 {
        return None;
    }
    let sub = path.substring_char(d, e);
    assert(name.skip(d - j) =~= p.subrange(d as int, e as int));
    Some(String::from_str(sub))
}


/// A joined path always ends with the part that was joined on, so an asset
/// path ends with the asset's name.
pub proof fn law_join_ends_with_part(base: Seq<char>, part: Seq<char>)
    ensures
        path_join(base, part).len() >= part.len(),
        path_join(base, part).skip(path_join(base, part).len() - part.len()) == part,
{
    let j = path_join(base, part);
    assert(j.skip(j.len() - part.len()) =~= part);
}

/// Users without a runtime directory get different socket paths, so two
/// users' widgets never share a socket.
pub proof fn law_socket_per_user(uid1: u32, uid2: u32)
    requires
        uid1 != uid2,
    ensures
        socket_location(None, uid1) != socket_location(None, uid2),
{
    let p1 = socket_location(None, uid1);
    let p2 = socket_location(None, uid2);
    let d1 = decimal(uid1 as nat);
    let d2 = decimal(uid2 as nat);
    crate::text::lemma_decimal_roundtrip(uid1 as nat);
    crate::text::lemma_decimal_roundtrip(uid2 as nat);
    let pre = "/tmp/kaomoji-widget-"@;
    let suf = ".sock"@;
    if p1 == p2 {
        assert(p1.subrange(pre.len() as int, p1.len() - suf.len()) =~= d1);
        assert(p2.subrange(pre.len() as int, p2.len() - suf.len()) =~= d2);
        assert(d1 == d2);
    }
}

/// An extension is a piece of the last component after its last dot: it
/// holds neither a separator nor a dot.
pub proof fn law_extension_has_no_dot_or_separator(p: Seq<char>)
    requires
        extension_of(p) is Some,
    ensures
        !extension_of(p)->0.contains('.'),
        !extension_of(p)->0.contains('/'),
{
    let t = trim_tail(p);
    let s = last_index_of(t, '/');
    lemma_last_index_of_bounds(t, '/');
    let name = t.skip(s + 1);
    lemma_last_index_of_bounds(name, '.');
    let k = last_index_of(name, '.');
    let e = name.skip(k + 1);
    assert forall|q: int| 0 <= q < e.len() implies e[q] != '.' && e[q] != '/' by {
        assert(e[q] == name[k + 1 + q]);
        assert(name[k + 1 + q] == t[s + 1 + k + 1 + q]);
    }
}

proof fn lemma_last_index_of_bounds(s: Seq<char>, c: char)
    ensures
        -1 <= last_index_of(s, c) < s.len(),
        last_index_of(s, c) >= 0 ==> s[last_index_of(s, c)] == c,
        forall|q: int| last_index_of(s, c) < q < s.len() ==> s[q] != c,
    decreases s.len(),
{
    if s.len() > 0 && s.last() != c {
        lemma_last_index_of_bounds(s.drop_last(), c);
        assert forall|q: int| last_index_of(s, c) < q < s.len() implies s[q] != c by {
            if q < s.len() - 1 {
                assert(s[q] == s.drop_last()[q]);
            }
        }
    }
}

/// The extension of a file `stem.e` in directory `dir` is `e`: whatever the
/// directory, for a non-empty stem without separators and an `e` without
/// dots or separators (a file named `..` has no extension).
pub proof fn law_extension_of_file(dir: Seq<char>, stem: Seq<char>, e: Seq<char>)
    requires
        stem.len() > 0,
        !stem.contains('/'),
        !e.contains('/'),
        !e.contains('.'),
        !(stem == seq!['.'] && e.len() == 0),
    ensures
        extension_of(dir + seq!['/'] + stem + seq!['.'] + e) == Some(e),
{
    let name = stem + seq!['.'] + e;
    let p = dir + seq!['/'] + name;
    assert(p =~= dir + seq!['/'] + stem + seq!['.'] + e);
    let n = p.len();
    // Nothing to trim: the path ends in a character of `e`, or in the dot
    // that follows the stem's last character, which is not a separator.
    assert(p.last() != '/') by {
        if e.len() > 0 {
            assert(p.last() == e.last());
            assert(e.contains(e.last()));
        } else {
            assert(p.last() == '.');
        }
    }
    assert(!(n >= 2 && p.last() == '.' && p[n - 2] == '/')) by {
        if p.last() == '.' {
            if e.len() > 0 {
                assert(p.last() == e.last());
                assert(e.contains(e.last()));
            } else {
                assert(p[n - 2] == stem.last());
                assert(stem.contains(stem.last()));
            }
        }
    }
    assert(trim_tail(p) == p);
    assert forall|q: int| dir.len() < q < n implies p[q] != '/' by {
        let k = q - dir.len() - 1;
        assert(p[q] == name[k]);
        if k < stem.len() {
            assert(name[k] == stem[k]);
            assert(stem.contains(stem[k]));
        } else if k > stem.len() {
            assert(name[k] == e[k - stem.len() - 1]);
            assert(e.contains(e[k - stem.len() - 1]));
        }
    }
    lemma_last_index_of(p, '/', dir.len() as int);
    assert(p.skip(dir.len() + 1int) =~= name);
    assert(name.len() >= 2);
    assert(name != seq!['.', '.']) by {
        if name =~= seq!['.', '.'] {
            assert(stem.len() == 1 && e.len() == 0);
            assert(stem[0] == name[0]);
            assert(stem =~= seq!['.']);
        }
    }
    assert forall|q: int| stem.len() < q < name.len() implies name[q] != '.' by {
        assert(name[q] == e[q - stem.len() - 1]);
        assert(e.contains(e[q - stem.len() - 1]));
    }
    lemma_last_index_of(name, '.', stem.len() as int);
    assert(name.skip(stem.len() + 1int) =~= e);
}

} // verus!
