//! Finding the game through Steam: the library folders that Steam lists in
//! `steamapps/libraryfolders.vdf`, and the places where the game may stand.
use vstd::prelude::*;

use crate::text::{
    all_whitespace, chars_of, is_all_whitespace, lemma_split_on_joined, split_chars, split_on,
    string_of_chars, trim, trim_chars,
};

verus! {

/// Pieces of `parts` that hold something besides white space, in order.
pub open spec fn non_blank(parts: Seq<Seq<char>>) -> Seq<Seq<char>>
    decreases parts.len(),
{
    if parts.len() == 0 {
        Seq::empty()
    } else {
        let rest = non_blank(parts.drop_last());
        if trim(parts.last()).len() == 0 {
            rest
        } else {
            rest.push(parts.last())
        }
    }
}

/// `k` is `path` up to ASCII case (`eq_ignore_ascii_case("path")`).
pub open spec fn is_path_key(k: Seq<char>) -> bool {
    &&& k.len() == 4
    &&& (k[0] == 'p' || k[0] == 'P')
    &&& (k[1] == 'a' || k[1] == 'A')
    &&& (k[2] == 't' || k[2] == 'T')
    &&& (k[3] == 'h' || k[3] == 'H')
}

/// `s` with each pair of backslashes, taken from left to right, made one
/// (`replace("\\\\", "\\")`).
pub open spec fn unescape(s: Seq<char>) -> Seq<char>
    decreases s.len(),
{
    if s.len() == 0 {
        Seq::empty()
    } else if s.len() >= 2 && s[0] == '\\' && s[1] == '\\' {
        seq!['\\'] + unescape(s.skip(2))
    } else {
        seq![s[0]] + unescape(s.skip(1))
    }
}

/// The path that a line of `libraryfolders.vdf` gives, if it gives one: the
/// line is trimmed and cut at its quotes; of the pieces that are not blank,
/// the first is the key and the second the value.
pub open spec fn line_path(line: Seq<char>) -> Option<Seq<char>> {
    let parts = non_blank(split_on(trim(line), '"'));
    if parts.len() >= 2 && is_path_key(parts[0]) {
        Some(unescape(parts[1]))
    } else {
        None
    }
}

/// The paths given by `lines`, in order.
pub open spec fn paths_of_lines(lines: Seq<Seq<char>>) -> Seq<Seq<char>>
    decreases lines.len(),
{
    if lines.len() == 0 {
        Seq::empty()
    } else {
        let rest = paths_of_lines(lines.drop_last());
        match line_path(lines.last()) {
            Some(p) => rest.push(p),
            None => rest,
        }
    }
}

/// The values of the `path` keys of a `libraryfolders.vdf` text, in order.
/// Lines end at `\n`; a `\r` before it is white space that trimming removes.
pub open spec fn vdf_paths(content: Seq<char>) -> Seq<Seq<char>> {
    paths_of_lines(split_on(content, '\n'))
}

/// The paths of lines taken one after the other are the paths of each part.
proof fn lemma_paths_of_joined_lines(first: Seq<Seq<char>>, second: Seq<Seq<char>>)
    ensures
        paths_of_lines(first + second) == paths_of_lines(first) + paths_of_lines(second),
    decreases second.len(),
{
    if second.len() == 0 {
        assert(first + second =~= first);
        assert(paths_of_lines(first) + paths_of_lines(second) =~= paths_of_lines(first));
    } else {
        lemma_paths_of_joined_lines(first, second.drop_last());
        assert((first + second).drop_last() =~= first + second.drop_last());
        let left = paths_of_lines(first);
        let right = paths_of_lines(second.drop_last());
        match line_path(second.last()) {
            Some(p) => assert((left + right).push(p) =~= left + right.push(p)),
            None => {},
        }
    }
}

/// Each line of `libraryfolders.vdf` is read on its own: the paths of two
/// texts joined by a line break are the paths of the first, then those of
/// the second.
pub proof fn law_vdf_lines_read_apart(first: Seq<char>, second: Seq<char>)
    ensures
        vdf_paths(first + seq!['\n'] + second) == vdf_paths(first) + vdf_paths(second),
{
    lemma_split_on_joined(first, second, '\n');
    lemma_paths_of_joined_lines(split_on(first, '\n'), split_on(second, '\n'));
}

pub open spec fn vec_views(v: Seq<Vec<char>>) -> Seq<Seq<char>> {
    v.map_values(|p: Vec<char>| p@)
}

/// Whether `s` holds nothing but white space once trimmed.
fn is_blank(s: &Vec<char>) -> (r: bool)
    ensures
        r == (trim(s@).len() == 0),
{
    let b = is_all_whitespace(s);
    proof {
        if !b {
            let a = choose|i: int| 0 <= i < s@.len() && !crate::text::is_whitespace_spec(s@[i]);
            lemma_solid_bounds(s@, a);
        }
    }
    b
}

/// A string with a character that is not white space keeps it when trimmed.
proof fn lemma_solid_bounds(s: Seq<char>, i: int)
    requires
        0 <= i < s.len(),
        !crate::text::is_whitespace_spec(s[i]),
    ensures
        trim(s).len() > 0,
{
    assert(!all_whitespace(s));
    lemma_first_solid_exists(s, i);
    lemma_last_solid_exists(s, i);
    let a = choose|a: int| crate::text::first_solid_at(s, a);
    let b = choose|b: int| crate::text::last_solid_at(s, b);
    assert(crate::text::first_solid_at(s, a));
    assert(crate::text::last_solid_at(s, b));
    if b < a {
        assert(crate::text::is_whitespace_spec(s[a]));
    }
}

proof fn lemma_first_solid_exists(s: Seq<char>, i: int)
    requires
        0 <= i < s.len(),
        !crate::text::is_whitespace_spec(s[i]),
    ensures
        exists|a: int| crate::text::first_solid_at(s, a),
    decreases i,
{
    if forall|j: int| 0 <= j < i ==> crate::text::is_whitespace_spec(#[trigger] s[j]) {
        assert(crate::text::first_solid_at(s, i));
    } else {
        let j = choose|j: int| 0 <= j < i && !crate::text::is_whitespace_spec(#[trigger] s[j]);
        lemma_first_solid_exists(s, j);
    }
}

proof fn lemma_last_solid_exists(s: Seq<char>, i: int)
    requires
        0 <= i < s.len(),
        !crate::text::is_whitespace_spec(s[i]),
    ensures
        exists|b: int| crate::text::last_solid_at(s, b),
    decreases s.len() - i,
{
    if forall|j: int| i < j < s.len() ==> crate::text::is_whitespace_spec(#[trigger] s[j]) {
        assert(crate::text::last_solid_at(s, i));
    } else {
        let j = choose|j: int| i < j < s.len() && !crate::text::is_whitespace_spec(#[trigger] s[j]);
        lemma_last_solid_exists(s, j);
    }
}

/// `s` with each pair of backslashes made one.
fn unescape_chars(s: &Vec<char>) -> (r: Vec<char>)
    ensures
        r@ == unescape(s@),
{
    let mut r: Vec<char> = Vec::new();
    let mut i: usize = 0;
    assert(s@.skip(0) =~= s@);
    while i < s.len()
        invariant
            i <= s.len(),
            r@ + unescape(s@.skip(i as int)) == unescape(s@),
        decreases s.len() - i,
    {
        let ghost rest = s@.skip(i as int);
        if i + 1 < s.len() && s[i] == '\\' && s[i + 1] == '\\' {
            r.push('\\');
            assert(rest.skip(2) =~= s@.skip(i + 2));
            assert(r@ + unescape(s@.skip(i + 2)) =~= (r@.drop_last() + seq!['\\']) + unescape(rest.skip(2)));
            i = i + 2;
        } else {
            r.push(s[i]);
            assert(rest.skip(1) =~= s@.skip(i + 1));
            assert(r@ + unescape(s@.skip(i + 1)) =~= (r@.drop_last() + seq![s@[i as int]]) + unescape(rest.skip(1)));
            i = i + 1;
        }
    }
    assert(s@.skip(i as int) =~= Seq::<char>::empty());
    assert(r@ + Seq::<char>::empty() =~= r@);
    r
}

/// The pieces of `parts` that are not blank, in order.
fn non_blank_parts(parts: Vec<Vec<char>>) -> (r: Vec<Vec<char>>)
    ensures
        vec_views(r@) == non_blank(vec_views(parts@)),
{
    let ghost pv = vec_views(parts@);
    let mut r: Vec<Vec<char>> = Vec::new();
    let mut k: usize = 0;
    let mut parts = parts;
    assert(pv.take(0) =~= Seq::<Seq<char>>::empty());
    assert(vec_views(r@) =~= Seq::<Seq<char>>::empty());
    while k < parts.len()
        invariant
            k <= parts.len(),
            pv == vec_views(parts@),
            vec_views(r@) == non_blank(pv.take(k as int)),
        decreases parts.len() - k,
    {
        let blank = is_blank(&parts[k]);
        let ghost before = vec_views(r@);
        assert(pv.take(k + 1).drop_last() =~= pv.take(k as int));
        assert(pv[k as int] == parts@[k as int]@);
        if !blank {
            let p = parts[k].clone();
            r.push(p);
            assert(vec_views(r@) =~= before.push(pv[k as int]));
        }
        k = k + 1;
    }
    assert(pv.take(parts.len() as int) =~= pv);
    r
}

/// The path that a line of `libraryfolders.vdf` gives, if any.
fn line_path_chars(line: &Vec<char>) -> (r: Option<Vec<char>>)
    ensures
        match r {
            Some(p) => line_path(line@) == Some(p@),
            None => line_path(line@) is None,
        },
{
    let t = trim_chars(line);
    let pieces = split_chars(&t, '"');
    let parts = non_blank_parts(pieces);
    if parts.len() >= 2 {
        let key = &parts[0];
        assert(key@ == vec_views(parts@)[0]);
        assert(parts@[1]@ == vec_views(parts@)[1]);
        if key.len() == 4 && (key[0] == 'p' || key[0] == 'P') && (key[1] == 'a' || key[1] == 'A')
            && (key[2] == 't' || key[2] == 'T') && (key[3] == 'h' || key[3] == 'H') {
            return Some(unescape_chars(&parts[1]));
        }
    }
    None
}

/// Extracts the values of the `path` keys from the text of
/// `libraryfolders.vdf`, with doubled backslashes made single.
pub fn parse_vdf_paths(content: &str) -> (r: Vec<String>)
    ensures
        r@.map_values(|s: String| s@) == vdf_paths(content@),
{
    let chars = chars_of(content);
    let lines = split_chars(&chars, '\n');
    let ghost lv = vec_views(lines@);
    let mut out: Vec<String> = Vec::new();
    let mut k: usize = 0;
    assert(lv.take(0) =~= Seq::<Seq<char>>::empty());
    assert(out@.map_values(|s: String| s@) =~= Seq::<Seq<char>>::empty());
    while k < lines.len()
        invariant
            k <= lines.len(),
            lv == vec_views(lines@),
            lv == split_on(content@, '\n'),
            out@.map_values(|s: String| s@) == paths_of_lines(lv.take(k as int)),
        decreases lines.len() - k,
    {
        let ghost before = out@.map_values(|s: String| s@);
        assert(lv.take(k + 1).drop_last() =~= lv.take(k as int));
        assert(lv[k as int] == lines@[k as int]@);
        match line_path_chars(&lines[k]) {
            Some(p) => {
                let s = string_of_chars(&p);
                out.push(s);
                assert(out@.map_values(|s: String| s@) =~= before.push(p@));
            },
            None => {},
        }
        k = k + 1;
    }
    assert(lv.take(lines.len() as int) =~= lv);
    out
}

/// `path` with each `/` made a `\` (`replace('/', "\\")`): Steam writes its
/// own folder with forward slashes in the user's registry.
pub open spec fn with_backslashes(path: Seq<char>) -> Seq<char> {
    path.map_values(|c: char| if c == '/' { '\\' } else { c })
}

/// `path` with each `/` made a `\`.
pub fn windows_separators(path: &str) -> (r: String)
    ensures
        r@ == with_backslashes(path@),
{
    let chars = chars_of(path);
    let mut out: Vec<char> = Vec::new();
    let mut i: usize = 0;
    while i < chars.len()
        invariant
            i <= chars.len(),
            chars@ == path@,
            out@ == with_backslashes(chars@.take(i as int)),
        decreases chars.len() - i,
    {
        let c = chars[i];
        if c == '/' {
            out.push('\\');
        } else {
            out.push(c);
        }
        assert(with_backslashes(chars@.take(i + 1)) =~= with_backslashes(chars@.take(i as int)).push(
            if c == '/' { '\\' } else { c },
        ));
        i = i + 1;
    }
    assert(chars@.take(chars.len() as int) =~= chars@);
    string_of_chars(&out)
}

/// Folder of Steam's data, below a Steam library folder.
pub const STEAMAPPS: &'static str = "steamapps";

/// The list of Steam's library folders, in `steamapps`.
pub const LIBRARY_FOLDERS_VDF: &'static str = "libraryfolders.vdf";

/// Folder of the installed games, in `steamapps`.
pub const COMMON: &'static str = "common";

/// Folder of the game, in `steamapps/common`.
pub const GAME_FOLDER: &'static str = "BROKE PROTOCOL";

/// Where the game stands in a default Steam installation (64-bit Windows).
pub const DEFAULT_GAME_DIR_X86: &'static str =
    "C:\\Program Files (x86)\\Steam\\steamapps\\common\\BROKE PROTOCOL";

/// Where the game stands in a default Steam installation (32-bit Windows).
pub const DEFAULT_GAME_DIR: &'static str = "C:\\Program Files\\Steam\\steamapps\\common\\BROKE PROTOCOL";

/// Whether two paths are the same path: std's `PartialEq` for `Path`,
/// which compares the components of the two paths as the platform splits
/// them (so that `C:\Steam` and `C:/Steam` are one path on Windows, and
/// `/lib/` and `/lib` everywhere). The contract claims only what holds on
/// every platform: a path is the same as itself (`Path` is `Eq`). Which
/// other texts name the same path is left unsaid, as it depends on the
/// platform.
#[verifier::external_body]
fn same_path(a: &str, b: &str) -> (r: bool)
    ensures
        a@ == b@ ==> r,
{
    std::path::Path::new(a) == std::path::Path::new(b)
}

pub open spec fn strings_of(v: Seq<String>) -> Seq<Seq<char>> {
    v.map_values(|s: String| s@)
}

/// The model of a table of answers.
pub open spec fn answers_view(same: Seq<Vec<bool>>) -> Seq<Seq<bool>> {
    same.map_values(|row: Vec<bool>| row@)
}

/// The positions, among the first `n` folders of a list, of the folders that
/// are kept: each folder in turn, unless the answers say that it is the same
/// path as a folder kept before it (`same[a][b]`: folder `a` is the same
/// path as folder `b`).
pub open spec fn kept_positions(same: Seq<Seq<bool>>, n: nat) -> Seq<int>
    decreases n,
{
    if n == 0 {
        Seq::empty()
    } else {
        let before = kept_positions(same, (n - 1) as nat);
        if forall|m: int| 0 <= m < before.len() ==> !#[trigger] same[before[m]][n - 1] {
            before.push(n - 1)
        } else {
            before
        }
    }
}

/// The folders at the kept positions, in order.
pub open spec fn kept_folders(folders: Seq<Seq<char>>, same: Seq<Seq<bool>>) -> Seq<Seq<char>> {
    kept_positions(same, folders.len()).map_values(|i: int| folders[i])
}

/// The answers hold of every pair of folders with the same text: a path is
/// the same as itself.
pub open spec fn answers_reflexive(folders: Seq<Seq<char>>, same: Seq<Seq<bool>>) -> bool {
    forall|a: int, b: int|
        0 <= a < folders.len() && 0 <= b < folders.len() && folders[a] == folders[b]
            ==> #[trigger] same[a][b]
}

/// Keeps, of `folders` in order, each folder unless it is the same path as a
/// folder kept before it, given in `same[a][b]` whether folder `a` is the
/// same path as folder `b`.
pub fn keep_first(folders: &Vec<String>, same: &Vec<Vec<bool>>) -> (r: Vec<String>)
    requires
        same@.len() == folders@.len(),
        forall|a: int| 0 <= a < same@.len() ==> (#[trigger] same@[a])@.len() == folders@.len(),
    ensures
        strings_of(r@) == kept_folders(strings_of(folders@), answers_view(same@)),
{
    let ghost sv = answers_view(same@);
    let ghost fv = strings_of(folders@);
    let mut kept: Vec<usize> = Vec::new();
    let mut r: Vec<String> = Vec::new();
    let mut n: usize = 0;
    while n < folders.len()
        invariant
            n <= folders@.len(),
            sv == answers_view(same@),
            fv == strings_of(folders@),
            same@.len() == folders@.len(),
            forall|a: int| 0 <= a < same@.len() ==> (#[trigger] same@[a])@.len() == folders@.len(),
            kept@.len() == r@.len(),
            forall|m: int| 0 <= m < kept@.len() ==> #[trigger] kept@[m] < n,
            kept@.map_values(|x: usize| x as int) == kept_positions(sv, n as nat),
            strings_of(r@) == kept_positions(sv, n as nat).map_values(|i: int| fv[i]),
        decreases folders.len() - n,
    {
        let ghost before = kept_positions(sv, n as nat);
        let mut clash = false;
        let mut m: usize = 0;
        while m < kept.len()
            invariant
                m <= kept@.len(),
                n < folders@.len(),
                sv == answers_view(same@),
                same@.len() == folders@.len(),
                forall|a: int| 0 <= a < same@.len() ==> (#[trigger] same@[a])@.len() == folders@.len(),
                forall|q: int| 0 <= q < kept@.len() ==> #[trigger] kept@[q] < n,
                kept@.map_values(|x: usize| x as int) == before,
                clash == exists|q: int| 0 <= q < m && #[trigger] sv[before[q]][n as int],
            decreases kept.len() - m,
        {
            assert(before[m as int] == kept@[m as int] as int);
            assert(sv[before[m as int]][n as int] == same@[kept@[m as int] as int]@[n as int]);
            let ghost was = clash;
            if same[kept[m]][n] {
                clash = true;
            }
            proof {
                if !same@[kept@[m as int] as int]@[n as int] && !was {
                    assert forall|q: int| 0 <= q < m + 1 implies !#[trigger] sv[before[q]][n as int] by {
                        if q < m {
                            assert(!(0 <= q < m && sv[before[q]][n as int]));
                        }
                    }
                }
            }
            m = m + 1;
        }
        if !clash {
            let ghost old_kept = kept@;
            let ghost old_r = r@;
            kept.push(n);
            r.push(folders[n].clone());
            proof {
                assert(kept@ == old_kept.push(n));
                assert(old_kept.map_values(|x: usize| x as int) == before);
                assert(strings_of(old_r) == before.map_values(|i: int| fv[i]));
                assert(strings_of(r@) =~= strings_of(old_r).push(fv[n as int]));
                assert(forall|q: int| 0 <= q < before.len() ==> !#[trigger] sv[before[q]][n as int]);
                assert(kept@.map_values(|x: usize| x as int) =~= before.push(n as int));
                assert(strings_of(r@) =~= before.push(n as int).map_values(|i: int| fv[i]));
            }
        } else {
            proof {
                let q = choose|q: int| 0 <= q < kept@.len() && #[trigger] sv[before[q]][n as int];
                assert(!(forall|q: int| 0 <= q < before.len() ==> !#[trigger] sv[before[q]][n as int]));
            }
        }
        n = n + 1;
    }
    r
}

/// The kept positions rise strictly, stay below `n`, and start with the
/// first folder.
proof fn lemma_kept_positions(same: Seq<Seq<bool>>, n: nat)
    ensures
        forall|k: int| 0 <= k < kept_positions(same, n).len() ==> 0 <= #[trigger] kept_positions(same, n)[k] < n,
        forall|k: int, m: int|
            0 <= k < m < kept_positions(same, n).len() ==> kept_positions(same, n)[k] < kept_positions(same, n)[m],
        n > 0 ==> kept_positions(same, n).len() > 0 && kept_positions(same, n)[0] == 0,
    decreases n,
{
    if n > 0 {
        lemma_kept_positions(same, (n - 1) as nat);
        let before = kept_positions(same, (n - 1) as nat);
        let now = kept_positions(same, n);
        if now.len() > before.len() {
            assert(now == before.push(n - 1));
            assert forall|k: int, m: int| 0 <= k < m < now.len() implies now[k] < now[m] by {
                assert(now[k] == before[k]);
                if m < before.len() {
                    assert(now[m] == before[m]);
                }
            }
            assert forall|k: int| 0 <= k < now.len() implies 0 <= #[trigger] now[k] < n by {
                if k < before.len() {
                    assert(now[k] == before[k]);
                }
            }
        }
    }
}

/// Where the answers hold of equal texts, the kept folders hold no text twice.
proof fn lemma_kept_distinct(folders: Seq<Seq<char>>, same: Seq<Seq<bool>>, n: nat)
    requires
        n <= folders.len(),
        answers_reflexive(folders, same),
    ensures
        kept_positions(same, n).map_values(|i: int| folders[i]).no_duplicates(),
    decreases n,
{
    if n > 0 {
        lemma_kept_distinct(folders, same, (n - 1) as nat);
        lemma_kept_positions(same, (n - 1) as nat);
        let before = kept_positions(same, (n - 1) as nat);
        let t = before.map_values(|i: int| folders[i]);
        if forall|m: int| 0 <= m < before.len() ==> !#[trigger] same[before[m]][n - 1] {
            assert(before.push(n - 1).map_values(|i: int| folders[i]) =~= t.push(folders[n - 1]));
            assert forall|m: int| 0 <= m < t.len() implies t[m] != folders[n - 1] by {
                assert(!same[before[m]][n - 1]);
            }
        }
    }
}

/// The model of an optional string.
pub open spec fn opt_view(o: Option<String>) -> Option<Seq<char>> {
    match o {
        Some(t) => Some(t@),
        None => None,
    }
}

/// The paths that the text `vdf` of `libraryfolders.vdf` lists, or none.
pub open spec fn listed_paths(vdf: Option<Seq<char>>) -> Seq<Seq<char>> {
    match vdf {
        Some(text) => vdf_paths(text),
        None => Seq::empty(),
    }
}

/// `libs` is the Steam folder `root` followed by some of `paths`, in their
/// order: `idx` gives, for each folder after the first, where `paths` has it.
pub open spec fn root_then_some_of(libs: Seq<Seq<char>>, root: Seq<char>, paths: Seq<Seq<char>>, idx: Seq<int>) -> bool {
    &&& libs.len() == idx.len() + 1
    &&& libs[0] == root
    &&& forall|k: int| 0 <= k < idx.len() ==> 0 <= #[trigger] idx[k] < paths.len() && libs[k + 1] == paths[idx[k]]
    &&& forall|k: int, m: int| 0 <= k < m < idx.len() ==> idx[k] < idx[m]
}

/// The Steam folder `root`, then the folders that the text `vdf` of
/// `libraryfolders.vdf` lists.
pub open spec fn library_candidates(root: Seq<char>, vdf: Option<Seq<char>>) -> Seq<Seq<char>> {
    seq![root] + listed_paths(vdf)
}

/// Lists the Steam library folders, given the Steam folder (if one was found)
/// and the text of its `steamapps/libraryfolders.vdf` (if it could be read):
/// the Steam folder, then the folders that the file lists, each kept unless
/// it is the same path as a folder kept before it. Every pair of folders is
/// compared as paths, and the list is what [`keep_first`] keeps given the
/// answers; which texts name the same path depends on the platform, and the
/// answers hold at least of equal texts. So the list starts with the Steam
/// folder, keeps the file's order, and holds no text twice.
pub fn steam_libraries(steam_root: Option<String>, vdf: Option<String>) -> (r: Vec<String>)
    ensures
        steam_root is None ==> r@.len() == 0,
        steam_root matches Some(root) ==> exists|same: Seq<Seq<bool>>|
            answers_reflexive(library_candidates(root@, opt_view(vdf)), same) && strings_of(r@)
                == #[trigger] kept_folders(library_candidates(root@, opt_view(vdf)), same),
        steam_root matches Some(root) ==> exists|idx: Seq<int>| #[trigger] root_then_some_of(
            strings_of(r@),
            root@,
            listed_paths(opt_view(vdf)),
            idx,
        ),
        strings_of(r@).no_duplicates(),
{
    let root = match steam_root {
        Some(r) => r,
        None => {
            let r: Vec<String> = Vec::new();
            assert(strings_of(r@).no_duplicates());
            return r;
        },
    };
    let ghost root_v = root@;
    let paths = match vdf {
        Some(text) => parse_vdf_paths(text.as_str()),
        None => Vec::new(),
    };
    let ghost pv = strings_of(paths@);
    proof {
        assert(pv == listed_paths(opt_view(vdf))) by {
            if vdf is None {
                assert(pv =~= Seq::<Seq<char>>::empty());
            }
        }
    }
    let ghost cands = library_candidates(root_v, opt_view(vdf));
    let mut folders: Vec<String> = Vec::new();
    folders.push(root);
    let mut k: usize = 0;
    while k < paths.len()
        invariant
            k <= paths@.len(),
            pv == strings_of(paths@),
            strings_of(folders@) == seq![root_v] + pv.take(k as int),
        decreases paths.len() - k,
    {
        let ghost old_f = folders@;
        folders.push(paths[k].clone());
        assert(strings_of(folders@) =~= strings_of(old_f).push(pv[k as int]));
        assert(pv.take(k + 1) =~= pv.take(k as int).push(pv[k as int]));
        assert(strings_of(folders@) =~= seq![root_v] + pv.take(k + 1));
        k = k + 1;
    }
    assert(pv.take(paths@.len() as int) =~= pv);
    let ghost fv = strings_of(folders@);
    assert(fv == cands);
    let n = folders.len();
    let mut same: Vec<Vec<bool>> = Vec::new();
    let mut a: usize = 0;
    while a < n
        invariant
            a <= n,
            n == folders@.len(),
            fv == strings_of(folders@),
            same@.len() == a,
            forall|x: int| 0 <= x < a ==> (#[trigger] same@[x])@.len() == n,
            forall|x: int, y: int|
                0 <= x < a && 0 <= y < n && fv[x] == fv[y] ==> #[trigger] answers_view(same@)[x][y],
        decreases n - a,
    {
        let mut row: Vec<bool> = Vec::new();
        let mut b: usize = 0;
        while b < n
            invariant
                a < n,
                b <= n,
                n == folders@.len(),
                fv == strings_of(folders@),
                row@.len() == b,
                forall|y: int| 0 <= y < b && fv[a as int] == fv[y] ==> #[trigger] row@[y],
            decreases n - b,
        {
            row.push(same_path(folders[a].as_str(), folders[b].as_str()));
            b = b + 1;
        }
        let ghost prev = same@;
        same.push(row);
        proof {
            assert forall|x: int, y: int|
                0 <= x < a + 1 && 0 <= y < n && fv[x] == fv[y] implies #[trigger] answers_view(
                same@,
            )[x][y] by {
                if x < a {
                    assert(answers_view(same@)[x] == answers_view(prev)[x]);
                }
            }
        }
        a = a + 1;
    }
    let r = keep_first(&folders, &same);
    proof {
        let sv = answers_view(same@);
        assert(answers_reflexive(cands, sv));
        lemma_kept_distinct(fv, sv, n as nat);
        lemma_kept_positions(sv, n as nat);
        let kp = kept_positions(sv, n as nat);
        let idx = kp.drop_first().map_values(|i: int| i - 1);
        assert forall|j: int| 0 <= j < idx.len() implies 0 <= #[trigger] idx[j] < pv.len()
            && strings_of(r@)[j + 1] == pv[idx[j]] by {
            assert(kp[0] < kp[j + 1]);
        }
        assert forall|j: int, m: int| 0 <= j < m < idx.len() implies idx[j] < idx[m] by {
            assert(kp[j + 1] < kp[m + 1]);
        }
        assert(root_then_some_of(strings_of(r@), root_v, listed_paths(opt_view(vdf)), idx));
        assert(strings_of(r@) == kept_folders(cands, sv));
    }
    r
}

/// A place where the game may stand: a folder, and the components of the
/// path below it.
#[derive(Debug, Clone, PartialEq)]
pub struct GameDirCandidate {
    pub base: String,
    pub below: Vec<String>,
}

impl View for GameDirCandidate {
    type V = (Seq<char>, Seq<Seq<char>>);

    open spec fn view(&self) -> (Seq<char>, Seq<Seq<char>>) {
        (self.base@, self.below@.map_values(|s: String| s@))
    }
}

/// The places where the game may stand, in the order they are tried: in each
/// Steam library folder, then in the two default Steam folders.
pub open spec fn game_dir_candidates_spec(libs: Seq<Seq<char>>) -> Seq<(Seq<char>, Seq<Seq<char>>)> {
    libs.map_values(|l: Seq<char>| (l, seq![STEAMAPPS@, COMMON@, GAME_FOLDER@])) + seq![
        (DEFAULT_GAME_DIR_X86@, Seq::<Seq<char>>::empty()),
        (DEFAULT_GAME_DIR@, Seq::<Seq<char>>::empty()),
    ]
}

fn game_path_below() -> (r: Vec<String>)
    ensures
        r@.map_values(|s: String| s@) == seq![STEAMAPPS@, COMMON@, GAME_FOLDER@],
{
    let mut r: Vec<String> = Vec::new();
    r.push(String::from_str(STEAMAPPS));
    r.push(String::from_str(COMMON));
    r.push(String::from_str(GAME_FOLDER));
    assert(r@.map_values(|s: String| s@) =~= seq![STEAMAPPS@, COMMON@, GAME_FOLDER@]);
    r
}

/// The places where the game may stand, given the Steam library folders.
pub fn game_dir_candidates(libs: &Vec<String>) -> (r: Vec<GameDirCandidate>)
    ensures
        r@.map_values(|c: GameDirCandidate| c@) == game_dir_candidates_spec(
            libs@.map_values(|s: String| s@),
        ),
{
    let ghost lv = libs@.map_values(|s: String| s@);
    let ghost expected = game_dir_candidates_spec(lv);
    let mut r: Vec<GameDirCandidate> = Vec::new();
    let mut k: usize = 0;
    while k < libs.len()
        invariant
            k <= libs.len(),
            lv == libs@.map_values(|s: String| s@),
            expected == game_dir_candidates_spec(lv),
            r@.len() == k,
            forall|m: int| 0 <= m < k ==> (#[trigger] r@[m])@ == expected[m],
        decreases libs.len() - k,
    {
        let c = GameDirCandidate { base: libs[k].clone(), below: game_path_below() };
        r.push(c);
        k = k + 1;
    }
    let ghost n = libs@.len() as int;
    let empty_x86: Vec<String> = Vec::new();
    let empty: Vec<String> = Vec::new();
    assert(empty@.map_values(|s: String| s@) =~= Seq::<Seq<char>>::empty());
    assert(empty_x86@.map_values(|s: String| s@) =~= Seq::<Seq<char>>::empty());
    r.push(GameDirCandidate { base: String::from_str(DEFAULT_GAME_DIR_X86), below: empty_x86 });
    r.push(GameDirCandidate { base: String::from_str(DEFAULT_GAME_DIR), below: empty });
    assert(r@.map_values(|c: GameDirCandidate| c@) =~= expected);
    r
}

/// Picks the game folder among the places where it may stand: the first of
/// them that holds the game, given for each whether it does.
pub fn detect_game_dir(candidates: Vec<GameDirCandidate>, valid: &Vec<bool>) -> (r: Option<
    GameDirCandidate,
>)
    requires
        valid@.len() == candidates@.len(),
    ensures
        match r {
            Some(c) => exists|i: int|
                0 <= i < candidates@.len() && valid@[i] && c@ == candidates@[i]@ && forall|j: int|
                    0 <= j < i ==> !#[trigger] valid@[j],
            None => forall|i: int| 0 <= i < candidates@.len() ==> !#[trigger] valid@[i],
        },
{
    let ghost old_candidates = candidates@;
    let mut pool = candidates;
    let mut i: usize = 0;
    while i < valid.len()
        invariant
            i <= valid@.len(),
            valid@.len() == candidates@.len(),
            pool@ == old_candidates,
            old_candidates == candidates@,
            forall|j: int| 0 <= j < i ==> !#[trigger] valid@[j],
        decreases valid.len() - i,
    {
        if valid[i] {
            let ghost before = pool@;
            let c = pool.remove(i);
            assert(c@ == before[i as int]@);
            assert(exists|m: int|
                0 <= m < before.len() && valid@[m] && c@ == before[m]@ && forall|j: int|
                    0 <= j < m ==> !#[trigger] valid@[j]) by {
                assert(valid@[i as int]);
            }
            return Some(c);
        }
        i = i + 1;
    }
    None
}

/// Every Steam library is searched, in order, before the two default Steam
/// folders: the `k`-th place is `steamapps/common/BROKE PROTOCOL` below the
/// `k`-th library, and the last two are the default game folders.
pub proof fn law_every_library_is_searched(libs: Seq<Seq<char>>)
    ensures
        game_dir_candidates_spec(libs).len() == libs.len() + 2,
        forall|k: int|
            0 <= k < libs.len() ==> #[trigger] game_dir_candidates_spec(libs)[k] == (
                libs[k],
                seq!["steamapps"@, "common"@, "BROKE PROTOCOL"@],
            ),
        game_dir_candidates_spec(libs)[libs.len() as int] == (
            "C:\\Program Files (x86)\\Steam\\steamapps\\common\\BROKE PROTOCOL"@,
            Seq::<Seq<char>>::empty(),
        ),
        game_dir_candidates_spec(libs)[libs.len() + 1int] == (
            "C:\\Program Files\\Steam\\steamapps\\common\\BROKE PROTOCOL"@,
            Seq::<Seq<char>>::empty(),
        ),
{
}

/// The pieces of a line of `libraryfolders.vdf` that hold something: the
/// line trimmed and cut at its quotes, blank pieces left out.
pub open spec fn line_pieces(line: Seq<char>) -> Seq<Seq<char>> {
    non_blank(split_on(trim(line), '"'))
}

/// `k` is `path` in any ASCII case.
pub open spec fn spells_path(k: Seq<char>) -> bool {
    k.len() == 4 && (k[0] == 'p' || k[0] == 'P') && (k[1] == 'a' || k[1] == 'A') && (k[2] == 't'
        || k[2] == 'T') && (k[3] == 'h' || k[3] == 'H')
}

/// A line gives a path only when its first piece spells `path` (in any ASCII
/// case) and a second piece follows, and then the path is that second piece
/// with its doubled backslashes made single; every such line gives one.
pub proof fn law_only_path_keys_give_paths(line: Seq<char>)
    ensures
        line_path(line) matches Some(p) ==> line_pieces(line).len() >= 2 && spells_path(
            line_pieces(line)[0],
        ) && p == unescape(line_pieces(line)[1]),
        line_pieces(line).len() >= 2 && spells_path(line_pieces(line)[0]) ==> line_path(line)
            is Some,
{
}

/// `p` is what one of `lines` whose first piece spells `path` gives: its
/// second piece, unescaped.
pub open spec fn given_by_a_path_line(lines: Seq<Seq<char>>, p: Seq<char>) -> bool {
    exists|j: int|
        0 <= j < lines.len() && line_pieces(#[trigger] lines[j]).len() >= 2 && spells_path(
            line_pieces(lines[j])[0],
        ) && p == unescape(line_pieces(lines[j])[1])
}

/// Each path that `libraryfolders.vdf` gives comes from one of its lines
/// whose first piece spells `path`: it is that line's second piece,
/// unescaped.
pub proof fn law_vdf_paths_come_from_path_lines(content: Seq<char>)
    ensures
        forall|k: int|
            0 <= k < vdf_paths(content).len() ==> #[trigger] given_by_a_path_line(
                split_on(content, '\n'),
                vdf_paths(content)[k],
            ),
{
    lemma_paths_from_lines(split_on(content, '\n'));
}

proof fn lemma_paths_from_lines(lines: Seq<Seq<char>>)
    ensures
        forall|k: int|
            0 <= k < paths_of_lines(lines).len() ==> #[trigger] given_by_a_path_line(
                lines,
                paths_of_lines(lines)[k],
            ),
    decreases lines.len(),
{
    if lines.len() > 0 {
        let init = lines.drop_last();
        lemma_paths_from_lines(init);
        law_only_path_keys_give_paths(lines.last());
        let rest = paths_of_lines(init);
        assert forall|k: int| 0 <= k < paths_of_lines(lines).len() implies #[trigger] given_by_a_path_line(
            lines,
            paths_of_lines(lines)[k],
        ) by {
            if k < rest.len() {
                assert(given_by_a_path_line(init, rest[k]));
                let j = choose|j: int|
                    0 <= j < init.len() && line_pieces(#[trigger] init[j]).len() >= 2 && spells_path(
                        line_pieces(init[j])[0],
                    ) && rest[k] == unescape(line_pieces(init[j])[1]);
                assert(lines[j] == init[j]);
                assert(paths_of_lines(lines)[k] == rest[k]);
            } else {
                let j = lines.len() - 1;
                assert(lines[j] == lines.last());
                assert(paths_of_lines(lines)[k] == line_path(lines.last())->Some_0);
            }
        }
    }
}

} // verus!
