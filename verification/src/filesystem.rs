//! Path handling: file names, folders and extensions.

use vstd::prelude::*;
use crate::text::{str_chars, str_eq, string_from_chars};

verus! {

/// Index of the last `c` in `s`.
pub open spec fn last_index(s: Seq<char>, c: char) -> Option<int> {
    if s.contains(c) {
        Some(choose|i: int| 0 <= i < s.len() && s[i] == c && forall|k: int| i < k < s.len() ==> s[k] != c)
    } else {
        None
    }
}

/// Index of the separator that ends the folder part: the last `/`, or
/// when there is none the last `\`.
pub open spec fn sep_index(s: Seq<char>) -> Option<int> {
    match last_index(s, '/') {
        Some(i) => Some(i),
        None => last_index(s, '\\'),
    }
}

/// The file name of a path: what follows its last separator.
pub open spec fn filename_of(s: Seq<char>) -> Seq<char> {
    match sep_index(s) {
        Some(i) => s.subrange(i + 1, s.len() as int),
        None => s,
    }
}

/// ASCII lower case of one character.
pub open spec fn ascii_lower(c: char) -> char {
    if 'A' <= c <= 'Z' {
        ((c as u32 + 32) as u8) as char
    } else {
        c
    }
}

pub(crate) fn find_last(s: &[char], c: char) -> (r: Option<usize>)
    ensures
        match last_index(s@, c) {
            Some(i) => 0 <= i < s@.len() && r == Some(i as usize),
            None => r is None,
        },
        r matches Some(i) ==> i < s.len() && s@[i as int] == c,
{
    let mut i = s.len();
    while i > 0
        invariant
            i <= s.len(),
            forall|k: int| i <= k < s.len() ==> s@[k] != c,
        decreases i,
    {
        if s[i - 1] == c {
            proof {
                assert(s@.contains(c)) by {
                    assert(s@[i - 1] == c);
                }
                let j = choose|j: int| 0 <= j < s@.len() && s@[j] == c && forall|k: int| j < k < s@.len() ==> s@[k] != c;
                assert(j == i - 1) by {
                    if j < i - 1 {
                        assert(s@[i - 1] != c);
                    } else if j > i - 1 {
                    }
                }
            }
            return Some(i - 1);
        }
        i = i - 1;
    }
    proof {
        if s@.contains(c) {
            let k = choose|k: int| 0 <= k < s@.len() && s@[k] == c;
            assert(s@[k] != c);
        }
    }
    None
}

fn sep_pos(s: &[char]) -> (r: Option<usize>)
    ensures
        match sep_index(s@) {
            Some(i) => 0 <= i < s@.len() && r == Some(i as usize),
            None => r is None,
        },
        r matches Some(i) ==> i < s.len(),
{
    match find_last(s, '/') {
        Some(i) => Some(i),
        None => find_last(s, '\\'),
    }
}

/// The file name of `path`: what follows its last separator.
pub fn get_filename(path: &str) -> (s: String)
    ensures
        s@ == filename_of(path@),
{
    let c = str_chars(path);
    let cs = c.as_slice();
    assert(cs@ == path@);
    match sep_pos(cs) {
        Some(pos) => {
            assert(sep_index(path@) == Some(pos as int));
            let sl = &cs[pos + 1..cs.len()];
            assert(sl@ =~= path@.subrange(pos + 1, path@.len() as int));
            string_from_chars(sl)
        },
        None => {
            string_from_chars(cs)
        },
    }
}

/// Whether a path ends with a separator.
pub open spec fn ends_with_sep(s: Seq<char>) -> bool {
    s.len() > 0 && (s.last() == '/' || s.last() == '\\')
}

/// The folder of a path: what precedes its last separator; a path that
/// ends with a separator, or has none, is its own folder.
pub open spec fn folder_of(s: Seq<char>) -> Seq<char> {
    if ends_with_sep(s) {
        s
    } else {
        match sep_index(s) {
            Some(i) => s.subrange(0, i),
            None => s,
        }
    }
}

/// A path that has a separator and does not end with one is its folder,
/// the separator and its file name.
pub proof fn lemma_folder_and_filename(path: Seq<char>)
    requires
        sep_index(path) is Some,
        !ends_with_sep(path),
    ensures
        folder_of(path) + seq![path[sep_index(path)->Some_0]] + filename_of(path) == path,
{
    let i = sep_index(path)->Some_0;
    lemma_sep_index_bounds(path);
    assert(folder_of(path) + seq![path[i]] + filename_of(path) =~= path);
}

proof fn lemma_sep_index_bounds(s: Seq<char>)
    ensures
        sep_index(s) matches Some(i) ==> 0 <= i < s.len(),
{
    if s.contains('/') {
        assert(exists|i: int| 0 <= i < s.len() && s[i] == '/' && forall|k: int| i < k < s.len() ==> s[k] != '/') by {
            let j = choose|j: int| 0 <= j < s.len() && s[j] == '/';
            lemma_last_exists(s, '/', j);
        }
    } else if s.contains('\\') {
        assert(exists|i: int| 0 <= i < s.len() && s[i] == '\\' && forall|k: int| i < k < s.len() ==> s[k] != '\\') by {
            let j = choose|j: int| 0 <= j < s.len() && s[j] == '\\';
            lemma_last_exists(s, '\\', j);
        }
    }
}

proof fn lemma_last_exists(s: Seq<char>, c: char, j: int)
    requires
        0 <= j < s.len(),
        s[j] == c,
    ensures
        exists|i: int| 0 <= i < s.len() && s[i] == c && forall|k: int| i < k < s.len() ==> s[k] != c,
    decreases s.len() - j,
{
    if exists|k: int| j < k < s.len() && s[k] == c {
        let k = choose|k: int| j < k < s.len() && s[k] == c;
        lemma_last_exists(s, c, k);
    } else {
        assert(forall|k: int| j < k < s.len() ==> s[k] != c);
    }
}

/// The folder of `path`: everything before its last separator; a path
/// that ends with a separator, or has none, is returned whole.
pub fn get_folder(path: &str) -> (s: String)
    ensures
        s@ == folder_of(path@),
{
    let c = str_chars(path);
    let cs = c.as_slice();
    assert(cs@ == path@);
    if !(cs.len() > 0 && (cs[cs.len() - 1] == '/' || cs[cs.len() - 1] == '\\')) {
        if let Some(pos) = sep_pos(cs) {
            assert(sep_index(path@) == Some(pos as int));
            let sl = &cs[0..pos];
            assert(sl@ =~= path@.subrange(0, pos as int));
            return string_from_chars(sl);
        }
    }
    string_from_chars(cs)
}

/// The extension of the file name of `path`, in ASCII lower case; empty
/// when the name has no `.`.
pub open spec fn extension_of(path: Seq<char>) -> Seq<char> {
    let f = filename_of(path);
    match last_index(f, '.') {
        Some(i) => f.subrange(i + 1, f.len() as int).map_values(|c: char| ascii_lower(c)),
        None => Seq::empty(),
    }
}

/// The extension of the file name of `path` (see `extension_of`).
#[verifier::rlimit(40)]
pub fn get_extension(path: &str) -> (s: String)
    ensures
        s@ == extension_of(path@),
{
    let full = str_chars(path);
    let fs = full.as_slice();
    assert(fs@ == path@);
    let f: &[char] = match sep_pos(fs) {
        Some(pos) => {
            assert(sep_index(path@) == Some(pos as int));
            &fs[pos + 1..fs.len()]
        },
        None => fs,
    };
    assert(f@ =~= filename_of(path@));
    match find_last(f, '.') {
        Some(dot) => {
            let mut v: Vec<char> = Vec::new();
            let mut i = dot + 1;
            while i < f.len()
                invariant
                    dot + 1 <= i <= f.len(),
                    v@ == f@.subrange(dot + 1, i as int).map_values(|c: char| ascii_lower(c)),
                decreases f.len() - i,
            {
                let c = f[i];
                let l = if 'A' <= c && c <= 'Z' { ((c as u8) + 32) as char } else { c };
                v.push(l);
                i = i + 1;
                assert(f@.subrange(dot + 1, i as int).map_values(|c: char| ascii_lower(c)) =~= f@.subrange(dot + 1, i - 1).map_values(
                    |c: char| ascii_lower(c),
                ).push(ascii_lower(c)));
            }
            
            string_from_chars(v.as_slice())
        },
        None => {
            let e = &f[0..0];
            assert(e@.len() == 0);
            string_from_chars(e)
        },
    }
}

/// The path with everything from its last `.` on replaced by `.ext` (the
/// `.` removed too when `ext` is empty), when the path has a `.`; the
/// candidate that a sidecar file would have. The last `.` is taken over the
/// whole path, so a path whose file name has none is cut at a `.` of a
/// folder name.
#[verifier::rlimit(40)]
pub fn replace_extension(path: &str, ext: &str) -> (r: Option<String>)
    ensures
        match last_index(path@, '.') {
            Some(i) => r is Some && (ext@.len() == 0 ==> r->Some_0@ == path@.subrange(0, i))
                && (ext@.len() > 0 ==> r->Some_0@ == path@.subrange(0, i) + seq!['.'] + ext@),
            None => r is None,
        },
{
    let c = str_chars(path);
    let e = str_chars(ext);
    let cs = c.as_slice();
    assert(cs@ == path@);
    match find_last(cs, '.') {
        Some(dot) => {
            assert(last_index(path@, '.') == Some(dot as int));
            let mut v: Vec<char> = Vec::new();
            let mut i: usize = 0;
            while i < dot
                invariant
                    i <= dot < c.len(),
                    v@ == c@.subrange(0, i as int),
                decreases dot - i,
            {
                v.push(c[i]);
                i = i + 1;
            }
            if e.len() > 0 {
                v.push('.');
                let mut j: usize = 0;
                while j < e.len()
                    invariant
                        j <= e.len(),
                        v@ == c@.subrange(0, dot as int) + seq!['.'] + e@.subrange(0, j as int),
                    decreases e.len() - j,
                {
                    v.push(e[j]);
                    j = j + 1;
                }
                assert(e@.subrange(0, e.len() as int) =~= e@);
            }
            assert(c@.subrange(0, dot as int) =~= path@.subrange(0, dot as int));
            
            Some(string_from_chars(v.as_slice()))
        },
        None => None,
    }
}

/// Whether `names` holds `n`.
fn holds_name(names: &[String], n: &str) -> (r: bool)
    ensures
        r == exists|k: int| 0 <= k < names@.len() && (#[trigger] names@[k])@ == n@,
{
    let mut i: usize = 0;
    while i < names.len()
        invariant
            i <= names.len(),
            forall|k: int| 0 <= k < i ==> (#[trigger] names@[k])@ != n@,
        decreases names.len() - i,
    {
        if str_eq(names[i].as_str(), n) {
            return true;
        }
        i = i + 1;
    }
    false
}

/// The paths of the listed entries `(name, path)` whose name is one of
/// `expected`, in the order of the listing.
pub open spec fn listed_paths_spec(files: Seq<(String, String)>, expected: Seq<String>) -> Seq<Seq<char>>
    decreases files.len(),
{
    if files.len() == 0 {
        Seq::empty()
    } else {
        let rest = listed_paths_spec(files.drop_last(), expected);
        if exists|k: int| 0 <= k < expected.len() && (#[trigger] expected[k])@ == files.last().0@ {
            rest.push(files.last().1@)
        } else {
            rest
        }
    }
}

/// Picks from a folder listing the paths of the files named in `expected`.
pub fn listed_paths(files: &[(String, String)], expected: &[String]) -> (r: Vec<String>)
    ensures
        r@.map_values(|s: String| s@) == listed_paths_spec(files@, expected@),
{
    let mut out: Vec<String> = Vec::new();
    let mut i: usize = 0;
    while i < files.len()
        invariant
            i <= files.len(),
            out@.map_values(|s: String| s@) == listed_paths_spec(files@.subrange(0, i as int), expected@),
        decreases files.len() - i,
    {
        let ghost before = out@;
        assert(files@.subrange(0, i + 1).drop_last() =~= files@.subrange(0, i as int));
        assert(files@.subrange(0, i + 1).last() == files@[i as int]);
        if holds_name(expected, files[i].0.as_str()) {
            out.push(files[i].1.clone());
            assert(out@.map_values(|s: String| s@) =~= before.map_values(|s: String| s@).push(files@[i as int].1@));
        }
        i = i + 1;
    }
    assert(files@.subrange(0, files@.len() as int) =~= files@);
    out
}

/// The path of the first listed entry `(name, path)` named `name`.
pub open spec fn first_named(files: Seq<(String, String)>, name: Seq<char>) -> Option<Seq<char>>
    decreases files.len(),
{
    if files.len() == 0 {
        None
    } else if files[0].0@ == name {
        Some(files[0].1@)
    } else {
        first_named(files.drop_first(), name)
    }
}

/// The path of the first listed entry named `name`.
pub fn listed_path(files: &[(String, String)], name: &str) -> (r: Option<String>)
    ensures
        match r {
            Some(p) => first_named(files@, name@) == Some(p@),
            None => first_named(files@, name@) is None,
        },
{
    let mut i: usize = 0;
    assert(files@.subrange(0, files@.len() as int) =~= files@);
    while i < files.len()
        invariant
            i <= files.len(),
            first_named(files@.subrange(i as int, files@.len() as int), name@) == first_named(files@, name@),
        decreases files.len() - i,
    {
        let ghost rest = files@.subrange(i as int, files@.len() as int);
        assert(rest.drop_first() =~= files@.subrange(i + 1, files@.len() as int));
        assert(rest[0] == files@[i as int]);
        if str_eq(files[i].0.as_str(), name) {
            let p = files[i].1.clone();
            return Some(p);
        }
        i = i + 1;
    }
    None
}

/// An ASCII digit.
pub open spec fn ascii_digit(c: char) -> bool {
    '0' <= c <= '9'
}

/// An ASCII character that is not a digit.
pub open spec fn plain_char(c: char) -> bool {
    (c as u32) < 128 && !ascii_digit(c)
}

/// The number of ASCII digits in a row from `i`.
pub open spec fn digits_from(s: Seq<char>, i: int) -> int
    decreases s.len() - i,
{
    if 0 <= i < s.len() && ascii_digit(s[i]) {
        1 + digits_from(s, i + 1)
    } else {
        0
    }
}

/// `a` and `b` first differ at `i`.
pub open spec fn first_diff(a: Seq<char>, b: Seq<char>, i: int) -> bool {
    0 <= i < a.len() && i < b.len() && a[i] != b[i] && forall|k: int| 0 <= k < i ==> a[k] == b[k]
}

/// `a` comes before `b` or equals it, character by character.
pub open spec fn lex_le(a: Seq<char>, b: Seq<char>) -> bool {
    (a.len() <= b.len() && a == b.subrange(0, a.len() as int)) || exists|i: int|
        #[trigger] first_diff(a, b, i) && (a[i] as u32) < (b[i] as u32)
}

/// The texts `s` are in character order.
pub open spec fn sorted_texts(s: Seq<Seq<char>>) -> bool {
    forall|i: int, j: int| 0 <= i < j < s.len() ==> lex_le(#[trigger] s[i], #[trigger] s[j])
}

/// Where `a` and `b` first differ, one of them holds an ASCII character
/// that is not a digit, or both begin runs of ASCII digits of the same
/// length, at most nine. Then the human comparison of `a` and `b` (numbers
/// by value) agrees with their character order.
pub open spec fn human_compatible(a: Seq<char>, b: Seq<char>) -> bool {
    forall|i: int|
        #[trigger] first_diff(a, b, i) ==> plain_char(a[i]) || plain_char(b[i]) || (ascii_digit(a[i]) && ascii_digit(
            b[i],
        ) && digits_from(a, i) == digits_from(b, i) && digits_from(a, i) <= 9)
}

/// Every two of the texts `s` are human-compatible: on them the human
/// comparison is a total order, the character order.
pub open spec fn human_safe(s: Seq<Seq<char>>) -> bool {
    forall|i: int, j: int| 0 <= i < s.len() && 0 <= j < s.len() ==> human_compatible(#[trigger] s[i], #[trigger] s[j])
}

proof fn lemma_digits_nonneg(s: Seq<char>, i: int)
    ensures
        digits_from(s, i) >= 0,
    decreases s.len() - i,
{
    if 0 <= i < s.len() && ascii_digit(s[i]) {
        lemma_digits_nonneg(s, i + 1);
    }
}

/// The number of ASCII digits in a row from `i`, up to ten.
fn digits_at(s: &[char], i: usize) -> (n: usize)
    requires
        i <= s.len(),
    ensures
        n == if digits_from(s@, i as int) < 10 { digits_from(s@, i as int) } else { 10 },
{
    let mut j = i;
    while j < s.len() && j - i < 10 && '0' <= s[j] && s[j] <= '9'
        invariant
            i <= j <= s.len(),
            j - i <= 10,
            digits_from(s@, i as int) == (j - i) + digits_from(s@, j as int),
        decreases s.len() - j,
    {
        j = j + 1;
    }
    proof {
        lemma_digits_nonneg(s@, j as int);
    }
    j - i
}

/// Whether `a` and `b` are human-compatible.
fn compatible(a: &[char], b: &[char]) -> (r: bool)
    ensures
        r == human_compatible(a@, b@),
{
    let mut i: usize = 0;
    while i < a.len() && i < b.len() && a[i] == b[i]
        invariant
            i <= a.len(),
            i <= b.len(),
            forall|k: int| 0 <= k < i ==> a@[k] == b@[k],
        decreases a.len() - i,
    {
        i = i + 1;
    }
    if i == a.len() || i == b.len() {
        assert forall|k: int| !#[trigger] first_diff(a@, b@, k) by {
            if first_diff(a@, b@, k) {
                assert(k < i);
            }
        }
        return true;
    }
    assert(first_diff(a@, b@, i as int));
    assert forall|k: int| #[trigger] first_diff(a@, b@, k) implies k == i by {
        if k < i {
        } else if k > i {
            assert(a@[i as int] == b@[i as int]);
        }
    }
    let x = a[i];
    let y = b[i];
    if ((x as u32) < 128 && !('0' <= x && x <= '9')) || ((y as u32) < 128 && !('0' <= y && y <= '9')) {
        return true;
    }
    if !('0' <= x && x <= '9' && '0' <= y && y <= '9') {
        return false;
    }
    let n = digits_at(a, i);
    let m = digits_at(b, i);
    n == m && n <= 9
}

/// Whether the texts of `v` are human-safe (see `human_safe`).
pub fn human_safe_texts(v: &[String]) -> (r: bool)
    ensures
        r == human_safe(texts(v@)),
{
    let mut i: usize = 0;
    while i < v.len()
        invariant
            i <= v.len(),
            forall|p: int, q: int|
                0 <= p < i && 0 <= q < v@.len() ==> human_compatible(#[trigger] texts(v@)[p], #[trigger] texts(v@)[q]),
        decreases v.len() - i,
    {
        let a = str_chars(v[i].as_str());
        let mut j: usize = 0;
        while j < v.len()
            invariant
                i < v.len(),
                j <= v.len(),
                a@ == v@[i as int]@,
                forall|p: int, q: int|
                    0 <= p < i && 0 <= q < v@.len() ==> human_compatible(#[trigger] texts(v@)[p], #[trigger] texts(v@)[q]),
                forall|q: int| 0 <= q < j ==> human_compatible(texts(v@)[i as int], #[trigger] texts(v@)[q]),
            decreases v.len() - j,
        {
            let b = str_chars(v[j].as_str());
            if !compatible(a.as_slice(), b.as_slice()) {
                assert(!human_compatible(texts(v@)[i as int], texts(v@)[j as int]));
                return false;
            }
            j = j + 1;
        }
        i = i + 1;
    }
    true
}

/// The texts of `v`.
pub open spec fn texts(v: Seq<String>) -> Seq<Seq<char>> {
    v.map_values(|s: String| s@)
}

/// Calls `human_sort::sort`, which sorts with `slice::sort_by` and the
/// human comparison: equal characters are passed over one by one; where
/// both differing characters are numeric, the runs of digits there are
/// compared by value; else the characters are compared; where one text
/// runs out, the texts are compared as strings. On human-safe texts that
/// comparison is the character order, a total order, so the result is the
/// texts in character order.
#[verifier::external_body]
pub(crate) fn human_sorted(v: Vec<String>) -> (r: Vec<String>)
    requires
        human_safe(texts(v@)),
    ensures
        sorted_texts(texts(r@)),
        texts(r@).to_multiset() == texts(v@).to_multiset(),
{
    let mut refs: Vec<&str> = v.iter().map(|s| s.as_str()).collect();
    human_sort::sort(&mut refs);
    refs.iter().map(|s| s.to_string()).collect()
}

} // verus!
