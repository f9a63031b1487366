//! Pure path reasoning: basenames, extensions, media kinds, and the
//! directory-skip rule of the walker.
//!
//! Paths are plain strings with `/` separators; the extension of a path is
//! the text of its basename after the last dot, provided the dot is not the
//! basename's first character (so a leading-dot hidden name has none).

use vstd::prelude::*;
use crate::model::MediaKind;

verus! {

/// Index of the last occurrence of `c` in `s`, if any.
pub open spec fn last_index_of(s: Seq<char>, c: char) -> Option<int>
    decreases s.len(),
{
    if s.len() == 0 {
        Option::None
    } else if s.last() == c {
        Option::Some(s.len() - 1)
    } else {
        last_index_of(s.drop_last(), c)
    }
}

/// What [`last_index_of`] returns: the position holds `c` and nothing after
/// it does; `None` means `c` does not occur at all.
pub proof fn lemma_last_index_of_props(s: Seq<char>, c: char)
    ensures
        match last_index_of(s, c) {
            Option::None => forall|j: int| 0 <= j < s.len() ==> s[j] != c,
            Option::Some(i) => 0 <= i < s.len() && s[i] == c && (forall|j: int|
                i < j < s.len() ==> s[j] != c),
        },
    decreases s.len(),
{
    if s.len() == 0 {
    } else if s.last() == c {
    } else {
        lemma_last_index_of_props(s.drop_last(), c);
        assert(forall|j: int| 0 <= j < s.len() - 1 ==> s[j] == s.drop_last()[j]);
    }
}

/// Index where the basename of `p` starts: right after the last `/`.
pub open spec fn spec_basename_start(p: Seq<char>) -> int {
    match last_index_of(p, '/') {
        Option::None => 0,
        Option::Some(i) => i + 1,
    }
}

/// The basename of `p`: everything after the last `/`.
pub open spec fn spec_file_name(p: Seq<char>) -> Seq<char> {
    p.subrange(spec_basename_start(p), p.len() as int)
}

/// Bounds of the extension of `p` inside `p`, excluding the dot, if the
/// basename has one after its first character.
pub open spec fn spec_extension_range(p: Seq<char>) -> Option<(int, int)> {
    match last_index_of(p, '.') {
        Option::Some(d) => if d > spec_basename_start(p) {
            Option::Some((d + 1, p.len() as int))
        } else {
            Option::None
        },
        Option::None => Option::None,
    }
}

/// The extension of `p`, or `unknown` where it has none.
pub open spec fn spec_get_extension(p: Seq<char>) -> Seq<char> {
    match spec_extension_range(p) {
        Option::Some(r) => p.subrange(r.0, r.1),
        Option::None => "unknown"@,
    }
}

/// ASCII lowercasing of one character.
pub open spec fn lower_char(c: char) -> char {
    if 'A' <= c && c <= 'Z' {
        ((c as int) + 32) as char
    } else {
        c
    }
}

/// ASCII lowercasing of a character sequence.
pub open spec fn lower_seq(s: Seq<char>) -> Seq<char> {
    s.map_values(|c: char| lower_char(c))
}

/// Whether the lowercased extension of `p` is a recognized image extension.
pub open spec fn spec_is_image_file(p: Seq<char>) -> bool {
    match spec_extension_range(p) {
        Option::None => false,
        Option::Some(r) => {
            let e = lower_seq(p.subrange(r.0, r.1));
            ||| e == "jpg"@
            ||| e == "jpeg"@
            ||| e == "png"@
            ||| e == "gif"@
            ||| e == "bmp"@
            ||| e == "tiff"@
            ||| e == "svg"@
            ||| e == "webp"@
        },
    }
}

/// Whether the lowercased extension of `p` is a recognized video extension.
pub open spec fn spec_is_video_file(p: Seq<char>) -> bool {
    match spec_extension_range(p) {
        Option::None => false,
        Option::Some(r) => {
            let e = lower_seq(p.subrange(r.0, r.1));
            ||| e == "mp4"@
            ||| e == "mov"@
            ||| e == "avi"@
            ||| e == "mkv"@
            ||| e == "webm"@
            ||| e == "flv"@
            ||| e == "wmv"@
        },
    }
}

/// The media kind a path's extension announces; images win over videos,
/// though the two allow-lists never overlap.
pub open spec fn spec_media_kind(p: Seq<char>) -> MediaKind {
    if spec_is_image_file(p) {
        MediaKind::Image
    } else if spec_is_video_file(p) {
        MediaKind::Video
    } else {
        MediaKind::Unknown
    }
}

/// Whether the basename of `p` carries the hidden-file marker: a leading
/// dot.  The walker prunes such entries, subtrees included.
pub open spec fn spec_is_hidden_entry(p: Seq<char>) -> bool {
    &&& spec_file_name(p).len() > 0
    &&& spec_file_name(p)[0] == '.'
}

/// Whether a walked entry's basename starts with the hidden-file marker.
pub fn is_hidden_entry(path: &str) -> (r: bool)
    ensures
        r == spec_is_hidden_entry(path@),
{
    let n = path.unicode_len();
    let bs = basename_start(path);
    if bs < n {
        path.get_char(bs) == '.'
    } else {
        false
    }
}

/// `sub` occurs in `s` at position `i`.
pub open spec fn contains_at(s: Seq<char>, sub: Seq<char>, i: int) -> bool {
    &&& 0 <= i
    &&& i + sub.len() <= s.len()
    &&& s.subrange(i, i + sub.len()) == sub
}

/// `sub` occurs somewhere in `s`.
pub open spec fn contains_seq(s: Seq<char>, sub: Seq<char>) -> bool {
    exists|i: int| contains_at(s, sub, i)
}

/// Whether a directory path is pruned from the walk outright.
pub open spec fn spec_should_skip_directory(p: Seq<char>) -> bool {
    ||| contains_seq(p, ".thumbnails"@)
    ||| contains_seq(p, "node_modules"@)
    ||| contains_seq(p, ".git"@)
    ||| contains_seq(p, ".vscode"@)
}

/// Position of the last occurrence of `c` in `s`, scanning from the end.
fn find_last(s: &str, c: char) -> (r: Option<usize>)
    ensures
        s@.len() <= usize::MAX,
        match r {
            Option::None => last_index_of(s@, c) is None,
            Option::Some(i) => last_index_of(s@, c) == Option::Some(i as int),
        },
{
    let n = s.unicode_len();
    let mut i = n;
    while i > 0
        invariant
            i <= n,
            n == s@.len(),
            forall|j: int| i <= j < s@.len() ==> s@[j] != c,
        decreases i,
    {
        i = i - 1;
        if s.get_char(i) == c {
            proof {
                lemma_last_index_of_props(s@, c);
                let spec_r = last_index_of(s@, c);
                if spec_r is None {
                    assert(false);
                } else {
                    let k = spec_r->Some_0;
                    if k < i {
                        assert(s@[i as int] != c);
                    } else if k > i {
                        assert(s@[k] != c);
                    }
                }
            }
            return Option::Some(i);
        }
    }
    proof {
        lemma_last_index_of_props(s@, c);
        if last_index_of(s@, c) is Some {
            let k = last_index_of(s@, c)->Some_0;
            assert(s@[k] != c);
        }
    }
    Option::None
}

/// Exec computation of [`spec_basename_start`].
fn basename_start(s: &str) -> (r: usize)
    ensures
        r as int == spec_basename_start(s@),
        r <= s@.len(),
{
    proof {
        lemma_last_index_of_props(s@, '/');
    }
    match find_last(s, '/') {
        Option::Some(i) => i + 1,
        Option::None => 0,
    }
}

/// Basename of a path: the text after the last `/`.
pub fn file_name_of(path: &str) -> (r: String)
    ensures
        r@ == spec_file_name(path@),
{
    let n = path.unicode_len();
    let bs = basename_start(path);
    String::from_str(path.substring_char(bs, n))
}

/// Bounds of the path's extension, if it has one.
fn extension_bounds(path: &str) -> (r: Option<(usize, usize)>)
    ensures
        match r {
            Option::None => spec_extension_range(path@) is None,
            Option::Some(b) => spec_extension_range(path@) == Option::Some(
                (b.0 as int, b.1 as int),
            ) && b.0 <= b.1 <= path@.len(),
        },
{
    let n = path.unicode_len();
    proof {
        lemma_last_index_of_props(path@, '.');
    }
    match find_last(path, '.') {
        Option::Some(d) => {
            let bs = basename_start(path);
            if d > bs {
                Option::Some((d + 1, n))
            } else {
                Option::None
            }
        },
        Option::None => Option::None,
    }
}

/// Extension of a path (text after the last dot of its basename), or
/// `unknown` where it has none.
pub fn get_extension(path: &str) -> (r: String)
    ensures
        r@ == spec_get_extension(path@),
{
    match extension_bounds(path) {
        Option::Some(b) => String::from_str(path.substring_char(b.0, b.1)),
        Option::None => String::from_str("unknown"),
    }
}

/// ASCII lowercasing of one character.
fn to_lower_char(c: char) -> (r: char)
    ensures
        r == lower_char(c),
{
    if 'A' <= c && c <= 'Z' {
        let b: u8 = c as u8;
        (b + 32) as char
    } else {
        c
    }
}

/// Whether the lowercased characters of `s[lo..hi]` spell exactly `lit`.
fn eq_lower_range(s: &str, lo: usize, hi: usize, lit: &str) -> (r: bool)
    requires
        lo <= hi <= s@.len(),
    ensures
        r == (lower_seq(s@.subrange(lo as int, hi as int)) == lit@),
{
    let m = lit.unicode_len();
    if hi - lo != m {
        proof {
            assert(lower_seq(s@.subrange(lo as int, hi as int)).len() == hi - lo);
        }
        return false;
    }
    let mut j: usize = 0;
    while j < m
        invariant
            j <= m,
            m == lit@.len(),
            lo <= hi <= s@.len(),
            hi - lo == m,
            forall|k: int| 0 <= k < j ==> lower_char(s@[lo + k]) == lit@[k],
        decreases m - j,
    {
        if to_lower_char(s.get_char(lo + j)) != lit.get_char(j) {
            proof {
                let sub = s@.subrange(lo as int, hi as int);
                assert(lower_seq(sub)[j as int] == lower_char(sub[j as int]));
                assert(sub[j as int] == s@[lo + j]);
            }
            return false;
        }
        j += 1;
    }
    proof {
        let sub = s@.subrange(lo as int, hi as int);
        assert forall|k: int| 0 <= k < m implies lower_seq(sub)[k] == lit@[k] by {
            assert(lower_seq(sub)[k] == lower_char(sub[k]));
            assert(sub[k] == s@[lo + k]);
        }
        assert(lower_seq(sub) =~= lit@);
    }
    true
}

/// Whether a file is an image, judged by its extension.
pub fn is_image_file(path: &str) -> (r: bool)
    ensures
        r == spec_is_image_file(path@),
{
    match extension_bounds(path) {
        Option::None => false,
        Option::Some(b) => {
            let (lo, hi) = b;
            ||| eq_lower_range(path, lo, hi, "jpg")
            ||| eq_lower_range(path, lo, hi, "jpeg")
            ||| eq_lower_range(path, lo, hi, "png")
            ||| eq_lower_range(path, lo, hi, "gif")
            ||| eq_lower_range(path, lo, hi, "bmp")
            ||| eq_lower_range(path, lo, hi, "tiff")
            ||| eq_lower_range(path, lo, hi, "svg")
            ||| eq_lower_range(path, lo, hi, "webp")
        },
    }
}

/// Whether a file is a video, judged by its extension.
pub fn is_video_file(path: &str) -> (r: bool)
    ensures
        r == spec_is_video_file(path@),
{
    match extension_bounds(path) {
        Option::None => false,
        Option::Some(b) => {
            let (lo, hi) = b;
            ||| eq_lower_range(path, lo, hi, "mp4")
            ||| eq_lower_range(path, lo, hi, "mov")
            ||| eq_lower_range(path, lo, hi, "avi")
            ||| eq_lower_range(path, lo, hi, "mkv")
            ||| eq_lower_range(path, lo, hi, "webm")
            ||| eq_lower_range(path, lo, hi, "flv")
            ||| eq_lower_range(path, lo, hi, "wmv")
        },
    }
}

/// The media kind a path's extension announces.
pub fn media_kind_of(path: &str) -> (r: MediaKind)
    ensures
        r == spec_media_kind(path@),
{
    if is_image_file(path) {
        MediaKind::Image
    } else if is_video_file(path) {
        MediaKind::Video
    } else {
        MediaKind::Unknown
    }
}

/// Whether `sub` occurs in `s` starting at `i`.
fn match_at(s: &str, sub: &str, i: usize, m: usize) -> (r: bool)
    requires
        m == sub@.len(),
        i + m <= s@.len(),
        s@.len() <= usize::MAX,
    ensures
        r == contains_at(s@, sub@, i as int),
{
    let mut j: usize = 0;
    while j < m
        invariant
            j <= m,
            m == sub@.len(),
            i + m <= s@.len(),
            s@.len() <= usize::MAX,
            forall|k: int| 0 <= k < j ==> s@[i + k] == sub@[k],
        decreases m - j,
    {
        if s.get_char(i + j) != sub.get_char(j) {
            proof {
                let piece = s@.subrange(i as int, i + sub@.len());
                assert(piece[j as int] == s@[i + j]);
            }
            return false;
        }
        j += 1;
    }
    proof {
        let piece = s@.subrange(i as int, i + sub@.len());
        assert forall|k: int| 0 <= k < m implies piece[k] == sub@[k] by {
            assert(piece[k] == s@[i + k]);
        }
        assert(piece =~= sub@);
    }
    true
}

/// Whether `sub` occurs anywhere in `s`.
fn contains_sub(s: &str, sub: &str) -> (r: bool)
    ensures
        r == contains_seq(s@, sub@),
{
    let n = s.unicode_len();
    let m = sub.unicode_len();
    if m > n {
        proof {
            assert(forall|i: int| !contains_at(s@, sub@, i));
        }
        return false;
    }
    if m == 0 {
        proof {
            assert(s@.subrange(0, 0) =~= sub@);
            assert(contains_at(s@, sub@, 0));
        }
        return true;
    }
    let mut i: usize = 0;
    while i <= n - m
        invariant
            0 < m <= n,
            n == s@.len(),
            m == sub@.len(),
            i <= n - m + 1,
            forall|k: int| 0 <= k < i ==> !contains_at(s@, sub@, k),
        decreases n - m - i + 1,
    {
        if match_at(s, sub, i, m) {
            return true;
        }
        i += 1;
    }
    proof {
        assert forall|k: int| !contains_at(s@, sub@, k) by {
            if 0 <= k <= n - m {
                assert(!contains_at(s@, sub@, k));
            }
        }
    }
    false
}

/// Whether a directory is pruned from the walk: its path names a bookkeeping
/// or tool directory that never holds library media.
pub fn should_skip_directory(path: &str) -> (r: bool)
    ensures
        r == spec_should_skip_directory(path@),
{
    ||| contains_sub(path, ".thumbnails")
    ||| contains_sub(path, "node_modules")
    ||| contains_sub(path, ".git")
    ||| contains_sub(path, ".vscode")
}

/// Path of the catalog database file directly under the library root.
pub fn get_db_path(root: &str) -> (r: String)
    ensures
        r@ == root@ + "/"@ + "media_cache.db"@,
{
    let mut s = String::from_str(root);
    s.append("/");
    s.append("media_cache.db");
    s
}

} // verus!
