//! Which source files the archive takes in: JPEG files, told by extension.
use vstd::prelude::*;

verus! {

/// Name of the directory under the data directory that holds one directory per media item.
pub const MEDIA_DIRECTORY_NAME: &'static str = "media";

/// How deep a directory walk descends below the directory it starts at.
pub const RECURSIVE_DEPTH: u32 = 5;

/// Index of the last `c` among the first `n` characters of `s`, or -1 if there is none.
pub open spec fn last_index_in(s: Seq<char>, c: char, n: int) -> int
    decreases n,
{
    if n <= 0 {
        -1
    } else if s[n - 1] == c {
        n - 1
    } else {
        last_index_in(s, c, n - 1)
    }
}

/// The last index found is -1 or a position among the first `n`.
pub proof fn lemma_last_index_bounds(s: Seq<char>, c: char, n: int)
    ensures
        -1 <= last_index_in(s, c, n),
        last_index_in(s, c, n) < n || last_index_in(s, c, n) == -1,
    decreases n,
{
    if n > 0 && s[n - 1] != c {
        lemma_last_index_bounds(s, c, n - 1);
    }
}

/// The extension of a path: what follows the last `.` of its last component,
/// where that `.` is not the component's first character.
pub open spec fn extension_of(p: Seq<char>) -> Option<Seq<char>> {
    let slash = last_index_in(p, '/', p.len() as int);
    let dot = last_index_in(p, '.', p.len() as int);
    if dot > slash + 1 {
        Some(p.subrange(dot + 1, p.len() as int))
    } else {
        None
    }
}

/// `c` is the lower-case ASCII letter `lower` or its upper-case form `upper`.
pub open spec fn letter_is(c: char, lower: char, upper: char) -> bool {
    c == lower || c == upper
}

/// An extension of the allow-list, `jpg` or `jpeg`, in any mix of cases.
pub open spec fn is_target_extension(e: Seq<char>) -> bool {
    ||| e.len() == 3 && letter_is(e[0], 'j', 'J') && letter_is(e[1], 'p', 'P') && letter_is(
        e[2],
        'g',
        'G',
    )
    ||| e.len() == 4 && letter_is(e[0], 'j', 'J') && letter_is(e[1], 'p', 'P') && letter_is(
        e[2],
        'e',
        'E',
    ) && letter_is(e[3], 'g', 'G')
}

/// A path whose extension is on the allow-list.
pub open spec fn is_target_path(p: Seq<char>) -> bool {
    match extension_of(p) {
        Some(e) => is_target_extension(e),
        None => false,
    }
}

/// The paths of `s` that are on the allow-list, in their order.
pub open spec fn target_paths(s: Seq<String>) -> Seq<String>
    decreases s.len(),
{
    if s.len() == 0 {
        Seq::empty()
    } else {
        let rest = target_paths(s.drop_last());
        if is_target_path(s.last()@) {
            rest.push(s.last())
        } else {
            rest
        }
    }
}

/// Index of the last `c` in `s`, if any.
fn last_index(s: &str, c: char) -> (r: Option<usize>)
    ensures
        match r {
            Some(i) => i as int == last_index_in(s@, c, s@.len() as int) && i < s@.len(),
            None => last_index_in(s@, c, s@.len() as int) == -1,
        },
{
    let len = s.unicode_len();
    let mut i: usize = len;
    while i > 0
        invariant
            len == s@.len(),
            i <= len,
            last_index_in(s@, c, len as int) == last_index_in(s@, c, i as int),
        decreases i,
    {
        if s.get_char(i - 1) == c {
            return Some(i - 1);
        }
        i = i - 1;
    }
    None
}

/// Whether `path` names a file of the allow-list (`jpg`, `jpeg`, any case).
pub fn is_target(path: &String) -> (r: bool)
    ensures
        r == is_target_path(path@),
{
    let s = path.as_str();
    let len = s.unicode_len();
    proof {
        lemma_last_index_bounds(s@, '/', len as int);
        lemma_last_index_bounds(s@, '.', len as int);
    }
    let dot = match last_index(s, '.') {
        Some(d) => d,
        None => return false,
    };
    let after_slash: usize = match last_index(s, '/') {
        Some(k) => k + 1,
        None => 0,
    };
    if dot <= after_slash {
        return false;
    }
    let n = len - dot - 1;
    if n != 3 && n != 4 {
        return false;
    }
    let c0 = s.get_char(dot + 1);
    let c1 = s.get_char(dot + 2);
    let c2 = s.get_char(dot + 3);
    let j = c0 == 'j' || c0 == 'J';
    let p = c1 == 'p' || c1 == 'P';
    if n == 3 {
        let g = c2 == 'g' || c2 == 'G';
        j && p && g
    } else {
        let c3 = s.get_char(dot + 4);
        let e = c2 == 'e' || c2 == 'E';
        let g = c3 == 'g' || c3 == 'G';
        j && p && e && g
    }
}

/// Keeps the paths of the allow-list out of `entries`, the files that a
/// directory walk found, in their order.
pub fn get_image_filenames(entries: Vec<String>) -> (r: Vec<String>)
    ensures
        r@ == target_paths(entries@),
{
    let mut out: Vec<String> = Vec::new();
    let mut i: usize = 0;
    while i < entries.len()
        invariant
            i <= entries@.len(),
            out@ == target_paths(entries@.subrange(0, i as int)),
        decreases entries@.len() - i,
    {
        proof {
            assert(entries@.subrange(0, i + 1).drop_last() == entries@.subrange(0, i as int));
        }
        let keep = is_target(&entries[i]);
        if keep {
            out.push(entries[i].clone());
        }
        i = i + 1;
    }
    proof {
        assert(entries@.subrange(0, entries@.len() as int) == entries@);
    }
    out
}

} // verus!
