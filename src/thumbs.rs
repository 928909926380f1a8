//! Names of thumbnail files kept beside their originals in a flat directory:
//! `<name>.thumb.jpg` for the original `<name>`.
use vstd::prelude::*;

verus! {

/// Suffix that turns an original's file name into its thumbnail's.
pub const THUMB_IMAGE_SUFFIX: &'static str = ".thumb.jpg";

/// `n` ends with the thumbnail suffix.
pub open spec fn has_thumb_suffix(n: Seq<char>) -> bool {
    n.len() >= THUMB_IMAGE_SUFFIX@.len() && n.subrange(
        n.len() - THUMB_IMAGE_SUFFIX@.len(),
        n.len() as int,
    ) == THUMB_IMAGE_SUFFIX@
}

/// The original names behind the thumbnail names among `s`, in order.
pub open spec fn origins_of(s: Seq<String>) -> Seq<Seq<char>>
    decreases s.len(),
{
    if s.len() == 0 {
        Seq::empty()
    } else {
        let rest = origins_of(s.drop_last());
        let n = s.last()@;
        if has_thumb_suffix(n) {
            rest.push(n.subrange(0, n.len() - THUMB_IMAGE_SUFFIX@.len()))
        } else {
            rest
        }
    }
}

/// Some name of `existing` is the thumbnail name of `name`.
pub open spec fn thumb_exists(existing: Seq<String>, name: Seq<char>) -> bool {
    exists|j: int| 0 <= j < existing.len() && existing[j]@ == name + THUMB_IMAGE_SUFFIX@
}

/// The originals among `entries` whose thumbnail is not among `existing`.
pub open spec fn pending_of(entries: Seq<String>, existing: Seq<String>) -> Seq<String>
    decreases entries.len(),
{
    if entries.len() == 0 {
        Seq::empty()
    } else {
        let rest = pending_of(entries.drop_last(), existing);
        if thumb_exists(existing, entries.last()@) {
            rest
        } else {
            rest.push(entries.last())
        }
    }
}

/// The thumbnail's file name for the original `name`.
pub fn get_thumb_filename(name: &String) -> (r: String)
    ensures
        r@ == name@ + THUMB_IMAGE_SUFFIX@,
{
    name.clone().concat(THUMB_IMAGE_SUFFIX)
}

/// The original's file name for the thumbnail `name`, where `name` ends
/// with the thumbnail suffix.
pub fn get_origin_filename(name: &String) -> (r: Option<String>)
    ensures
        r.is_some() == has_thumb_suffix(name@),
        r.is_some() ==> name@ == r.unwrap()@ + THUMB_IMAGE_SUFFIX@,
        r.is_some() ==> r.unwrap()@ == name@.subrange(
            0,
            name@.len() - THUMB_IMAGE_SUFFIX@.len(),
        ),
{
    let s = name.as_str();
    let n = s.unicode_len();
    let suffix = THUMB_IMAGE_SUFFIX;
    proof {
        reveal_strlit(".thumb.jpg");
    }
    let k = suffix.unicode_len();
    if n < k {
        return None;
    }
    let start = n - k;
    let mut i: usize = 0;
    while i < k
        invariant
            s@ == name@,
            suffix@ == THUMB_IMAGE_SUFFIX@,
            n == s@.len(),
            k == suffix@.len(),
            start == n - k,
            i <= k,
            forall|j: int| 0 <= j < i ==> s@[start + j] == suffix@[j],
        decreases k - i,
    {
        if s.get_char(start + i) != suffix.get_char(i) {
            proof {
                assert(s@.subrange(start as int, n as int)[i as int] != suffix@[i as int]);
                assert(s@.subrange(start as int, n as int) != suffix@);
            }
            return None;
        }
        i = i + 1;
    }
    let origin = String::from_str(s.substring_char(0, start));
    proof {
        assert(s@.subrange(start as int, n as int) =~= suffix@);
        assert(s@ =~= origin@ + suffix@);
    }
    Some(origin)
}

/// The original names behind the thumbnail names among `names`, in order;
/// names that are not thumbnail names are left out.
pub fn get_origin_filenames(names: &Vec<String>) -> (r: Vec<String>)
    ensures
        r@.len() == origins_of(names@).len(),
        forall|i: int| 0 <= i < r@.len() ==> #[trigger] r@[i]@ == origins_of(names@)[i],
{
    let mut out: Vec<String> = Vec::new();
    let mut i: usize = 0;
    while i < names.len()
        invariant
            i <= names@.len(),
            out@.len() == origins_of(names@.subrange(0, i as int)).len(),
            forall|j: int|
                0 <= j < out@.len() ==> #[trigger] out@[j]@ == origins_of(
                    names@.subrange(0, i as int),
                )[j],
        decreases names@.len() - i,
    {
        proof {
            assert(names@.subrange(0, i + 1).drop_last() == names@.subrange(0, i as int));
        }
        match get_origin_filename(&names[i]) {
            Some(o) => {
                out.push(o);
            },
            None => {},
        }
        i = i + 1;
    }
    proof {
        assert(names@.subrange(0, names@.len() as int) == names@);
    }
    out
}

/// The originals among `entries` whose thumbnail name is not among
/// `existing`: those whose thumbnails are still to be made, in order.
pub fn thumbs_to_create(entries: &Vec<String>, existing: &Vec<String>) -> (r: Vec<String>)
    ensures
        r@ == pending_of(entries@, existing@),
{
    let mut out: Vec<String> = Vec::new();
    let mut i: usize = 0;
    while i < entries.len()
        invariant
            i <= entries@.len(),
            out@ == pending_of(entries@.subrange(0, i as int), existing@),
        decreases entries@.len() - i,
    {
        proof {
            assert(entries@.subrange(0, i + 1).drop_last() == entries@.subrange(0, i as int));
        }
        let thumb_name = get_thumb_filename(&entries[i]);
        let mut found = false;
        let mut j: usize = 0;
        while j < existing.len()
            invariant
                j <= existing@.len(),
                thumb_name@ == entries@[i as int]@ + THUMB_IMAGE_SUFFIX@,
                found <==> exists|k: int| 0 <= k < j && existing@[k]@ == thumb_name@,
            decreases existing@.len() - j,
        {
            if existing[j] == thumb_name {
                found = true;
            }
            j = j + 1;
        }
        if !found {
            out.push(entries[i].clone());
        }
        i = i + 1;
    }
    proof {
        assert(entries@.subrange(0, entries@.len() as int) == entries@);
    }
    out
}

} // verus!
