//! The metadata catalog: the records of the archive, kept newest first, with
//! at most one record per identifier and per content digest.
use vstd::prelude::*;
use crate::error::PipelineError;
use crate::date::now_millis;
use crate::meta::{IdsFilter, MediaId, MediaMeta, MediaMetaView, MediaVisibility};

verus! {

/// Records are ordered by capture date, newest first.
pub open spec fn sorted_by_date(s: Seq<MediaMetaView>) -> bool {
    forall|i: int, j: int| 0 <= i < j < s.len() ==> s[i].date >= s[j].date
}

/// No two records share an identifier.
pub open spec fn ids_unique(s: Seq<MediaMetaView>) -> bool {
    forall|i: int, j: int| 0 <= i < j < s.len() ==> s[i].media_id != s[j].media_id
}

/// No two records share a content digest.
pub open spec fn digests_unique(s: Seq<MediaMetaView>) -> bool {
    forall|i: int, j: int| 0 <= i < j < s.len() ==> s[i].hashed != s[j].hashed
}

/// Some record has the identifier `id`.
pub open spec fn has_id(s: Seq<MediaMetaView>, id: Seq<char>) -> bool {
    exists|i: int| 0 <= i < s.len() && s[i].media_id == id
}

/// Some record has the content digest `d`.
pub open spec fn has_digest(s: Seq<MediaMetaView>, d: Seq<u8>) -> bool {
    exists|i: int| 0 <= i < s.len() && s[i].hashed == d
}

/// A record is in the window of a scan: captured at `end` or later and
/// before `begin`, and public unless private records are included. The upper
/// bound is excluded so
/// that the date a page reports can bound the next page.
pub open spec fn in_window(m: MediaMetaView, begin: int, end: int, include_private: bool) -> bool {
    end <= m.date < begin && visible(m.visibility, include_private)
}

/// The records of `s` in the window, in their order.
pub open spec fn window(s: Seq<MediaMetaView>, begin: int, end: int, include_private: bool) -> Seq<
    MediaMetaView,
>
    decreases s.len(),
{
    if s.len() == 0 {
        Seq::empty()
    } else {
        let rest = window(s.drop_last(), begin, end, include_private);
        if in_window(s.last(), begin, end, include_private) {
            rest.push(s.last())
        } else {
            rest
        }
    }
}

/// The first `n` elements of `s`, or all of them where there are fewer.
pub open spec fn take(s: Seq<MediaMetaView>, n: int) -> Seq<MediaMetaView> {
    if s.len() <= n {
        s
    } else {
        s.subrange(0, n)
    }
}

/// What a scan returns: the first `limit` records of the window.
pub open spec fn page(
    s: Seq<MediaMetaView>,
    begin: int,
    end: int,
    include_private: bool,
    limit: int,
) -> Seq<MediaMetaView> {
    take(window(s, begin, end, include_private), limit)
}

/// The date that a scan reports with a page: that of its last record, or
/// `end` for an empty page.
pub open spec fn page_end(p: Seq<MediaMetaView>, end: int) -> int {
    if p.len() == 0 {
        end
    } else {
        p.last().date as int
    }
}

/// The media catalog.
pub struct Catalog {
    records: Vec<MediaMeta>,
}

impl View for Catalog {
    type V = Seq<MediaMetaView>;

    closed spec fn view(&self) -> Seq<MediaMetaView> {
        self.records@.map_values(|m: MediaMeta| m@)
    }
}

fn bytes_equal(a: &Vec<u8>, b: &Vec<u8>) -> (r: bool)
    ensures
        r == (a@ == b@),
{
    if a.len() != b.len() {
        return false;
    }
    let mut i: usize = 0;
    while i < a.len()
        invariant
            a@.len() == b@.len(),
            i <= a@.len(),
            forall|j: int| 0 <= j < i ==> a@[j] == b@[j],
        decreases a@.len() - i,
    {
        if a[i] != b[i] {
            return false;
        }
        i = i + 1;
    }
    proof {
        assert(a@ =~= b@);
    }
    true
}

impl Catalog {
    /// The catalog's invariant: newest first, identifiers and digests unique.
    pub open spec fn wf(&self) -> bool {
        sorted_by_date(self@) && ids_unique(self@) && digests_unique(self@)
    }

    /// An empty catalog.
    pub fn new() -> (r: Self)
        ensures
            r.wf(),
            r@ == Seq::<MediaMetaView>::empty(),
    {
        let r = Catalog { records: Vec::new() };
        proof {
            assert(r@ =~= Seq::<MediaMetaView>::empty());
        }
        r
    }

    /// How many records the catalog holds.
    pub fn len(&self) -> (r: usize)
        ensures
            r == self@.len(),
    {
        self.records.len()
    }

    /// A copy of the record at `i`, newest first.
    pub fn get(&self, i: usize) -> (r: MediaMeta)
        requires
            i < self@.len(),
        ensures
            r@ == self@[i as int],
    {
        self.records[i].clone()
    }

    /// Adds a record at its place by date (after the records of the same
    /// date). Fails with `DuplicateKey`, leaving the catalog as it was, where a
    /// record already has its identifier or its content digest.
    pub fn insert(&mut self, meta: MediaMeta) -> (r: Result<(), PipelineError>)
        requires
            old(self).wf(),
        ensures
            final(self).wf(),
            r.is_err() <==> has_id(old(self)@, meta@.media_id) || has_digest(
                old(self)@,
                meta@.hashed,
            ),
            r.is_err() ==> r == Err::<(), PipelineError>(PipelineError::DuplicateKey),
            r.is_err() ==> final(self)@ == old(self)@,
            r.is_ok() ==> exists|k: int|
                0 <= k <= old(self)@.len() && final(self)@ == old(self)@.insert(k, meta@),
    {
        let ghost s = self@;
        let n = self.records.len();
        let mut pos: usize = n;
        let mut i: usize = 0;
        while i < n
            invariant
                n == self.records@.len(),
                s == self@,
                self.wf(),
                i <= n,
                pos <= n,
                pos < n ==> pos < i && s[pos as int].date < meta.date,
                forall|j: int| 0 <= j < i && j < pos ==> s[j].date >= meta.date,
                forall|j: int| 0 <= j < i ==> s[j].media_id != meta@.media_id,
                forall|j: int| 0 <= j < i ==> s[j].hashed != meta@.hashed,
            decreases n - i,
        {
            let rec = &self.records[i];
            proof {
                assert(s[i as int] == self.records@[i as int]@);
            }
            if rec.media_id.0 == meta.media_id.0 || bytes_equal(&rec.hashed, &meta.hashed) {
                return Err(PipelineError::DuplicateKey);
            }
            if pos == n && rec.date < meta.date {
                pos = i;
            }
            i = i + 1;
        }
        proof {
            assert forall|j: int| pos <= j < n implies s[j].date < meta.date by {
                assert(s[pos as int].date >= s[j].date);
            }
        }
        let ghost m = meta@;
        self.records.insert(pos, meta);
        proof {
            assert(self@ =~= s.insert(pos as int, m));
        }
        Ok(())
    }

    /// The identifiers of the records captured from `end` (included) up to
    /// `begin` (excluded), in milliseconds, that are public or, where
    /// `include_private` holds, private,
    /// newest first, at most `limit` of them; and the date of the last one
    /// returned, or `end` where none is: the `begin` of the next page.
    pub fn scan(&self, begin: i64, end: i64, include_private: bool, limit: u64) -> (r: (
        Vec<MediaId>,
        i64,
    ))
        ensures
            r.0@.len() == page(self@, begin as int, end as int, include_private, limit as int).len(),
            forall|j: int|
                0 <= j < r.0@.len() ==> r.0@[j]@ == page(
                    self@,
                    begin as int,
                    end as int,
                    include_private,
                    limit as int,
                )[j].media_id,
            r.1 as int == page_end(
                page(self@, begin as int, end as int, include_private, limit as int),
                end as int,
            ),
    {
        let ghost s = self@;
        let mut ids: Vec<MediaId> = Vec::new();
        let mut last: i64 = end;
        let n = self.records.len();
        let mut i: usize = 0;
        while i < n
            invariant
                n == s.len(),
                s == self@,
                i <= n,
                ids@.len() <= limit,
                ids@.len() == page(s.subrange(0, i as int), begin as int, end as int, include_private, limit as int).len(),
                forall|j: int|
                    0 <= j < ids@.len() ==> ids@[j]@ == page(
                        s.subrange(0, i as int),
                        begin as int,
                        end as int,
                        include_private,
                        limit as int,
                    )[j].media_id,
                last as int == page_end(
                    page(s.subrange(0, i as int), begin as int, end as int, include_private, limit as int),
                    end as int,
                ),
            decreases n - i,
        {
            let ghost w = window(s.subrange(0, i as int), begin as int, end as int, include_private);
            proof {
                assert(s.subrange(0, i + 1).drop_last() == s.subrange(0, i as int));
                assert(s.subrange(0, i + 1).last() == s[i as int]);
                assert(s[i as int] == self.records@[i as int]@);
            }
            let rec = &self.records[i];
            if end <= rec.date && rec.date < begin && (include_private || rec.visibility == MediaVisibility::Public) {
                if (ids.len() as u64) < limit {
                    proof {
                        assert(take(w, limit as int) == w);
                        assert(take(w.push(s[i as int]), limit as int) == w.push(s[i as int]));
                    }
                    ids.push(rec.media_id.clone());
                    last = rec.date;
                } else {
                    proof {
                        assert(take(w.push(s[i as int]), limit as int) =~= take(w, limit as int));
                    }
                }
            }
            i = i + 1;
        }
        proof {
            assert(s.subrange(0, n as int) == s);
        }
        (ids, last)
    }
}


impl MediaMeta {
    /// Stores this record in the catalog; see `Catalog::insert`.
    pub fn save(&self, catalog: &mut Catalog) -> (r: Result<(), PipelineError>)
        requires
            old(catalog).wf(),
        ensures
            final(catalog).wf(),
            r.is_err() <==> has_id(old(catalog)@, self@.media_id) || has_digest(
                old(catalog)@,
                self@.hashed,
            ),
            r.is_err() ==> r == Err::<(), PipelineError>(PipelineError::DuplicateKey),
            r.is_err() ==> final(catalog)@ == old(catalog)@,
            r.is_ok() ==> exists|k: int|
                0 <= k <= old(catalog)@.len() && final(catalog)@ == old(catalog)@.insert(k, self@),
    {
        catalog.insert(self.clone())
    }

    /// The record with identifier `media_id`; `NotFound` where there is none.
    pub fn open(catalog: &Catalog, media_id: &String) -> (r: Result<MediaMeta, PipelineError>)
        ensures
            r.is_err() <==> !has_id(catalog@, media_id@),
            r.is_err() ==> r == Err::<MediaMeta, PipelineError>(PipelineError::NotFound),
            r.is_ok() ==> exists|i: int|
                0 <= i < catalog@.len() && catalog@[i] == r.unwrap()@ && r.unwrap()@.media_id
                    == media_id@,
    {
        let n = catalog.records.len();
        let mut i: usize = 0;
        while i < n
            invariant
                n == catalog@.len(),
                i <= n,
                forall|j: int| 0 <= j < i ==> catalog@[j].media_id != media_id@,
            decreases n - i,
        {
            proof {
                assert(catalog@[i as int] == catalog.records@[i as int]@);
            }
            if catalog.records[i].media_id.0 == *media_id {
                return Ok(catalog.records[i].clone());
            }
            i = i + 1;
        }
        Err(PipelineError::NotFound)
    }

    /// The record whose content digest is `hashed`, if the content was
    /// ingested already.
    pub fn get_by_hashed(catalog: &Catalog, hashed: &Vec<u8>) -> (r: Option<MediaMeta>)
        ensures
            r.is_none() <==> !has_digest(catalog@, hashed@),
            r.is_some() ==> exists|i: int|
                0 <= i < catalog@.len() && catalog@[i] == r.unwrap()@ && r.unwrap()@.hashed
                    == hashed@,
    {
        let n = catalog.records.len();
        let mut i: usize = 0;
        while i < n
            invariant
                n == catalog@.len(),
                i <= n,
                forall|j: int| 0 <= j < i ==> catalog@[j].hashed != hashed@,
            decreases n - i,
        {
            proof {
                assert(catalog@[i as int] == catalog.records@[i as int]@);
            }
            if bytes_equal(&catalog.records[i].hashed, hashed) {
                return Some(catalog.records[i].clone());
            }
            i = i + 1;
        }
        None
    }
}

/// A record of visibility `v` may be returned: public records always,
/// private ones only where they are asked for.
pub open spec fn visible(v: MediaVisibility, include_private: bool) -> bool {
    include_private || v == MediaVisibility::Public
}

/// `r` is what a scan with the filter `option` returns, where the window's
/// upper bound is `begin`.
pub open spec fn scan_result(
    s: Seq<MediaMetaView>,
    begin: int,
    option: IdsFilter,
    include_private: bool,
    r: (Vec<MediaId>, i64),
) -> bool {
    let end = match option.end {
        Some(e) => e as int,
        None => 0,
    };
    let count = match option.count {
        Some(c) => c as int,
        None => crate::meta::DEFAULT_COUNT as int,
    };
    let p = page(s, begin, end, include_private, count);
    &&& r.0@.len() == p.len()
    &&& forall|j: int| 0 <= j < r.0@.len() ==> #[trigger] r.0@[j]@ == p[j].media_id
    &&& r.1 as int == page_end(p, end)
}

impl MediaId {
    /// Scans the catalog with a filter whose missing `begin` stands for
    /// `now` (see `IdsFilter::build_at` for the other defaults): the
    /// identifiers of the records of the window, newest first, and the date
    /// that bounds the next page.
    pub fn filter_at(catalog: &Catalog, option: IdsFilter, include_private: bool, now: i64) -> (r:
        (Vec<MediaId>, i64))
        ensures
            scan_result(
                catalog@,
                (match option.begin {
                    Some(b) => b,
                    None => now,
                }) as int,
                option,
                include_private,
                r,
            ),
    {
        let (begin, end, count) = option.build_at(now);
        catalog.scan(begin, end, include_private, count)
    }

    /// Scans the catalog with a filter whose missing `begin` stands for the
    /// current time; see `filter_at`.
    pub fn filter(catalog: &Catalog, option: IdsFilter, include_private: bool) -> (r: (
        Vec<MediaId>,
        i64,
    ))
        ensures
            option.begin.is_some() ==> scan_result(
                catalog@,
                option.begin.unwrap() as int,
                option,
                include_private,
                r,
            ),
            exists|now: i64| #[trigger] scan_result(catalog@, now as int, option, include_private, r),
    {
        let now = now_millis();
        let r = MediaId::filter_at(catalog, option, include_private, now);
        proof {
            let b = match option.begin {
                Some(b) => b,
                None => now,
            };
            assert(scan_result(catalog@, b as int, option, include_private, r));
        }
        r
    }
}

/// Every record of a window is a record of the scanned sequence, and lies in
/// the window.
pub proof fn lemma_window_members(s: Seq<MediaMetaView>, begin: int, end: int, include_private: bool)
    ensures
        window(s, begin, end, include_private).len() <= s.len(),
        forall|k: int|
            0 <= k < window(s, begin, end, include_private).len() ==> in_window(
                #[trigger] window(s, begin, end, include_private)[k],
                begin,
                end,
                include_private,
            ),
        forall|k: int|
            0 <= k < window(s, begin, end, include_private).len() ==> exists|i: int|
                0 <= i < s.len() && #[trigger] window(s, begin, end, include_private)[k] == s[i],
    decreases s.len(),
{
    if s.len() > 0 {
        let t = s.drop_last();
        lemma_window_members(t, begin, end, include_private);
        let w = window(s, begin, end, include_private);
        assert forall|k: int| 0 <= k < w.len() implies exists|i: int|
            0 <= i < s.len() && #[trigger] w[k] == s[i] by {
            if k < window(t, begin, end, include_private).len() {
                let i = choose|i: int| 0 <= i < t.len() && window(t, begin, end, include_private)[k] == t[i];
                assert(w[k] == s[i]);
            } else {
                assert(w[k] == s[s.len() - 1]);
            }
        }
    }
}

/// Records whose dates strictly decrease keep doing so in a window.
proof fn lemma_window_strictly_sorted(s: Seq<MediaMetaView>, begin: int, end: int, include_private: bool)
    requires
        forall|i: int, j: int| 0 <= i < j < s.len() ==> s[i].date > s[j].date,
    ensures
        forall|i: int, j: int|
            0 <= i < j < window(s, begin, end, include_private).len() ==> window(s, begin, end, include_private)[i].date
                > window(s, begin, end, include_private)[j].date,
    decreases s.len(),
{
    if s.len() > 0 {
        let t = s.drop_last();
        lemma_window_strictly_sorted(t, begin, end, include_private);
        lemma_window_members(t, begin, end, include_private);
        let wt = window(t, begin, end, include_private);
        let w = window(s, begin, end, include_private);
        assert forall|i: int, j: int| 0 <= i < j < w.len() implies w[i].date > w[j].date by {
            if j == wt.len() {
                let k = choose|k: int| 0 <= k < t.len() && wt[i] == t[k];
                assert(w[i] == t[k]);
                assert(w[j] == s[s.len() - 1]);
            }
        }
    }
}

/// Narrowing a window's upper bound: the records of the narrower window are
/// those of the wider one that fall in it.
proof fn lemma_window_narrow(
    s: Seq<MediaMetaView>,
    b1: int,
    b2: int,
    end: int,
    include_private: bool,
)
    requires
        b2 <= b1,
    ensures
        window(window(s, b1, end, include_private), b2, end, include_private) == window(s, b2, end, include_private),
    decreases s.len(),
{
    if s.len() > 0 {
        let t = s.drop_last();
        lemma_window_narrow(t, b1, b2, end, include_private);
        let w1 = window(s, b1, end, include_private);
        if in_window(s.last(), b1, end, include_private) {
            assert(w1.drop_last() == window(t, b1, end, include_private));
            assert(w1.last() == s.last());
        }
    }
}

/// A window whose upper bound is not above its lower bound holds nothing.
proof fn lemma_window_empty(s: Seq<MediaMetaView>, begin: int, end: int, include_private: bool)
    requires
        begin <= end,
    ensures
        window(s, begin, end, include_private) == Seq::<MediaMetaView>::empty(),
    decreases s.len(),
{
    if s.len() > 0 {
        lemma_window_empty(s.drop_last(), begin, end, include_private);
    }
}

/// Where the first `k` records are not older than `b` and the rest lie in
/// the window below `b`, the window below `b` is the rest.
proof fn lemma_window_split(w: Seq<MediaMetaView>, b: int, end: int, include_private: bool, k: int)
    requires
        0 <= k,
        forall|j: int| 0 <= j < k && j < w.len() ==> w[j].date >= b,
        forall|j: int| k <= j < w.len() ==> in_window(w[j], b, end, include_private),
    ensures
        window(w, b, end, include_private) == (if w.len() <= k {
            Seq::<MediaMetaView>::empty()
        } else {
            w.subrange(k, w.len() as int)
        }),
    decreases w.len(),
{
    if w.len() > 0 {
        let t = w.drop_last();
        lemma_window_split(t, b, end, include_private, k);
        if w.len() > k {
            if t.len() <= k {
                assert(w.subrange(k, w.len() as int) =~= seq![w.last()]);
            } else {
                assert(w.subrange(k, w.len() as int) =~= t.subrange(k, t.len() as int).push(
                    w.last(),
                ));
            }
        }
    }
}

/// Pagination: over records with distinct capture dates, a first page of
/// `l1` identifiers, followed by a page of `l2` scanned with the first page's
/// reported date as its upper bound, gives the first page of `l1 + l2`: the
/// two pages neither overlap nor leave a gap. Every record of the window that
/// the first page leaves out is older than every record on it.
pub proof fn lemma_consecutive_pages(
    c: Catalog,
    begin: int,
    end: int,
    include_private: bool,
    l1: int,
    l2: int,
)
    requires
        c.wf(),
        forall|i: int, j: int| 0 <= i < j < c@.len() ==> c@[i].date != c@[j].date,
        l1 >= 1,
        l2 >= 0,
    ensures
        ({
            let first = page(c@, begin, end, include_private, l1);
            let second = page(c@, page_end(first, end), end, include_private, l2);
            &&& first + second == page(c@, begin, end, include_private, l1 + l2)
            &&& forall|i: int, j: int|
                0 <= i < first.len() && first.len() <= j < window(c@, begin, end, include_private).len() ==> first[i].date
                    > window(c@, begin, end, include_private)[j].date
        }),
{
    let s = c@;
    let w = window(s, begin, end, include_private);
    let first = page(s, begin, end, include_private, l1);
    let d = page_end(first, end);
    lemma_window_strictly_sorted(s, begin, end, include_private);
    lemma_window_members(s, begin, end, include_private);
    if w.len() == 0 {
        lemma_window_empty(s, d, end, include_private);
        assert(first + page(s, d, end, include_private, l2) =~= page(s, begin, end, include_private, l1 + l2));
    } else {
        let k = first.len() as int;
        assert(first =~= w.subrange(0, k));
        assert(k >= 1);
        assert(first.last() == w[k - 1]);
        assert(d == w[k - 1].date);
        assert(in_window(w[k - 1], begin, end, include_private));
        assert forall|j: int| k <= j < w.len() implies in_window(w[j], d, end, include_private) by {
            assert(w[k - 1].date > w[j].date);
            assert(in_window(w[j], begin, end, include_private));
        }
        lemma_window_narrow(s, begin, d, end, include_private);
        lemma_window_split(w, d, end, include_private, k);
        let w2 = window(s, d, end, include_private);
        assert(first + take(w2, l2) =~= take(w, l1 + l2));
    }
}

/// Records of a window over records with distinct dates have distinct
/// identifiers.
proof fn lemma_window_ids_distinct(c: Catalog, begin: int, end: int, include_private: bool)
    requires
        c.wf(),
        forall|i: int, j: int| 0 <= i < j < c@.len() ==> c@[i].date != c@[j].date,
    ensures
        forall|i: int, j: int|
            0 <= i < j < window(c@, begin, end, include_private).len() ==> window(c@, begin, end, include_private)[i].media_id
                != window(c@, begin, end, include_private)[j].media_id,
{
    let s = c@;
    let w = window(s, begin, end, include_private);
    lemma_window_strictly_sorted(s, begin, end, include_private);
    lemma_window_members(s, begin, end, include_private);
    assert forall|i: int, j: int| 0 <= i < j < w.len() implies w[i].media_id != w[j].media_id by {
        let a = choose|a: int| 0 <= a < s.len() && w[i] == s[a];
        let b = choose|b: int| 0 <= b < s.len() && w[j] == s[b];
        assert(w[i].date > w[j].date);
        if a < b {
            assert(s[a].media_id != s[b].media_id);
        } else {
            assert(s[b].media_id != s[a].media_id);
        }
    }
}

/// Paging with `MediaId::filter`: over records with distinct capture dates,
/// a scan whose filter takes the previous scan's reported date as its
/// `begin` (and keeps its `end`) returns the identifiers that follow the
/// previous page's: the two pages share no identifier, and together they are
/// what one scan of both counts returns.
pub proof fn lemma_filter_pages(
    c: Catalog,
    begin: int,
    option1: IdsFilter,
    option2: IdsFilter,
    include_private: bool,
    r1: (Vec<MediaId>, i64),
    r2: (Vec<MediaId>, i64),
)
    requires
        c.wf(),
        forall|i: int, j: int| 0 <= i < j < c@.len() ==> c@[i].date != c@[j].date,
        scan_result(c@, begin, option1, include_private, r1),
        option2.begin == Some(r1.1),
        option2.end == option1.end,
        option1.count != Some(0u64),
        scan_result(c@, r1.1 as int, option2, include_private, r2),
    ensures
        ({
            let end = match option1.end {
                Some(e) => e as int,
                None => 0,
            };
            let l1 = match option1.count {
                Some(n) => n as int,
                None => crate::meta::DEFAULT_COUNT as int,
            };
            let l2 = match option2.count {
                Some(n) => n as int,
                None => crate::meta::DEFAULT_COUNT as int,
            };
            let both = page(c@, begin, end, include_private, l1 + l2);
            &&& r1.0@.len() + r2.0@.len() == both.len()
            &&& forall|j: int| 0 <= j < r1.0@.len() ==> r1.0@[j]@ == both[j].media_id
            &&& forall|j: int|
                0 <= j < r2.0@.len() ==> r2.0@[j]@ == both[r1.0@.len() + j].media_id
            &&& forall|i: int, j: int|
                0 <= i < r1.0@.len() && 0 <= j < r2.0@.len() ==> r1.0@[i]@ != r2.0@[j]@
        }),
{
    let end = match option1.end {
        Some(e) => e as int,
        None => 0,
    };
    let l1 = match option1.count {
        Some(n) => n as int,
        None => crate::meta::DEFAULT_COUNT as int,
    };
    let l2 = match option2.count {
        Some(n) => n as int,
        None => crate::meta::DEFAULT_COUNT as int,
    };
    lemma_consecutive_pages(c, begin, end, include_private, l1, l2);
    lemma_window_ids_distinct(c, begin, end, include_private);
    let first = page(c@, begin, end, include_private, l1);
    let second = page(c@, page_end(first, end), end, include_private, l2);
    let both = page(c@, begin, end, include_private, l1 + l2);
    let w = window(c@, begin, end, include_private);
    assert(both == first + second);
    assert(r1.1 as int == page_end(first, end));
    assert(r1.0@.len() == first.len());
    assert(r2.0@.len() == second.len());
    assert forall|j: int| 0 <= j < r2.0@.len() implies r2.0@[j]@ == both[r1.0@.len() + j].media_id by {
        assert(r2.0@[j]@ == second[j].media_id);
        assert(both[first.len() + j] == second[j]);
    }
    assert forall|i: int, j: int|
        0 <= i < r1.0@.len() && 0 <= j < r2.0@.len() implies r1.0@[i]@ != r2.0@[j]@ by {
        let x = first.len() + j;
        assert(r1.0@[i]@ == first[i].media_id);
        assert(r2.0@[j]@ == second[j].media_id);
        assert(both.len() <= w.len());
        assert(both[i] == first[i]);
        assert(both[x] == second[j]);
        assert(both[i] == w[i]);
        assert(both[x] == w[x]);
    }
}

} // verus!
