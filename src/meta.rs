//! The catalog's records: media identifiers, visibility, and the record itself.
use vstd::prelude::*;
use crate::date::now_millis;

verus! {

/// Who may see a media item. New items are private.
#[derive(Debug, Clone, Copy, PartialEq, Eq, Structural)]
pub enum MediaVisibility {
    Private,
    Public,
}

impl Default for MediaVisibility {
    fn default() -> (r: Self)
        ensures
            r == MediaVisibility::Private,
    {
        MediaVisibility::Private
    }
}

/// Relies on `uuid::Uuid::new_v4` and its `Display`, which writes the
/// hyphenated form (`fmt::Hyphenated::LENGTH`, 36 characters): a random
/// identifier, 36 characters long.
#[verifier::external_body]
fn new_uuid_text() -> (r: String)
    ensures
        r@.len() == 36,
{
    uuid::Uuid::new_v4().to_string()
}

/// A media identifier: a random 128-bit token in text form, minted once per
/// distinct content and never changed.
#[derive(Debug)]
pub struct MediaId(pub String);

impl View for MediaId {
    type V = Seq<char>;

    open spec fn view(&self) -> Seq<char> {
        self.0@
    }
}

impl Clone for MediaId {
    fn clone(&self) -> (r: Self)
        ensures
            r@ == self@,
    {
        MediaId(self.0.clone())
    }
}

impl From<String> for MediaId {
    fn from(id: String) -> (r: Self) {
        MediaId(id)
    }
}

impl vstd::std_specs::convert::FromSpecImpl<String> for MediaId {
    open spec fn obeys_from_spec() -> bool {
        true
    }

    open spec fn from_spec(id: String) -> Self {
        MediaId(id)
    }
}

impl MediaId {
    /// A freshly minted random identifier.
    pub fn new() -> (r: Self)
        ensures
            r@.len() == 36,
    {
        MediaId(new_uuid_text())
    }

    /// The identifier's text.
    pub fn as_str(&self) -> (r: &str)
        ensures
            r@ == self@,
    {
        self.0.as_str()
    }
}

/// The filter of a scan of identifiers: a window of capture dates, in
/// milliseconds, from `end` (included) up to `begin` (excluded), and how
/// many to return.
#[derive(Debug, Clone, Copy)]
pub struct IdsFilter {
    /// Capture dates before this are returned; the current time where absent.
    pub begin: Option<i64>,
    /// Oldest capture date to return; the epoch where absent.
    pub end: Option<i64>,
    /// How many identifiers to return at most; 100 where absent.
    pub count: Option<u64>,
}

/// How many identifiers a scan returns where the filter does not say.
pub const DEFAULT_COUNT: u64 = 100;

impl IdsFilter {
    /// The filter's `(begin, end, count)`, with `now` for a missing `begin`,
    /// the epoch (0) for a missing `end` and 100 for a missing `count`.
    pub fn build_at(self, now: i64) -> (r: (i64, i64, u64))
        ensures
            r.0 == (match self.begin {
                Some(b) => b,
                None => now,
            }),
            r.1 == (match self.end {
                Some(e) => e,
                None => 0,
            }),
            r.2 == (match self.count {
                Some(c) => c,
                None => DEFAULT_COUNT,
            }),
    {
        let begin = match self.begin {
            Some(b) => b,
            None => now,
        };
        let end = match self.end {
            Some(e) => e,
            None => 0,
        };
        let count = match self.count {
            Some(c) => c,
            None => DEFAULT_COUNT,
        };
        (begin, end, count)
    }

    /// The filter's `(begin, end, count)`, with the current time for a missing
    /// `begin`, the epoch for a missing `end` and 100 for a missing `count`.
    pub fn build(self) -> (r: (i64, i64, u64))
        ensures
            self.begin.is_some() ==> r.0 == self.begin.unwrap(),
            r.1 == (match self.end {
                Some(e) => e,
                None => 0,
            }),
            r.2 == (match self.count {
                Some(c) => c,
                None => DEFAULT_COUNT,
            }),
    {
        let now = now_millis();
        self.build_at(now)
    }
}

/// What a record holds, as values.
pub struct MediaMetaView {
    pub media_id: Seq<char>,
    pub origin: Seq<char>,
    pub visibility: MediaVisibility,
    pub date: i64,
    pub hashed: Seq<u8>,
    pub attributes: Option<Seq<(Seq<char>, Seq<char>)>>,
}

/// A catalog record: one distinct content, where it came from, when it was
/// captured (milliseconds since the epoch, naive time) and who may see it.
#[derive(Debug)]
pub struct MediaMeta {
    pub media_id: MediaId,
    pub origin: String,
    pub visibility: MediaVisibility,
    pub date: i64,
    pub hashed: Vec<u8>,
    pub attributes: Option<Vec<(String, String)>>,
}

/// The values of a list of text pairs.
pub open spec fn pairs_view(v: Seq<(String, String)>) -> Seq<(Seq<char>, Seq<char>)> {
    v.map_values(|p: (String, String)| (p.0@, p.1@))
}

impl View for MediaMeta {
    type V = MediaMetaView;

    open spec fn view(&self) -> MediaMetaView {
        MediaMetaView {
            media_id: self.media_id@,
            origin: self.origin@,
            visibility: self.visibility,
            date: self.date,
            hashed: self.hashed@,
            attributes: match self.attributes {
                Some(a) => Some(pairs_view(a@)),
                None => None,
            },
        }
    }
}

fn copy_bytes(b: &Vec<u8>) -> (r: Vec<u8>)
    ensures
        r@ == b@,
{
    let mut out: Vec<u8> = Vec::new();
    let mut i: usize = 0;
    while i < b.len()
        invariant
            i <= b@.len(),
            out@ == b@.subrange(0, i as int),
        decreases b@.len() - i,
    {
        out.push(b[i]);
        i = i + 1;
        proof {
            assert(out@ == b@.subrange(0, i as int));
        }
    }
    proof {
        assert(b@.subrange(0, b@.len() as int) == b@);
    }
    out
}

fn copy_pairs(v: &Vec<(String, String)>) -> (r: Vec<(String, String)>)
    ensures
        pairs_view(r@) == pairs_view(v@),
{
    let mut out: Vec<(String, String)> = Vec::new();
    let mut i: usize = 0;
    while i < v.len()
        invariant
            i <= v@.len(),
            out@.len() == i,
            pairs_view(out@) == pairs_view(v@.subrange(0, i as int)),
        decreases v@.len() - i,
    {
        let k = v[i].0.clone();
        let x = v[i].1.clone();
        let ghost prev = out@;
        out.push((k, x));
        i = i + 1;
        proof {
            assert(out@ == prev.push((k, x)));
            assert(v@.subrange(0, i as int) == v@.subrange(0, i - 1).push(v@[i - 1]));
            let a = pairs_view(out@);
            let b = pairs_view(v@.subrange(0, i as int));
            assert(a.len() == b.len());
            assert forall|j: int| 0 <= j < a.len() implies a[j] == b[j] by {
                assert(a[j] == (out@[j].0@, out@[j].1@));
                assert(b[j] == (v@[j].0@, v@[j].1@));
                if j < i - 1 {
                    assert(pairs_view(prev)[j] == pairs_view(v@.subrange(0, i - 1))[j]);
                    assert(pairs_view(prev)[j] == (prev[j].0@, prev[j].1@));
                }
            }
            assert(a =~= b);
        }
    }
    proof {
        assert(v@.subrange(0, v@.len() as int) == v@);
    }
    out
}

impl Clone for MediaMeta {
    fn clone(&self) -> (r: Self)
        ensures
            r@ == self@,
    {
        let attributes = match &self.attributes {
            Some(a) => Some(copy_pairs(a)),
            None => None,
        };
        MediaMeta {
            media_id: self.media_id.clone(),
            origin: self.origin.clone(),
            visibility: self.visibility,
            date: self.date,
            hashed: copy_bytes(&self.hashed),
            attributes,
        }
    }
}

impl MediaMeta {
    /// A new private record with a freshly minted identifier and no attributes.
    pub fn new(origin: String, hashed: Vec<u8>, date: i64) -> (r: Self)
        ensures
            r@.origin == origin@,
            r@.hashed == hashed@,
            r@.date == date,
            r@.visibility == MediaVisibility::Private,
            r@.attributes.is_none(),
            r@.media_id.len() == 36,
    {
        MediaMeta {
            date,
            hashed,
            origin,
            media_id: MediaId::new(),
            visibility: MediaVisibility::Private,
            attributes: None,
        }
    }

    /// The same record, made public.
    pub fn make_public(self) -> (r: Self)
        ensures
            r@ == (MediaMetaView { visibility: MediaVisibility::Public, ..self@ }),
    {
        MediaMeta { visibility: MediaVisibility::Public, ..self }
    }

    /// The same record, made private.
    pub fn make_private(self) -> (r: Self)
        ensures
            r@ == (MediaMetaView { visibility: MediaVisibility::Private, ..self@ }),
    {
        MediaMeta { visibility: MediaVisibility::Private, ..self }
    }
}

} // verus!
