//! The ingestion pipeline: one file, or a batch of files, into the catalog.
//!
//! Each file is hashed; a file whose content is catalogued already resolves
//! to the existing record. Otherwise its capture date is resolved, its
//! thumbnail made and a new record inserted.
use vstd::prelude::*;
use crate::catalog::{Catalog, digests_unique, has_digest, has_id};
use crate::common::MEDIA_DIRECTORY_NAME;
use crate::date::{exif_date_of, resolve_date};
use crate::error::PipelineError;
use crate::hash::{get_file_hash, sha512_of};
use crate::meta::{MediaId, MediaMeta, MediaMetaView, MediaVisibility};
use crate::thumb::{create_thumb, thumb_matches, thumb_result, Thumbnail};

verus! {

/// File name of a media item's thumbnail inside its directory.
pub const THUMB_FILE_NAME: &'static str = "thumb.jpg";

/// Options of ingestion. There are none yet.
pub struct MediaGenerateOption {}

impl Default for MediaGenerateOption {
    fn default() -> (r: Self) {
        MediaGenerateOption {  }
    }
}

/// A catalogued media item.
pub struct Media {
    pub meta: MediaMeta,
}

impl From<MediaMeta> for Media {
    fn from(meta: MediaMeta) -> (r: Self) {
        Media { meta }
    }
}

impl vstd::std_specs::convert::FromSpecImpl<MediaMeta> for Media {
    open spec fn obeys_from_spec() -> bool {
        true
    }

    open spec fn from_spec(meta: MediaMeta) -> Self {
        Media { meta }
    }
}

/// A source file handed to the pipeline: where it came from, its bytes, and
/// its filesystem creation time in milliseconds where that could be read.
pub struct SourceFile {
    pub origin: String,
    pub content: Vec<u8>,
    pub created: Option<i64>,
}

/// How a file that was ingested ended.
pub enum Ingested {
    /// Its content was catalogued already: the existing item.
    Deduplicated(Media),
    /// A new item was catalogued, with its thumbnail for the content store.
    Cataloged(Media, Thumbnail),
}

impl Ingested {
    /// The item the file resolved to.
    pub fn media(&self) -> (r: &Media)
        ensures
            r == (match self {
                Ingested::Deduplicated(m) => m,
                Ingested::Cataloged(m, _) => m,
            }),
    {
        match self {
            Ingested::Deduplicated(m) => m,
            Ingested::Cataloged(m, _) => m,
        }
    }
}

/// The record that an ingestion resolved to.
pub open spec fn ingested_meta(r: Ingested) -> MediaMetaView {
    match r {
        Ingested::Deduplicated(m) => m.meta@,
        Ingested::Cataloged(m, _) => m.meta@,
    }
}

/// What cataloguing new content leaves, given the minted identifier `id`
/// and the resolved date `date`: the catalog `new` and the outcome `r`.
///
/// Where no thumbnail can be made, that error, and nothing changes. Where the
/// identifier or the digest is in the catalog already, `DuplicateKey`, and
/// nothing changes. Otherwise a new private record without attributes is
/// inserted and returned with its thumbnail.
pub open spec fn cataloged(
    old: Seq<MediaMetaView>,
    new: Seq<MediaMetaView>,
    origin: Seq<char>,
    content: Seq<u8>,
    hashed: Seq<u8>,
    date: i64,
    id: Seq<char>,
    r: Result<Ingested, PipelineError>,
) -> bool {
    match thumb_result(content) {
        Err(e) => new == old && r == Err::<Ingested, PipelineError>(e),
        Ok(_) => if has_id(old, id) || has_digest(old, hashed) {
            new == old && r == Err::<Ingested, PipelineError>(PipelineError::DuplicateKey)
        } else {
            match r {
                Ok(Ingested::Cataloged(m, t)) => {
                    &&& m.meta@ == (MediaMetaView {
                        media_id: id,
                        origin,
                        visibility: MediaVisibility::Private,
                        date,
                        hashed,
                        attributes: None,
                    })
                    &&& thumb_matches(t, content)
                    &&& exists|k: int| 0 <= k <= old.len() && new == old.insert(k, m.meta@)
                },
                _ => false,
            }
        },
    }
}

/// The date that the fallback chain may give for `content` and `created`:
/// the embedded date where there is one, else `created` where there is one;
/// only the clock's reading is left open.
pub open spec fn date_allowed(content: Seq<u8>, created: Option<i64>, date: i64) -> bool {
    &&& exif_date_of(content).is_some() ==> date == exif_date_of(content).unwrap()
    &&& exif_date_of(content).is_none() && created.is_some() ==> date == created.unwrap()
}

/// What ingesting a file with bytes `content`, from `origin`, created at
/// `created`, into the catalog `old` leaves: the catalog `new` and the
/// outcome `r`.
///
/// Known content resolves to its record and changes nothing. New content is
/// catalogued as `cataloged` says, for a freshly minted 36-character
/// identifier and the date that the fallback chain gives.
pub open spec fn generated(
    old: Seq<MediaMetaView>,
    new: Seq<MediaMetaView>,
    origin: Seq<char>,
    content: Seq<u8>,
    created: Option<i64>,
    r: Result<Ingested, PipelineError>,
) -> bool {
    let d = sha512_of(content);
    if has_digest(old, d) {
        &&& new == old
        &&& r.is_ok()
        &&& r.unwrap() is Deduplicated
        &&& exists|i: int| 0 <= i < old.len() && old[i] == ingested_meta(r.unwrap()) && old[i].hashed == d
    } else {
        exists|date: i64, id: Seq<char>|
            {
                &&& id.len() == 36
                &&& date_allowed(content, created, date)
                &&& #[trigger] cataloged(old, new, origin, content, d, date, id, r)
            }
    }
}

impl Media {
    /// Ingests one file into the catalog (see `generated`). The thumbnail of
    /// a new item is returned for the caller to store; nothing is written.
    pub fn generate(catalog: &mut Catalog, file: &SourceFile, _option: &MediaGenerateOption) -> (r:
        Result<Ingested, PipelineError>)
        requires
            old(catalog).wf(),
        ensures
            final(catalog).wf(),
            generated(old(catalog)@, final(catalog)@, file.origin@, file.content@, file.created, r),
    {
        let hashed = get_file_hash(&file.content);
        match MediaMeta::get_by_hashed(catalog, &hashed) {
            Some(meta) => {
                return Ok(Ingested::Deduplicated(Media { meta }));
            },
            None => {},
        }
        let date = resolve_date(&file.content, file.created);
        let id = MediaId::new();
        let ghost idv = id@;
        let ghost hv = hashed@;
        let r = Media::catalog_new(catalog, file, hashed, date, id);
        proof {
            assert(cataloged(old(catalog)@, catalog@, file.origin@, file.content@, hv, date, idv, r));
        }
        r
    }

    /// Catalogues new content under the identifier `media_id` and the date
    /// `date` (see `cataloged`): makes its thumbnail, then inserts its record.
    pub fn catalog_new(
        catalog: &mut Catalog,
        file: &SourceFile,
        hashed: Vec<u8>,
        date: i64,
        media_id: MediaId,
    ) -> (r: Result<Ingested, PipelineError>)
        requires
            old(catalog).wf(),
        ensures
            final(catalog).wf(),
            cataloged(
                old(catalog)@,
                final(catalog)@,
                file.origin@,
                file.content@,
                hashed@,
                date,
                media_id@,
                r,
            ),
    {
        let thumb = match create_thumb(&file.content) {
            Ok(t) => t,
            Err(e) => return Err(e),
        };
        let meta = MediaMeta {
            media_id,
            origin: file.origin.clone(),
            visibility: MediaVisibility::Private,
            date,
            hashed,
            attributes: None,
        };
        match catalog.insert(meta.clone()) {
            Ok(()) => Ok(Ingested::Cataloged(Media { meta }, thumb)),
            Err(e) => Err(e),
        }
    }

    /// Ingests a batch of files in order. Each file gets its own outcome, at
    /// its own index: a file that fails neither stops the batch nor changes
    /// the catalog, and the files after it are ingested as if it were absent.
    pub fn generate_many(
        catalog: &mut Catalog,
        files: &Vec<SourceFile>,
        option: &MediaGenerateOption,
    ) -> (r: Vec<Result<Ingested, PipelineError>>)
        requires
            old(catalog).wf(),
        ensures
            final(catalog).wf(),
            r@.len() == files@.len(),
            exists|cs: Seq<Seq<MediaMetaView>>|
                {
                    &&& cs.len() == files@.len() + 1
                    &&& cs[0] == old(catalog)@
                    &&& cs[files@.len() as int] == final(catalog)@
                    &&& forall|i: int|
                        0 <= i < files@.len() ==> #[trigger] generated(
                            cs[i],
                            cs[i + 1],
                            files@[i].origin@,
                            files@[i].content@,
                            files@[i].created,
                            r@[i],
                        )
                },
    {
        let ghost cs: Seq<Seq<MediaMetaView>> = seq![catalog@];
        let mut out: Vec<Result<Ingested, PipelineError>> = Vec::new();
        let mut i: usize = 0;
        while i < files.len()
            invariant
                catalog.wf(),
                i <= files@.len(),
                out@.len() == i,
                cs.len() == i + 1,
                cs[0] == old(catalog)@,
                cs[i as int] == catalog@,
                forall|j: int|
                    0 <= j < i ==> #[trigger] generated(
                        cs[j],
                        cs[j + 1],
                        files@[j].origin@,
                        files@[j].content@,
                        files@[j].created,
                        out@[j],
                    ),
            decreases files@.len() - i,
        {
            let r = Media::generate(catalog, &files[i], option);
            out.push(r);
            proof {
                cs = cs.push(catalog@);
            }
            i = i + 1;
        }
        out
    }

    /// Where this item's thumbnail lives under the data directory
    /// `<data_directory>/media/<media_id>/thumb.jpg`.
    pub fn get_thumb(&self, data_directory: &String) -> (r: String)
        ensures
            r@ == thumb_path_of(data_directory@, self.meta.media_id@),
    {
        let dir = media_directory(data_directory, &self.meta.media_id);
        let r = dir.concat("/").concat(THUMB_FILE_NAME);
        proof {
            reveal_strlit("/");
            assert(r@ =~= thumb_path_of(data_directory@, self.meta.media_id@));
        }
        r
    }

    /// Where the item's original file lives: the path it was ingested from.
    pub fn get_origin(&self) -> (r: String)
        ensures
            r@ == self.meta.origin@,
    {
        self.meta.origin.clone()
    }
}

/// The directory of a media item: `<data_directory>/media/<media_id>`.
pub open spec fn media_directory_of(data_directory: Seq<char>, id: Seq<char>) -> Seq<char> {
    data_directory + seq!['/'] + MEDIA_DIRECTORY_NAME@ + seq!['/'] + id
}

/// The thumbnail of a media item: `<data_directory>/media/<media_id>/thumb.jpg`.
pub open spec fn thumb_path_of(data_directory: Seq<char>, id: Seq<char>) -> Seq<char> {
    media_directory_of(data_directory, id) + seq!['/'] + THUMB_FILE_NAME@
}

/// The directory that holds a media item's derived files, and nothing else's.
pub fn media_directory(data_directory: &String, media_id: &MediaId) -> (r: String)
    ensures
        r@ == media_directory_of(data_directory@, media_id@),
{
    let r = data_directory.clone().concat("/").concat(MEDIA_DIRECTORY_NAME).concat("/").concat(
        media_id.as_str(),
    );
    proof {
        reveal_strlit("/");
        assert(r@ =~= media_directory_of(data_directory@, media_id@));
    }
    r
}

/// Deduplication: where a file was ingested successfully, a second file with
/// the same bytes ingested after it into the same catalog succeeds too and
/// resolves to the same identifier, and afterwards exactly one record holds
/// their digest.
pub proof fn lemma_dedup(
    c0: Catalog,
    c1: Catalog,
    c2: Catalog,
    a: SourceFile,
    b: SourceFile,
    r1: Result<Ingested, PipelineError>,
    r2: Result<Ingested, PipelineError>,
)
    requires
        c0.wf(),
        c1.wf(),
        c2.wf(),
        a.content@ == b.content@,
        generated(c0@, c1@, a.origin@, a.content@, a.created, r1),
        generated(c1@, c2@, b.origin@, b.content@, b.created, r2),
        r1.is_ok(),
    ensures
        r2.is_ok(),
        r2.unwrap() is Deduplicated,
        ingested_meta(r1.unwrap()).media_id == ingested_meta(r2.unwrap()).media_id,
        exists|i: int| 0 <= i < c2@.len() && c2@[i].hashed == sha512_of(a.content@),
        forall|i: int, j: int|
            0 <= i < c2@.len() && 0 <= j < c2@.len() && c2@[i].hashed == sha512_of(a.content@)
                && c2@[j].hashed == sha512_of(a.content@) ==> i == j,
{
    let d = sha512_of(a.content@);
    let m1 = ingested_meta(r1.unwrap());
    if !has_digest(c0@, d) {
        let (date, id) = choose|date: i64, id: Seq<char>|
            {
                &&& id.len() == 36
                &&& date_allowed(a.content@, a.created, date)
                &&& #[trigger] cataloged(c0@, c1@, a.origin@, a.content@, d, date, id, r1)
            };
        assert(thumb_result(a.content@).is_ok());
        assert(!has_id(c0@, id));
        assert(r1.unwrap() is Cataloged);
        let k = choose|k: int| 0 <= k <= c0@.len() && c1@ == c0@.insert(k, m1);
        assert(c1@[k] == m1);
        assert(has_digest(c1@, d));
    }
    assert(has_digest(c1@, d));
    let j = choose|j: int|
        0 <= j < c1@.len() && c1@[j] == ingested_meta(r2.unwrap()) && c1@[j].hashed == d;
    if has_digest(c0@, d) {
        let i = choose|i: int| 0 <= i < c0@.len() && c0@[i] == m1 && c0@[i].hashed == d;
        assert(digests_unique(c1@));
        if i != j {
            if i < j {
                assert(c1@[i].hashed != c1@[j].hashed);
            } else {
                assert(c1@[j].hashed != c1@[i].hashed);
            }
        }
    } else {
        let (date, id) = choose|date: i64, id: Seq<char>|
            {
                &&& id.len() == 36
                &&& date_allowed(a.content@, a.created, date)
                &&& #[trigger] cataloged(c0@, c1@, a.origin@, a.content@, d, date, id, r1)
            };
        assert(thumb_result(a.content@).is_ok());
        assert(!has_id(c0@, id));
        let k = choose|k: int| 0 <= k <= c0@.len() && c1@ == c0@.insert(k, m1);
        if k != j {
            if k < j {
                assert(c1@[k].hashed != c1@[j].hashed);
            } else {
                assert(c1@[j].hashed != c1@[k].hashed);
            }
        }
    }
    assert forall|i: int, j2: int|
        0 <= i < c2@.len() && 0 <= j2 < c2@.len() && c2@[i].hashed == d && c2@[j2].hashed
            == d implies i == j2 by {
        if i < j2 {
            assert(c2@[i].hashed != c2@[j2].hashed);
        } else if j2 < i {
            assert(c2@[j2].hashed != c2@[i].hashed);
        }
    }
}

} // verus!
