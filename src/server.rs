//! Plain values that the HTTP layer works with.
use vstd::prelude::*;
use crate::meta::MediaMeta;
use crate::thumbs::{get_origin_filenames, origins_of};

verus! {

/// Where and how the HTTP layer serves the archive.
pub struct Server {
    pub data_dir: String,
    pub port: u64,
}

/// What each request handler of the HTTP layer sees.
pub struct AppState {
    pub data_dir: String,
}

impl Server {
    /// The state that the server hands its request handlers.
    pub fn app_state(&self) -> (r: AppState)
        ensures
            r.data_dir@ == self.data_dir@,
    {
        AppState { data_dir: self.data_dir.clone() }
    }
}

/// A list of photo file names.
pub struct PhotoList {
    pub photos: Vec<String>,
}

impl PhotoList {
    /// The photos whose thumbnails are named in `names`.
    pub fn from_thumb_names(names: &Vec<String>) -> (r: PhotoList)
        ensures
            r.photos@.len() == origins_of(names@).len(),
            forall|i: int| 0 <= i < r.photos@.len() ==> #[trigger] r.photos@[i]@ == origins_of(names@)[i],
    {
        PhotoList { photos: get_origin_filenames(names) }
    }
}

/// The text form of a naive timestamp given in milliseconds, `None` where it
/// is out of range.
pub uninterp spec fn datetime_text_of(millis: i64) -> Option<Seq<char>>;

/// Relies on `chrono::DateTime::from_timestamp_millis`, which gives `None`
/// out of range, and the `Display` of `chrono::NaiveDateTime` (date, a space,
/// time): the text depends on the timestamp alone.
#[verifier::external_body]
fn datetime_text(millis: i64) -> (r: Option<String>)
    ensures
        match r {
            Some(t) => datetime_text_of(millis) == Some(t@),
            None => datetime_text_of(millis).is_none(),
        },
{
    chrono::DateTime::from_timestamp_millis(millis).map(|d| d.naive_utc().to_string())
}

/// What the HTTP layer tells of one media item.
pub struct Meta {
    pub id: String,
    pub origin_name: String,
    pub date: String,
    pub attributes: Option<Vec<(String, String)>>,
}

impl Meta {
    /// The description of a record, its date as text; `None` where the date
    /// is out of the range that can be written.
    pub fn from_meta(meta: MediaMeta) -> (r: Option<Meta>)
        ensures
            datetime_text_of(meta.date).is_some() <==> r.is_some(),
            r.is_some() ==> ({
                let m = r.unwrap();
                &&& m.id@ == meta.media_id@
                &&& m.origin_name@ == meta.origin@
                &&& Some(m.date@) == datetime_text_of(meta.date)
                &&& m.attributes == meta.attributes
            }),
    {
        match datetime_text(meta.date) {
            Some(date) => Some(
                Meta {
                    id: meta.media_id.0,
                    origin_name: meta.origin,
                    date,
                    attributes: meta.attributes,
                },
            ),
            None => None,
        }
    }
}

} // verus!
