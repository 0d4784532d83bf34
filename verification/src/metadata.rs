//! The record that is read out of a watch page.
//!
//! A record holds the title of the page, the identifier of the video, its
//! duration, and a fresh name for the file that the thumbnail goes to. The
//! title and the canonical address each come from the first element that
//! carries one; the duration comes from the first script that states it.
//! The address of the thumbnail is computed from the identifier.

use crate::decimal::{decimal_of, parse_decimal};
use crate::duration::{duration_in_scripts, find_duration};
use crate::millis::Millis;
use crate::page::{read_outcome, Page, PageError, PageView};
use crate::video_id::{video_id_of, YoutubeVideoId};
use vstd::prelude::*;
use vstd::string::*;

verus! {

/// Why a page gave no record.
#[derive(Clone, Copy, Debug, PartialEq, Eq)]
pub enum ExtractError {
    /// No element carries a title.
    MissingTitle,
    /// No script states a duration.
    MissingDuration,
    /// The duration that is stated is no number of milliseconds.
    MalformedDuration,
    /// No element carries a canonical address.
    MissingCanonicalUrl,
    /// The canonical address names no video.
    InvalidCanonicalUrl,
    /// A selector or pattern of this library was refused: a fault of the
    /// library itself, not of the page.
    InvalidPattern,
    /// The document is longer than the markup parser takes.
    DocumentTooLong,
}

/// The metadata of one video.
#[derive(Clone, Debug)]
pub struct Metada {
    /// The title of the page.
    pub title: String,
    /// The identifier of the video.
    pub id: YoutubeVideoId,
    /// How long the video runs.
    pub duration: Millis,
    /// The name of the file that the thumbnail is saved under.
    pub img_name: String,
}

/// What a record holds of the page itself.
pub ghost struct Fields {
    pub title: Seq<char>,
    pub id: Seq<char>,
    pub duration: nat,
}

/// The first of `values`, where there is one and it holds a text.
pub open spec fn first_value(values: Seq<Option<Seq<char>>>) -> Option<Seq<char>> {
    if values.len() > 0 {
        values[0]
    } else {
        None
    }
}

/// The fields that a title, the digits of a duration and a canonical
/// address give, or the first of them that is missing or unfit.
pub open spec fn fields_of(
    title: Option<Seq<char>>,
    duration: Option<Seq<char>>,
    canonical_url: Option<Seq<char>>,
) -> Result<Fields, ExtractError> {
    match (title, duration, canonical_url) {
        (None, _, _) => Err(ExtractError::MissingTitle),
        (Some(_), None, _) => Err(ExtractError::MissingDuration),
        (Some(title), Some(digits), canonical_url) => match (decimal_of(digits), canonical_url) {
            (None, _) => Err(ExtractError::MalformedDuration),
            (Some(_), None) => Err(ExtractError::MissingCanonicalUrl),
            (Some(milliseconds), Some(url)) => match video_id_of(url) {
                None => Err(ExtractError::InvalidCanonicalUrl),
                Some(id) => Ok(Fields { title, id, duration: milliseconds as nat }),
            },
        },
    }
}

/// Digits and the letters `a` to `f`.
pub open spec fn is_hex_digit(c: char) -> bool {
    ('0' <= c && c <= '9') || ('a' <= c && c <= 'f')
}

/// The text of a random identifier: thirty-two hexadecimal digits in five
/// groups with hyphens between them, the third group starting with `4`
/// and the fourth with one of `8`, `9`, `a`, `b`.
pub open spec fn is_uuid_text(s: Seq<char>) -> bool {
    &&& s.len() == 36
    &&& forall|i: int|
        0 <= i < 36 ==> if i == 8 || i == 13 || i == 18 || i == 23 {
            #[trigger] s[i] == '-'
        } else {
            is_hex_digit(s[i])
        }
    &&& s[14] == '4'
    &&& (s[19] == '8' || s[19] == '9' || s[19] == 'a' || s[19] == 'b')
}

/// The name of a thumbnail file: a random identifier and `.jpg`.
pub open spec fn is_image_name(s: Seq<char>) -> bool {
    exists|token: Seq<char>| is_uuid_text(token) && s == #[trigger] (token + ".jpg"@)
}

/// How the result of reading a page relates to the page.
///
/// The record holds the fields that the first title, the first stated
/// duration and the first canonical address give, and a fresh image name.
/// An error is the first thing found missing or unfit.
pub open spec fn extraction(page: PageView, r: Result<Metada, ExtractError>) -> bool {
    match duration_in_scripts(page.scripts) {
        None => r matches Err(e) && e == ExtractError::InvalidPattern,
        Some(duration) => {
            let fields = fields_of(
                first_value(page.titles),
                duration,
                first_value(page.canonical_urls),
            );
            match r {
                Ok(record) => fields == Ok::<Fields, ExtractError>(record.fields())
                    && is_image_name(record.img_name@),
                Err(e) => fields == Err::<Fields, ExtractError>(e),
            }
        },
    }
}

/// What the standard library's lossy decoding makes of `bytes`.
pub uninterp spec fn utf8_lossy(bytes: Seq<u8>) -> Seq<char>;

/// `String::from_utf8_lossy`: the text that the bytes encode, with a
/// replacement character wherever they encode none.
///
/// Not proved: that the result is the one that `utf8_lossy` names.
#[verifier::external_body]
fn decode_lossy(bytes: &[u8]) -> (r: String)
    ensures
        r@ == utf8_lossy(bytes@),
{
    String::from_utf8_lossy(bytes).into_owned()
}

/// `uuid::Uuid::new_v4`, written out by its `Display`: lower-case
/// hexadecimal digits with hyphens, version 4, variant 1.
///
/// Not proved: the shape of the text. Nothing is claimed of its digits
/// beyond the shape, since they are drawn at random.
#[verifier::external_body]
fn fresh_token() -> (r: String)
    ensures
        is_uuid_text(r@),
{
    uuid::Uuid::new_v4().to_string()
}

fn first_of(values: &Vec<Option<String>>) -> (r: Option<&str>)
    ensures
        r.deep_view() == first_value(values.deep_view()),
{
    if values.len() == 0 {
        return None;
    }
    match &values[0] {
        Some(text) => Some(text.as_str()),
        None => None,
    }
}

impl Metada {
    /// The fields of the record that come from the page.
    pub open spec fn fields(self) -> Fields {
        Fields { title: self.title@, id: self.id@, duration: self.duration@ }
    }

    /// Puts a record together from what was found on a page.
    ///
    /// `duration` is the text found behind the duration key, `token` the
    /// fresh part of the image name.
    pub fn from_parts(
        title: Option<&str>,
        duration: Option<&str>,
        canonical_url: Option<&str>,
        token: &str,
    ) -> (r: Result<Metada, ExtractError>)
        ensures
            match r {
                Ok(record) => {
                    &&& fields_of(
                        title.deep_view(),
                        duration.deep_view(),
                        canonical_url.deep_view(),
                    ) == Ok::<Fields, ExtractError>(record.fields())
                    &&& record.img_name@ == token@ + ".jpg"@
                },
                Err(e) => fields_of(
                    title.deep_view(),
                    duration.deep_view(),
                    canonical_url.deep_view(),
                ) == Err::<Fields, ExtractError>(e),
            },
    {
        match Metada::read_fields(title, duration, canonical_url) {
            Ok(parts) => Ok(Metada::named(parts.0, parts.1, parts.2, token)),
            Err(e) => Err(e),
        }
    }

    /// The three fields that come from the page, or the first thing found
    /// missing or unfit.
    fn read_fields(
        title: Option<&str>,
        duration: Option<&str>,
        canonical_url: Option<&str>,
    ) -> (r: Result<(String, YoutubeVideoId, Millis), ExtractError>)
        ensures
            match r {
                Ok(parts) => fields_of(
                    title.deep_view(),
                    duration.deep_view(),
                    canonical_url.deep_view(),
                ) == Ok::<Fields, ExtractError>(
                    (Fields { title: parts.0@, id: parts.1@, duration: parts.2@ }),
                ),
                Err(e) => fields_of(
                    title.deep_view(),
                    duration.deep_view(),
                    canonical_url.deep_view(),
                ) == Err::<Fields, ExtractError>(e),
            },
    {
        let title = match title {
            Some(text) => text,
            None => {
                return Err(ExtractError::MissingTitle);
            },
        };
        let digits = match duration {
            Some(text) => text,
            None => {
                return Err(ExtractError::MissingDuration);
            },
        };
        let milliseconds = match parse_decimal(digits) {
            Some(value) => value,
            None => {
                return Err(ExtractError::MalformedDuration);
            },
        };
        let url = match canonical_url {
            Some(text) => text,
            None => {
                return Err(ExtractError::MissingCanonicalUrl);
            },
        };
        let id = match YoutubeVideoId::parse(url) {
            Ok(id) => id,
            Err(_) => {
                return Err(ExtractError::InvalidCanonicalUrl);
            },
        };
        Ok((String::from_str(title), id, Millis::new(milliseconds)))
    }

    /// The record of the given fields, with the image named after `token`.
    fn named(title: String, id: YoutubeVideoId, duration: Millis, token: &str) -> (r: Metada)
        ensures
            r.fields() == (Fields { title: title@, id: id@, duration: duration@ }),
            r.img_name@ == token@ + ".jpg"@,
    {
        let mut img_name = String::from_str(token);
        img_name.append(".jpg");
        Metada { title, id, duration, img_name }
    }

    /// Reads the record out of a page. The image name is drawn last, and
    /// only where there is a record to give it to.
    pub fn new(page: &Page) -> (r: Result<Metada, ExtractError>)
        ensures
            extraction(page@, r),
    {
        let found = match find_duration(&page.scripts) {
            Some(found) => found,
            None => {
                return Err(ExtractError::InvalidPattern);
            },
        };
        let duration = match &found {
            Some(digits) => Some(digits.as_str()),
            None => None,
        };
        let fields = Metada::read_fields(
            first_of(&page.titles),
            duration,
            first_of(&page.canonical_urls),
        );
        match fields {
            Ok(parts) => {
                let token = fresh_token();
                Ok(Metada::named(parts.0, parts.1, parts.2, token.as_str()))
            },
            Err(e) => Err(e),
        }
    }

    /// Reads the record out of the bytes of a document, which may break
    /// off anywhere. Bytes that encode no text are replaced, not refused;
    /// it is the text so decoded whose length must suit the parser.
    pub fn extract(document: &[u8]) -> (r: Result<Metada, ExtractError>)
        ensures
            match read_outcome(utf8_lossy(document@)) {
                Err(PageError::TooLong) => r matches Err(e) && e
                    == ExtractError::DocumentTooLong,
                Err(PageError::InvalidSelector) => r matches Err(e) && e
                    == ExtractError::InvalidPattern,
                Ok(page) => extraction(page, r),
            },
    {
        let text = decode_lossy(document);
        match Page::read(text.as_str()) {
            Err(PageError::TooLong) => Err(ExtractError::DocumentTooLong),
            Err(PageError::InvalidSelector) => Err(ExtractError::InvalidPattern),
            Ok(page) => Metada::new(&page),
        }
    }

    /// The address that the thumbnail of the video is fetched from.
    pub fn thumbnail_url(&self) -> (r: String)
        ensures
            r@ == "https://i.ytimg.com/vi/"@ + self.id@ + "/maxresdefault.jpg"@,
    {
        let mut url = String::from_str("https://i.ytimg.com/vi/");
        url.append(self.id.as_str());
        url.append("/maxresdefault.jpg");
        url
    }
}

/// A page with a title and no stated duration gives `MissingDuration`,
/// whatever else it holds.
pub proof fn lemma_missing_duration(page: PageView, r: Result<Metada, ExtractError>)
    requires
        first_value(page.titles) is Some,
        duration_in_scripts(page.scripts) == Some(None::<Seq<char>>),
        extraction(page, r),
    ensures
        r matches Err(e) && e == ExtractError::MissingDuration,
{
}

} // verus!
