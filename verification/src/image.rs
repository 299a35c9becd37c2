//! Image-side records and rules: the metadata kept for an uploaded emoji
//! image, the safety rating returned by the third-party image-safety
//! service with the threshold an upload must clear, the validation of emoji
//! names, and the exact request body sent to the safety service.

use vstd::prelude::*;

use crate::gateway::field_text;
use crate::json::json_as_string;
use crate::json::json_doc_of;
use crate::json::json_field;
use crate::json::json_get;
use crate::json::json_node_of;
use crate::json::json_parse;
use crate::json::JsonV;
use crate::numbers::str_eq;
use crate::gateway::append_json_escaped;
use crate::gateway::json_escaped;

verus! {

/// The kind of an uploaded image.
#[derive(Debug, Clone, Copy, PartialEq, Eq, Structural)]
pub enum ImageType {
    Gif,
    Png,
}

impl ImageType {
    /// The content-type header value this kind is served with.
    pub fn content_type_name(&self) -> (r: String)
        ensures
            r@ == match *self {
                ImageType::Gif => "image/gif"@,
                ImageType::Png => "image/png"@,
            },
    {
        match self {
            ImageType::Gif => String::from_str("image/gif"),
            ImageType::Png => String::from_str("image/png"),
        }
    }
}

/// The stored metadata of one uploaded image.
#[derive(Debug, PartialEq, Eq)]
pub struct ImageData {
    pub name: String,
    pub image_type: ImageType,
}

impl Clone for ImageData {
    /// A clone keeps every field.
    fn clone(&self) -> (r: Self)
        ensures
            r == *self,
    {
        ImageData { name: self.name.clone(), image_type: self.image_type }
    }
}

/// One uploaded image as listed to API callers.
#[derive(Debug, PartialEq, Eq)]
pub struct ImageDataApi {
    pub uuid: String,
    pub name: String,
    pub image_type: ImageType,
}

impl Clone for ImageDataApi {
    /// A clone keeps every field.
    fn clone(&self) -> (r: Self)
        ensures
            r == *self,
    {
        ImageDataApi {
            uuid: self.uuid.clone(),
            name: self.name.clone(),
            image_type: self.image_type,
        }
    }
}

/// The likelihood the safety service assigns one category, from most to
/// least worrying.
#[derive(Debug, Clone, Copy, PartialEq, Eq, Structural)]
pub enum Rating {
    Unknown,
    VeryUnlikely,
    Unlikely,
    Possible,
    Likely,
    VeryLikely,
}

/// The numeric rank of a likelihood: the higher, the safer; an unknown
/// likelihood ranks safest.
pub open spec fn spec_rating_rank(r: Rating) -> u8 {
    match r {
        Rating::Unknown => 5,
        Rating::VeryUnlikely => 4,
        Rating::Unlikely => 3,
        Rating::Possible => 2,
        Rating::Likely => 1,
        Rating::VeryLikely => 0,
    }
}

impl Rating {
    /// The numeric rank of this likelihood: the higher, the safer.
    pub fn rank(self) -> (r: u8)
        ensures
            r == spec_rating_rank(self),
    {
        match self {
            Rating::Unknown => 5,
            Rating::VeryUnlikely => 4,
            Rating::Unlikely => 3,
            Rating::Possible => 2,
            Rating::Likely => 1,
            Rating::VeryLikely => 0,
        }
    }
}

/// What likelihood a label of the safety service denotes.
pub open spec fn spec_rating_of_label(s: Seq<char>) -> Option<Rating> {
    if s == "UNKNOWN"@ {
        Some(Rating::Unknown)
    } else if s == "VERY_UNLIKELY"@ {
        Some(Rating::VeryUnlikely)
    } else if s == "UNLIKELY"@ {
        Some(Rating::Unlikely)
    } else if s == "POSSIBLE"@ {
        Some(Rating::Possible)
    } else if s == "LIKELY"@ {
        Some(Rating::Likely)
    } else if s == "VERY_LIKELY"@ {
        Some(Rating::VeryLikely)
    } else {
        None
    }
}

/// Decodes one likelihood label.
pub fn rating_of_label(s: &str) -> (r: Option<Rating>)
    ensures
        r == spec_rating_of_label(s@),
{
    if str_eq(s, "UNKNOWN") {
        Some(Rating::Unknown)
    } else if str_eq(s, "VERY_UNLIKELY") {
        Some(Rating::VeryUnlikely)
    } else if str_eq(s, "UNLIKELY") {
        Some(Rating::Unlikely)
    } else if str_eq(s, "POSSIBLE") {
        Some(Rating::Possible)
    } else if str_eq(s, "LIKELY") {
        Some(Rating::Likely)
    } else if str_eq(s, "VERY_LIKELY") {
        Some(Rating::VeryLikely)
    } else {
        None
    }
}

/// The safety rating of one image, one likelihood per category.
#[derive(Debug, Clone, Copy, PartialEq, Eq, Structural)]
pub struct ImageRating {
    pub racy: Rating,
    pub adult: Rating,
    pub spoof: Rating,
    pub violance: Rating,
    pub medical: Rating,
}

/// The strictest rating an upload must still clear: anything ordered below
/// it is rejected.
pub open spec fn spec_minimum_rating() -> ImageRating {
    ImageRating {
        racy: Rating::Unknown,
        adult: Rating::Possible,
        spoof: Rating::Unknown,
        violance: Rating::Possible,
        medical: Rating::Possible,
    }
}

/// The order on ratings: by rank, category by category, racy first.
pub open spec fn spec_rating_lt(a: ImageRating, b: ImageRating) -> bool {
    let ra = spec_rating_rank(a.racy);
    let rb = spec_rating_rank(b.racy);
    if ra != rb {
        ra < rb
    } else {
        let aa = spec_rating_rank(a.adult);
        let ab = spec_rating_rank(b.adult);
        if aa != ab {
            aa < ab
        } else {
            let sa = spec_rating_rank(a.spoof);
            let sb = spec_rating_rank(b.spoof);
            if sa != sb {
                sa < sb
            } else {
                let va = spec_rating_rank(a.violance);
                let vb = spec_rating_rank(b.violance);
                if va != vb {
                    va < vb
                } else {
                    spec_rating_rank(a.medical) < spec_rating_rank(b.medical)
                }
            }
        }
    }
}

impl ImageRating {
    /// The minimum rating an upload must clear.
    pub fn minimum() -> (r: ImageRating)
        ensures
            r == spec_minimum_rating(),
    {
        ImageRating {
            racy: Rating::Unknown,
            adult: Rating::Possible,
            spoof: Rating::Unknown,
            violance: Rating::Possible,
            medical: Rating::Possible,
        }
    }

    /// Whether this rating is ordered below another, category by category,
    /// racy first.
    pub fn is_below(&self, other: &ImageRating) -> (r: bool)
        ensures
            r == spec_rating_lt(*self, *other),
    {
        let ra = self.racy.rank();
        let rb = other.racy.rank();
        if ra != rb {
            return ra < rb;
        }
        let aa = self.adult.rank();
        let ab = other.adult.rank();
        if aa != ab {
            return aa < ab;
        }
        let sa = self.spoof.rank();
        let sb = other.spoof.rank();
        if sa != sb {
            return sa < sb;
        }
        let va = self.violance.rank();
        let vb = other.violance.rank();
        if va != vb {
            return va < vb;
        }
        self.medical.rank() < other.medical.rank()
    }

    /// Whether an image with this rating may be uploaded: it must not be
    /// ordered below the minimum rating.
    pub fn passes_upload_check(&self) -> (r: bool)
        ensures
            r == !spec_rating_lt(*self, spec_minimum_rating()),
    {
        !self.is_below(&ImageRating::minimum())
    }
}

/// The likelihood a modelled response member carries as a label.
pub open spec fn spec_rating_field(j: JsonV, key: Seq<char>) -> Option<Rating> {
    match field_text(j, key) {
        Some(t) => spec_rating_of_label(t),
        None => None,
    }
}

/// The rating a modelled safety response denotes: present exactly when the
/// response object carries all five category labels.
pub open spec fn spec_image_rating(doc: Option<JsonV>) -> Option<ImageRating> {
    match doc {
        Some(j) => match json_field(j, "response"@) {
            Some(resp) => match spec_rating_field(resp, "racy"@) {
                Some(racy) => match spec_rating_field(resp, "adult"@) {
                    Some(adult) => match spec_rating_field(resp, "spoof"@) {
                        Some(spoof) => match spec_rating_field(resp, "violance"@) {
                            Some(violance) => match spec_rating_field(resp, "medical"@) {
                                Some(medical) => Some(
                                    ImageRating { racy, adult, spoof, violance, medical },
                                ),
                                None => None,
                            },
                            None => None,
                        },
                        None => None,
                    },
                    None => None,
                },
                None => None,
            },
            None => None,
        },
        None => None,
    }
}

/// Decodes the safety service's response body into a rating: exactly the
/// rating the modelled body denotes through its five category labels.
pub fn decode_image_rating(text: &str) -> (r: Option<ImageRating>)
    ensures
        r == spec_image_rating(json_doc_of(text@)),
{
    let v = match json_parse(text) {
        Some(v) => v,
        None => {
            return None;
        },
    };
    let resp = match json_get(&v, "response") {
        Some(r) => r,
        None => {
            return None;
        },
    };
    let racy = match decode_rating_field(resp, "racy") {
        Some(r) => r,
        None => {
            return None;
        },
    };
    let adult = match decode_rating_field(resp, "adult") {
        Some(r) => r,
        None => {
            return None;
        },
    };
    let spoof = match decode_rating_field(resp, "spoof") {
        Some(r) => r,
        None => {
            return None;
        },
    };
    let violance = match decode_rating_field(resp, "violance") {
        Some(r) => r,
        None => {
            return None;
        },
    };
    let medical = match decode_rating_field(resp, "medical") {
        Some(r) => r,
        None => {
            return None;
        },
    };
    Some(ImageRating { racy, adult, spoof, violance, medical })
}

/// Reads one likelihood label out of the response object.
fn decode_rating_field(v: &serde_json::Value, key: &str) -> (r: Option<Rating>)
    ensures
        r == spec_rating_field(json_node_of(*v), key@),
{
    match json_get(v, key) {
        Some(field) => match json_as_string(field) {
            Some(label) => rating_of_label(label.as_str()),
            None => None,
        },
        None => None,
    }
}

/// Whether a character is allowed in an emoji name.
pub open spec fn is_ascii_alnum(c: char) -> bool {
    ('0' <= c && c <= '9') || ('a' <= c && c <= 'z') || ('A' <= c && c <= 'Z')
}

/// What makes an emoji name valid: two to thirty-two characters, ASCII
/// letters and digits only.
pub open spec fn spec_valid_emoji_name(s: Seq<char>) -> bool {
    2 <= s.len() <= 32 && forall|i: int| 0 <= i < s.len() ==> is_ascii_alnum(#[trigger] s[i])
}

/// Validates an emoji name before an upload.
pub fn validate_emoji_name(name: &str) -> (r: bool)
    ensures
        r == spec_valid_emoji_name(name@),
{
    let len = name.unicode_len();
    if len < 2 || len > 32 {
        return false;
    }
    let mut i: usize = 0;
    while i < len
        invariant
            0 <= i <= len,
            len == name@.len(),
            forall|j: int| 0 <= j < i ==> is_ascii_alnum(#[trigger] name@[j]),
        decreases len - i,
    {
        let c = name.get_char(i);
        let cu: u32 = c as u32;
        let ok = (cu >= 48 && cu <= 57) || (cu >= 97 && cu <= 122) || (cu >= 65 && cu <= 90);
        if !ok {
            proof {
                assert(!is_ascii_alnum(name@[i as int]));
            }
            return false;
        }
        proof {
            assert(is_ascii_alnum(name@[i as int]));
        }
        i = i + 1;
    }
    true
}

/// The permission bits whose absence lets a user upload to a guild's store.
pub const UPLOAD_PERMISSION_MASK: u64 = (1 << 30) | (1 << 3);

/// Whether a member's permission bits clear the upload check, exactly as
/// the store applies it.
pub fn upload_permission_granted(permissions: u64) -> (r: bool)
    ensures
        r == (permissions & UPLOAD_PERMISSION_MASK < 1),
{
    permissions & UPLOAD_PERMISSION_MASK < 1
}

/// What an uploaded image's content is named. Relies on base64::encode: the
/// encoding depends on the bytes alone.
pub uninterp spec fn base64_of(b: Seq<u8>) -> Seq<char>;

/// Relies on base64::encode: standard alphabet with padding, four output
/// characters for every three input bytes.
#[verifier::external_body]
pub fn encode_base64(bytes: &Vec<u8>) -> (r: String)
    ensures
        r@ == base64_of(bytes@),
        r@.len() == 4 * ((bytes@.len() + 2) / 3),
{
    base64::encode(bytes)
}

/// The request body sent to the safety service for an image carried inline,
/// base64-encoded.
pub open spec fn safe_search_body_spec(encoded: Seq<char>) -> Seq<char> {
    "{\"requests\":[{\"image\":{\"content\":\""@ + json_escaped(encoded)
        + "\"},\"features\":[{\"type\":\"SAFE_SEARCH_DETECTION\"}]}]}"@
}

/// Renders the request body sent to the safety service for an image carried
/// inline, base64-encoded.
pub fn safe_search_request_body(encoded: &str) -> (r: String)
    ensures
        r@ == safe_search_body_spec(encoded@),
{
    let mut out = String::from_str("{\"requests\":[{\"image\":{\"content\":\"");
    append_json_escaped(&mut out, encoded);
    out.append("\"},\"features\":[{\"type\":\"SAFE_SEARCH_DETECTION\"}]}]}");
    proof {
        assert(out@ =~= safe_search_body_spec(encoded@));
    }
    out
}

} // verus!
