use base64::Engine;
use rand::distr::SampleString;
use vstd::prelude::*;

verus! {

/// Scheme, host, port and path segments of a parsed URL.
pub struct UrlParts {
    pub scheme: String,
    pub host: Option<String>,
    pub port: Option<u16>,
    pub path_segments: Option<Vec<String>>,
}

pub open spec fn segments_view(v: Option<Vec<String>>) -> Option<Seq<Seq<char>>> {
    match v {
        Some(v) => Some(v@.map_values(|s: String| s@)),
        None => None,
    }
}

impl View for UrlParts {
    type V = (Seq<char>, Option<Seq<char>>, Option<u16>, Option<Seq<Seq<char>>>);

    open spec fn view(&self) -> Self::V {
        (
            self.scheme@,
            match self.host {
                Some(h) => Some(h@),
                None => None,
            },
            self.port,
            segments_view(self.path_segments),
        )
    }
}

/// What `url::Url::parse` makes of a text: the URL's scheme, host, explicit
/// port and path segments, or, when it is no absolute URL, the text of the
/// parse error.
pub uninterp spec fn url_parts(s: Seq<char>) -> Result<
    (Seq<char>, Option<Seq<char>>, Option<u16>, Option<Seq<Seq<char>>>),
    Seq<char>,
>;

/// Parses `s` with `url::Url::parse` and reads `scheme()`, `host_str()`, `port()`
/// and `path_segments()` of the result, or the error's `to_string()`. The
/// contract claims only that the answer is a function of `s`, named `url_parts`.
#[verifier::external_body]
pub(crate) fn parse_url(s: &str) -> (r: Result<UrlParts, String>)
    ensures
        match r {
            Ok(p) => url_parts(s@) == Ok::<_, Seq<char>>(p@),
            Err(e) => url_parts(s@) == Err::<(Seq<char>, Option<Seq<char>>, Option<u16>, Option<Seq<Seq<char>>>), Seq<char>>(e@),
        },
{
    match url::Url::parse(s) {
        Ok(u) => Ok(UrlParts {
            scheme: u.scheme().to_string(),
            host: u.host_str().map(|h| h.to_string()),
            port: u.port(),
            path_segments: u.path_segments().map(|ps| ps.map(|p| p.to_string()).collect()),
        }),
        Err(e) => Err(e.to_string()),
    }
}

/// What the standard base64 engine of the `base64` crate decodes a text into,
/// `None` when the text is no valid padded standard base64.
pub uninterp spec fn base64_decoded(s: Seq<char>) -> Option<Seq<u8>>;

/// Calls `base64::engine::general_purpose::STANDARD.decode` on the bytes of `s`.
/// The contract claims only that the answer is a function of `s`.
#[verifier::external_body]
pub(crate) fn decode_base64(s: &str) -> (r: Option<Vec<u8>>)
    ensures
        match r {
            Some(v) => base64_decoded(s@) == Some(v@),
            None => base64_decoded(s@) is None,
        },
{
    base64::engine::general_purpose::STANDARD.decode(s).ok()
}

/// A lower-case hexadecimal digit.
pub open spec fn is_lower_hex(c: char) -> bool {
    ('0' <= c <= '9') || ('a' <= c <= 'f')
}

/// The hyphenated text of a random (version 4, RFC 4122 variant) UUID:
/// 36 characters, hyphens at 8, 13, 18 and 23, lower-case hexadecimal
/// digits elsewhere, a `4` at 14 and one of `8`, `9`, `a`, `b` at 19.
pub open spec fn is_uuid_v4_text(s: Seq<char>) -> bool {
    &&& s.len() == 36
    &&& forall|i: int|
        0 <= i < 36 ==> if i == 8 || i == 13 || i == 18 || i == 23 {
            #[trigger] s[i] == '-'
        } else {
            is_lower_hex(s[i])
        }
    &&& s[14] == '4'
    &&& (s[19] == '8' || s[19] == '9' || s[19] == 'a' || s[19] == 'b')
}

/// A fresh random identifier from `uuid::Uuid::new_v4`, in its hyphenated text
/// form. Random: the contract claims only the form, which the crate fixes:
/// `new_v4` sets the version and variant bits, and `to_string` writes the
/// lower-case hyphenated form.
#[verifier::external_body]
pub(crate) fn new_uuid() -> (r: String)
    ensures
        is_uuid_v4_text(r@),
{
    uuid::Uuid::new_v4().to_string()
}

pub open spec fn is_ascii_alphanumeric(c: char) -> bool {
    ('0' <= c <= '9') || ('A' <= c <= 'Z') || ('a' <= c <= 'z')
}

/// `len` random characters drawn by `rand::distr::Alphanumeric::sample_string`
/// from the thread's generator. Random: the contract claims the length and that
/// every character is an ASCII letter or digit, as the crate's source shows.
#[verifier::external_body]
pub(crate) fn random_alphanumeric(len: usize) -> (r: String)
    ensures
        r@.len() == len,
        forall|i: int| 0 <= i < r@.len() ==> is_ascii_alphanumeric(#[trigger] r@[i]),
{
    rand::distr::Alphanumeric.sample_string(&mut rand::rngs::ThreadRng::default(), len)
}

/// The current time in seconds since the epoch from `chrono::Utc::now().timestamp()`.
/// It depends on the clock, so the contract claims nothing of it.
#[verifier::external_body]
pub(crate) fn now_timestamp() -> (r: i64) {
    chrono::Utc::now().timestamp()
}

/// What `regex::Regex::new(pattern)` and then `is_match(text)` answer: `None`
/// when the pattern does not compile.
pub uninterp spec fn regex_match(pattern: Seq<char>, text: Seq<char>) -> Option<bool>;

/// Compiles `pattern` with `regex::Regex::new` and matches `text` against it.
/// The contract claims that the answer is a function of the two texts, and
/// that whether the pattern compiles does not depend on the text.
#[verifier::external_body]
pub(crate) fn match_regex(pattern: &str, text: &str) -> (r: Option<bool>)
    ensures
        r == regex_match(pattern@, text@),
        r is None <==> regex_match(pattern@, ""@) is None,
{
    regex::Regex::new(pattern).ok().map(|re| re.is_match(text))
}

} // verus!
