//! The encodings that OAuth needs: Base64, SHA-256, URLs and times.
use vstd::prelude::*;
use vstd::string::*;

verus! {

/// `url::Url`.
#[verifier::external_type_specification]
#[verifier::external_body]
pub struct ExUrl(url::Url);

/// What the logic reads of a URL.
pub struct UrlView {
    /// Its port, or the one that its scheme is known to have.
    pub port: Option<u16>,
    /// Its path.
    pub path: Seq<char>,
}

/// What a URL says.
pub uninterp spec fn url_view(u: url::Url) -> UrlView;

/// The URL that a text is, or the complaint.
pub uninterp spec fn parsed_url(s: Seq<char>) -> Result<UrlView, Seq<char>>;

/// The text of a URL with query parameters added, or the complaint.
pub uninterp spec fn url_with(s: Seq<char>, params: Seq<(Seq<char>, Seq<char>)>) -> Result<
    Seq<char>,
    Seq<char>,
>;

/// The pairs of a form-encoded text.
pub uninterp spec fn form_pairs(s: Seq<char>) -> Seq<(Seq<char>, Seq<char>)>;

/// Bytes in the URL-safe Base64 alphabet, without padding.
pub uninterp spec fn base64_text(bytes: Seq<u8>) -> Seq<char>;

/// The bytes that a text in the URL-safe Base64 alphabet without padding stands
/// for.
pub uninterp spec fn base64_bytes(s: Seq<char>) -> Option<Seq<u8>>;

/// The SHA-256 hash of a text's UTF-8 bytes.
pub uninterp spec fn sha256_of(s: Seq<char>) -> Seq<u8>;

/// How the moment so many seconds after the start of 1970 is written.
pub uninterp spec fn written_seconds(seconds: i64) -> Option<Seq<char>>;

/// How many nanoseconds a duration has.
pub uninterp spec fn duration_nanos(d: std::time::Duration) -> nat;

/// `Duration::from_secs` of std: a duration of so many whole seconds.
pub assume_specification[ std::time::Duration::from_secs ](secs: u64) -> (r: std::time::Duration)
    ensures
        duration_nanos(r) == secs * 1_000_000_000,
;

/// What pairs of strings say.
pub open spec fn pair_texts(pairs: Seq<(String, String)>) -> Seq<(Seq<char>, Seq<char>)> {
    pairs.map_values(|p: (String, String)| (p.0@, p.1@))
}

/// `Url::parse` of url: the URL, or the text of the complaint, is a function of
/// the text.
#[verifier::external_body]
pub(crate) fn parse_url(s: &str) -> (r: Result<url::Url, String>)
    ensures
        match r {
            Ok(u) => parsed_url(s@) == Ok::<UrlView, Seq<char>>(url_view(u)),
            Err(e) => parsed_url(s@) == Err::<UrlView, Seq<char>>(e@),
        },
{
    url::Url::parse(s).map_err(|e| e.to_string())
}

/// `Url::port_or_known_default` of url: the port in the URL, else the one that
/// its scheme is known to have.
#[verifier::external_body]
pub(crate) fn url_port(u: &url::Url) -> (r: Option<u16>)
    ensures
        r == url_view(*u).port,
{
    u.port_or_known_default()
}

/// `Url::path` of url.
#[verifier::external_body]
pub(crate) fn url_path(u: &url::Url) -> (r: String)
    ensures
        r@ == url_view(*u).path,
{
    u.path().to_owned()
}

/// `Url::parse_with_params` of url, as a text: the text, or that of the
/// complaint, is a function of the text and the parameters.
#[verifier::external_body]
pub(crate) fn add_params(s: &str, params: &Vec<(String, String)>) -> (r: Result<String, String>)
    ensures
        match r {
            Ok(t) => url_with(s@, pair_texts(params@)) == Ok::<Seq<char>, Seq<char>>(t@),
            Err(e) => url_with(s@, pair_texts(params@)) == Err::<Seq<char>, Seq<char>>(e@),
        },
{
    url::Url::parse_with_params(s, params).map(String::from).map_err(|e| e.to_string())
}

/// `form_urlencoded::parse` of url: the pairs in their order, decoded; a
/// function of the text.
#[verifier::external_body]
pub(crate) fn parse_form(s: &str) -> (r: Vec<(String, String)>)
    ensures
        pair_texts(r@) == form_pairs(s@),
{
    url::form_urlencoded::parse(s.as_bytes()).into_owned().collect()
}

/// `Engine::encode` of base64 with `URL_SAFE_NO_PAD`: a function of the bytes.
#[verifier::external_body]
pub(crate) fn encode_base64(bytes: &Vec<u8>) -> (r: String)
    ensures
        r@ == base64_text(bytes@),
{
    base64::Engine::encode(&base64::engine::general_purpose::URL_SAFE_NO_PAD, bytes)
}

/// `Engine::decode` of base64 with `URL_SAFE_NO_PAD`: the bytes, where the text
/// stands for some, are a function of it.
#[verifier::external_body]
pub(crate) fn decode_base64(s: &str) -> (r: Option<Vec<u8>>)
    ensures
        match r {
            Some(b) => base64_bytes(s@) == Some(b@),
            None => base64_bytes(s@) is None,
        },
{
    base64::Engine::decode(&base64::engine::general_purpose::URL_SAFE_NO_PAD, s).ok()
}

/// `Sha256::digest` of sha2 on the bytes of a text: the hash, of 32 bytes, is a
/// function of the text.
#[verifier::external_body]
pub(crate) fn hash_text(s: &str) -> (r: Vec<u8>)
    ensures
        r@ == sha256_of(s@),
        r@.len() == 32,
{
    <sha2::Sha256 as sha2::Digest>::digest(s.as_bytes()).to_vec()
}

/// `Rng::random` of rand for 32 bytes. Nothing is claimed of their values.
#[verifier::external_body]
pub(crate) fn random_32() -> (r: Vec<u8>)
    ensures
        r@.len() == 32,
{
    rand::Rng::random::<[u8; 32]>(&mut rand::rng()).to_vec()
}

/// `Rng::random` of rand for 16 bytes. Nothing is claimed of their values.
#[verifier::external_body]
pub(crate) fn random_16() -> (r: Vec<u8>)
    ensures
        r@.len() == 16,
{
    rand::Rng::random::<[u8; 16]>(&mut rand::rng()).to_vec()
}

/// The start of the year 0, in seconds since the start of 1970.
pub const YEAR_0: i64 = -62_167_219_200;

/// The start of the year 10000, in seconds since the start of 1970.
pub const YEAR_10000: i64 = 253_402_300_800;

/// How many seconds a day has.
pub const DAY: i64 = 86_400;

/// `Zeroize::zeroize` of zeroize on a string: its bytes are overwritten with
/// zeros, and it is empty afterwards. That the bytes are gone from memory is not
/// stated.
#[verifier::external_body]
pub(crate) fn wipe(s: &mut String)
    ensures
        final(s)@.len() == 0,
    opens_invariants none
    no_unwind
{
    zeroize::Zeroize::zeroize(s);
}

/// `DateTime::from_timestamp` of chrono and `DateTime::to_rfc3339_opts` in
/// seconds: whether there is such a moment, and how it is written, is a function
/// of the seconds. There is one in each year from 0 to 9999, and for two days on
/// either side.
#[verifier::external_body]
pub(crate) fn write_seconds(seconds: i64) -> (r: Option<String>)
    ensures
        match r {
            Some(t) => written_seconds(seconds) == Some(t@),
            None => written_seconds(seconds) is None,
        },
        YEAR_0 - 2 * DAY <= seconds <= YEAR_10000 + 2 * DAY ==> r is Some,
{
    let t = chrono::DateTime::from_timestamp(seconds, 0)?;
    Some(t.to_rfc3339_opts(chrono::SecondsFormat::Secs, true))
}

/// A code verifier and its challenge.
pub struct Challenge {
    /// The verifier, which is sent with the code.
    pub verifier: String,
    /// The challenge, which is sent with the request for the code.
    pub challenge: String,
}

/// `r` holds the verifier of random bytes and its challenge: the Base64 text,
/// and the Base64 text of its SHA-256 hash.
pub open spec fn is_challenge_of(r: Challenge, bytes: Seq<u8>) -> bool {
    r.verifier@ == base64_text(bytes) && r.challenge@ == base64_text(sha256_of(r.verifier@))
}

/// The verifier of random bytes and its challenge: the Base64 text, and the
/// Base64 text of its SHA-256 hash.
pub fn challenge_of(bytes: &Vec<u8>) -> (r: Challenge)
    ensures
        is_challenge_of(r, bytes@),
{
    let verifier = encode_base64(bytes);
    let hash = hash_text(verifier.as_str());
    let challenge = encode_base64(&hash);
    Challenge { verifier, challenge }
}

/// Generates a PKCE code verifier and SHA-256 code challenge.
pub fn pkce_challenge() -> (r: Challenge)
    ensures
        exists|bytes: Seq<u8>| bytes.len() == 32 && #[trigger] is_challenge_of(r, bytes),
{
    let bytes = random_32();
    challenge_of(&bytes)
}

/// Generates a random OAuth state parameter.
pub fn random_state() -> (r: String)
    ensures
        exists|bytes: Seq<u8>| bytes.len() == 16 && r@ == #[trigger] base64_text(bytes),
{
    let bytes = random_16();
    encode_base64(&bytes)
}

/// The challenge is the hash of the verifier that is sent with the code, so that
/// whoever has the code alone cannot use it; equal bytes give the same pair.
pub proof fn law_challenge_is_the_hash_of_the_verifier(a: Challenge, b: Challenge, bytes: Seq<u8>)
    requires
        is_challenge_of(a, bytes),
        is_challenge_of(b, bytes),
    ensures
        a.verifier@ == base64_text(bytes),
        a.challenge@ == base64_text(sha256_of(base64_text(bytes))),
        a.verifier@ == b.verifier@ && a.challenge@ == b.challenge@,
{
}

} // verus!
