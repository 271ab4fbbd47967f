//! Credentials and when they expire.
use crate::auth::encoding::write_seconds;
use crate::auth::encoding;
use vstd::prelude::*;
use vstd::string::*;

verus! {

/// For how many seconds a cached credential is good.
pub const CACHE_TTL: i64 = 1800;

/// How many nanoseconds a second has.
pub const NANOS: u32 = 1_000_000_000;

/// Credential returned by an auth provider.
///
/// Empty strings are accepted because some providers omit optional values.
pub struct Credential {
    /// Access token used by transport injectors.
    pub token: String,
    /// Explicit expiration timestamp.
    pub expires_at: String,
    /// Cache creation timestamp. When present, [`CACHE_TTL`] determines expiry.
    pub cached_at: String,
    /// Provider that produced this credential.
    pub provider: String,
    /// Environment this credential targets.
    pub env: String,
    /// Environment alias accepted from provider responses.
    pub realm: String,
    /// Human-readable identity.
    pub identity: String,
    /// Subject identifier.
    pub sub: String,
    /// Account type associated with the credential.
    pub account_type: String,
}

/// What a credential says.
#[verifier::ext_equal]
pub struct CredentialText {
    /// Access token.
    pub token: Seq<char>,
    /// Explicit expiration timestamp.
    pub expires_at: Seq<char>,
    /// Cache creation timestamp.
    pub cached_at: Seq<char>,
    /// Provider.
    pub provider: Seq<char>,
    /// Environment.
    pub env: Seq<char>,
    /// Environment alias.
    pub realm: Seq<char>,
    /// Human-readable identity.
    pub identity: Seq<char>,
    /// Subject identifier.
    pub sub: Seq<char>,
    /// Account type.
    pub account_type: Seq<char>,
}

impl View for Credential {
    type V = CredentialText;

    open spec fn view(&self) -> CredentialText {
        CredentialText {
            token: self.token@,
            expires_at: self.expires_at@,
            cached_at: self.cached_at@,
            provider: self.provider@,
            env: self.env@,
            realm: self.realm@,
            identity: self.identity@,
            sub: self.sub@,
            account_type: self.account_type@,
        }
    }
}

/// What an optional credential says.
pub open spec fn opt_credential(c: Option<Credential>) -> Option<CredentialText> {
    match c {
        Some(c) => Some(c@),
        None => None,
    }
}

/// A point in time.
#[derive(Clone, Copy, Debug, PartialEq, Eq, Structural)]
pub struct Moment {
    /// Seconds since the start of 1970, in UTC.
    pub seconds: i64,
    /// Nanoseconds after that.
    pub nanos: u32,
}

/// `a` comes after `b`.
pub open spec fn is_later(a: Moment, b: Moment) -> bool {
    a.seconds > b.seconds || (a.seconds == b.seconds && a.nanos > b.nanos)
}

/// The moment that a text in RFC 3339 form names.
pub uninterp spec fn parsed_moment(s: Seq<char>) -> Option<Moment>;

/// `DateTime::parse_from_rfc3339` of chrono, with the parts of the moment: a
/// function of the text. The year has four digits and the offset is less than a
/// day, so the moment lies less than a day outside the years 0 to 9999. The
/// nanoseconds of a leap second count on from those of the second before.
#[verifier::external_body]
pub(crate) fn parse_moment(s: &str) -> (r: Option<Moment>)
    ensures
        r == parsed_moment(s@),
        r matches Some(m) ==> encoding::YEAR_0 - encoding::DAY <= m.seconds
            < encoding::YEAR_10000 + encoding::DAY && m.nanos < 2 * NANOS,
{
    let t = chrono::DateTime::parse_from_rfc3339(s).ok()?;
    Some(Moment { seconds: t.timestamp(), nanos: t.timestamp_subsec_nanos() })
}

/// The moment `seconds` seconds after another; a leap second is left behind.
pub open spec fn moment_after(m: Moment, seconds: int) -> Moment {
    Moment {
        seconds: (m.seconds + seconds) as i64,
        nanos: if m.nanos >= NANOS {
            (m.nanos - NANOS) as u32
        } else {
            m.nanos
        },
    }
}

/// The moment until which a credential that was cached at `m` is good.
fn cache_end(m: Moment) -> (r: Moment)
    requires
        m.seconds < encoding::YEAR_10000 + encoding::DAY,
    ensures
        r == moment_after(m, CACHE_TTL as int),
        r.seconds == m.seconds + CACHE_TTL,
{
    Moment {
        seconds: m.seconds + CACHE_TTL,
        nanos: if m.nanos >= NANOS {
            m.nanos - NANOS
        } else {
            m.nanos
        },
    }
}

/// `Utc::now` of chrono. Nothing is claimed of it.
#[verifier::external_body]
pub(crate) fn present() -> (r: Moment) {
    let t = chrono::Utc::now();
    Moment { seconds: t.timestamp(), nanos: t.timestamp_subsec_nanos() }
}

/// The credential is expired at a moment: the cache time decides where there is
/// one, then the expiration, which counts as past where it is no time.
pub open spec fn expired_at(c: CredentialText, now: Moment) -> bool {
    match parsed_moment(c.cached_at) {
        Some(start) => is_later(now, moment_after(start, CACHE_TTL as int)),
        None => if c.expires_at.len() == 0 {
            false
        } else {
            match parsed_moment(c.expires_at) {
                Some(end) => is_later(now, end),
                None => true,
            }
        },
    }
}

/// The timestamp that a status shows: the end of the cache time where there is
/// one, else the expiration.
pub open spec fn effective_expiry_spec(c: CredentialText) -> Seq<char> {
    match parsed_moment(c.cached_at) {
        Some(start) => encoding::written_seconds((start.seconds + CACHE_TTL) as i64)->0,
        None => c.expires_at,
    }
}

fn later(a: Moment, b: Moment) -> (r: bool)
    ensures
        r == is_later(a, b),
{
    a.seconds > b.seconds || (a.seconds == b.seconds && a.nanos > b.nanos)
}

impl Credential {
    /// Returns the timestamp used for status display.
    pub fn effective_expiry(&self) -> (r: String)
        ensures
            r@ == effective_expiry_spec(self@),
    {
        match parse_moment(self.cached_at.as_str()) {
            Some(start) => match write_seconds(cache_end(start).seconds) {
                Some(t) => t,
                None => String::new(),
            },
            None => self.expires_at.clone(),
        }
    }

    /// Reports whether the credential is expired at a moment.
    ///
    /// Invalid `expires_at` values are treated as expired. Credentials without
    /// either `expires_at` or `cached_at` are treated as not expired.
    pub fn is_expired_at(&self, now: Moment) -> (r: bool)
        ensures
            r == expired_at(self@, now),
    {
        match parse_moment(self.cached_at.as_str()) {
            Some(start) => later(now, cache_end(start)),
            None => {
                if self.expires_at.as_str().is_empty() {
                    false
                } else {
                    match parse_moment(self.expires_at.as_str()) {
                        Some(end) => later(now, end),
                        None => true,
                    }
                }
            },
        }
    }

    /// Reports whether the credential is expired now.
    pub fn is_expired(&self) -> (r: bool)
        ensures
            exists|now: Moment| r == #[trigger] expired_at(self@, now),
    {
        let now = present();
        let r = self.is_expired_at(now);
        assert(r == expired_at(self@, now));
        r
    }

    /// Copies the credential.
    pub fn copy(&self) -> (r: Self)
        ensures
            r@ == self@,
    {
        Credential {
            token: self.token.clone(),
            expires_at: self.expires_at.clone(),
            cached_at: self.cached_at.clone(),
            provider: self.provider.clone(),
            env: self.env.clone(),
            realm: self.realm.clone(),
            identity: self.identity.clone(),
            sub: self.sub.clone(),
            account_type: self.account_type.clone(),
        }
    }
}

/// What a credential without any value says.
pub open spec fn blank_credential() -> CredentialText {
    CredentialText {
        token: Seq::empty(),
        expires_at: Seq::empty(),
        cached_at: Seq::empty(),
        provider: Seq::empty(),
        env: Seq::empty(),
        realm: Seq::empty(),
        identity: Seq::empty(),
        sub: Seq::empty(),
        account_type: Seq::empty(),
    }
}

impl Default for Credential {
    fn default() -> (r: Self)
        ensures
            r@ == blank_credential(),
    {
        let r = Credential {
            token: String::new(),
            expires_at: String::new(),
            cached_at: String::new(),
            provider: String::new(),
            env: String::new(),
            realm: String::new(),
            identity: String::new(),
            sub: String::new(),
            account_type: String::new(),
        };
        assert(r@ =~= blank_credential());
        r
    }
}

/// Once expired, a credential stays expired.
pub proof fn law_expiry_is_final(c: CredentialText, now: Moment, then: Moment)
    requires
        expired_at(c, now),
        is_later(then, now),
    ensures
        expired_at(c, then),
{
}

/// A credential with a cache time expires by it alone, whatever its own
/// expiration says.
pub proof fn law_cache_time_decides(c: CredentialText, expires_at: Seq<char>, now: Moment)
    requires
        parsed_moment(c.cached_at) is Some,
    ensures
        expired_at(CredentialText { expires_at, ..c }, now) == expired_at(c, now),
{
}

/// A cached credential expires 30 minutes after its cache time: up to then it is
/// good, and from then on it is not.
pub proof fn law_cached_credential_lives_half_an_hour(c: CredentialText, start: Moment, now: Moment)
    requires
        parsed_moment(c.cached_at) == Some(start),
        start.nanos < NANOS,
        start.seconds + 1800 <= i64::MAX,
    ensures
        expired_at(c, now) <==> now.seconds > start.seconds + 1800 || (now.seconds == start.seconds
            + 1800 && now.nanos > start.nanos),
{
}

/// Without a cache time the expiration decides: an empty one never expires, one
/// that is no time always has, and any other expires when it is past.
pub proof fn law_expiration_decides(c: CredentialText, end: Moment, now: Moment)
    requires
        parsed_moment(c.cached_at) is None,
    ensures
        c.expires_at.len() == 0 ==> !expired_at(c, now),
        c.expires_at.len() > 0 && parsed_moment(c.expires_at) is None ==> expired_at(c, now),
        c.expires_at.len() > 0 && parsed_moment(c.expires_at) == Some(end) ==> (expired_at(c, now)
            <==> now.seconds > end.seconds || (now.seconds == end.seconds && now.nanos
            > end.nanos)),
        effective_expiry_spec(c) == c.expires_at,
{
}

/// A cached credential is shown to end half an hour after its cache time, the
/// second up to which it is good.
pub proof fn law_shown_end_is_the_end(c: CredentialText, start: Moment, shown: Seq<char>)
    requires
        parsed_moment(c.cached_at) == Some(start),
        start.seconds + 1800 <= i64::MAX,
        encoding::written_seconds((start.seconds + 1800) as i64) == Some(shown),
    ensures
        effective_expiry_spec(c) == shown,
        forall|now: Moment|
            now.seconds < start.seconds + 1800 ==> !#[trigger] expired_at(c, now),
        forall|now: Moment| now.seconds > start.seconds + 1800 ==> #[trigger] expired_at(c, now),
{
}

/// What says whether a credential is expired is its times alone.
pub proof fn law_only_times_expire(a: CredentialText, b: CredentialText, now: Moment)
    requires
        a.cached_at == b.cached_at,
        a.expires_at == b.expires_at,
    ensures
        expired_at(a, now) == expired_at(b, now),
        effective_expiry_spec(a) == effective_expiry_spec(b),
{
}

} // verus!
