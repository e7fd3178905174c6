//! Access tokens: the claims that a signed token carries for a signed-in user.
//! Signing and checking the token itself is done with `jsonwebtoken` around
//! this module.
use vstd::prelude::*;

verus! {

/// Settings of access tokens.
#[derive(Debug, Clone)]
pub struct JwtConfig {
    pub secret: String,
    pub expiration_seconds: i64,
}

/// The claims of an access token.
#[derive(Debug, Clone)]
pub struct Claims {
    pub sub: String,
    pub uid: u128,
    pub role: String,
    pub iat: usize,
    pub exp: usize,
}

/// Issues and checks access tokens with one secret and one lifetime.
#[derive(Debug)]
pub struct JwtService {
    secret: String,
    expiration_seconds: i64,
}

/// The largest number of seconds that a `chrono` duration can be made of.
pub open spec fn max_duration_seconds() -> int {
    0x7fff_ffff_ffff_ffffint / 1000
}

/// The earliest instant that `chrono` represents, January 1 of 262144 BCE, in
/// seconds since the epoch.
pub open spec fn chrono_min_timestamp() -> int {
    -8_334_601_228_800
}

/// The last whole second that `chrono` represents, in December 31 of 262142 CE,
/// in seconds since the epoch.
pub open spec fn chrono_max_timestamp() -> int {
    8_210_266_876_799
}

/// The instant `seconds` after `now_secs`, in seconds since the epoch, as
/// `chrono` computes it: the exact sum, or none where either instant falls
/// outside the dates that the crate represents.
pub open spec fn chrono_timestamp_after(now_secs: i64, seconds: i64) -> Option<i64> {
    let t = now_secs + seconds;
    if chrono_min_timestamp() <= now_secs <= chrono_max_timestamp() && chrono_min_timestamp() <= t
        <= chrono_max_timestamp() {
        Some(t as i64)
    } else {
        None
    }
}

/// Adds seconds to a UTC instant with `chrono`: `DateTime::from_timestamp`,
/// `checked_add_signed` with `TimeDelta::seconds`, then `timestamp`. The crate
/// represents the instants from January 1 of 262144 BCE to the end of December
/// 31 of 262142 CE; `from_timestamp` gives none for a start outside them,
/// `checked_add_signed` none for a sum outside them, and otherwise the sum is
/// exact. `TimeDelta::seconds` panics beyond `i64::MAX / 1000` seconds, which
/// `requires` leaves out.
#[verifier::external_body]
fn timestamp_after(now_secs: i64, seconds: i64) -> (res: Option<i64>)
    requires
        -max_duration_seconds() <= seconds <= max_duration_seconds(),
    ensures
        res == chrono_timestamp_after(now_secs, seconds),
{
    match chrono::DateTime::from_timestamp(now_secs, 0) {
        Some(now) => match now.checked_add_signed(chrono::TimeDelta::seconds(seconds)) {
            Some(t) => Some(t.timestamp()),
            None => None,
        },
        None => None,
    }
}

/// The claims of a token issued at `now_secs` that expires at `expires_at`:
/// none when there is no expiry.
pub open spec fn spec_claims_for(
    id: u128,
    name: Seq<char>,
    role: Seq<char>,
    now_secs: i64,
    expires_at: Option<i64>,
    claims: Option<Claims>,
) -> bool {
    match expires_at {
        Some(exp) => claims matches Some(c) && c.sub@ == name && c.uid == id && c.role@ == role && c.iat
            == now_secs as usize && c.exp == exp as usize,
        None => claims is None,
    }
}

/// The claims of a token for a user, issued at `now_secs` and expiring at
/// `expires_at`, both written as unsigned seconds; none without an expiry.
pub fn claims_for(id: u128, name: &str, role: &str, now_secs: i64, expires_at: Option<i64>) -> (res: Option<Claims>)
    ensures
        spec_claims_for(id, name@, role@, now_secs, expires_at, res),
{
    match expires_at {
        Some(exp) => Some(
            Claims { sub: name.to_owned(), uid: id, role: role.to_owned(), iat: now_secs as usize, exp: exp as usize },
        ),
        None => None,
    }
}

impl JwtService {
    /// The signing secret.
    pub closed spec fn spec_secret(&self) -> Seq<char> {
        self.secret@
    }

    /// The lifetime of a token in seconds.
    pub closed spec fn spec_expiration_seconds(&self) -> i64 {
        self.expiration_seconds
    }

    /// A service with the configured secret and token lifetime.
    pub fn new(cfg: &JwtConfig) -> (res: Self)
        ensures
            res.spec_secret() == cfg.secret@,
            res.spec_expiration_seconds() == cfg.expiration_seconds,
    {
        JwtService { secret: cfg.secret.clone(), expiration_seconds: cfg.expiration_seconds }
    }

    /// The signing secret.
    pub fn secret(&self) -> (res: &str)
        ensures
            res@ == self.spec_secret(),
    {
        self.secret.as_str()
    }

    /// The lifetime of a token in seconds.
    pub fn expiration_seconds(&self) -> (res: i64)
        ensures
            res == self.spec_expiration_seconds(),
    {
        self.expiration_seconds
    }

    /// The claims of a token issued at `now_secs` for a user: its name as
    /// subject, its id and role, the issue time and the issue time plus the
    /// configured lifetime as expiry, both as unsigned seconds. There are none
    /// when the issue time or the expiry is not an instant that `chrono`
    /// represents.
    pub fn issue_claims(&self, id: u128, name: &str, role: &str, now_secs: i64) -> (res: Option<Claims>)
        requires
            -max_duration_seconds() <= self.spec_expiration_seconds() <= max_duration_seconds(),
        ensures
            spec_claims_for(
                id,
                name@,
                role@,
                now_secs,
                chrono_timestamp_after(now_secs, self.spec_expiration_seconds()),
                res,
            ),
            res matches Some(c) ==> c.exp == (now_secs + self.spec_expiration_seconds()) as usize,
    {
        let expires_at = timestamp_after(now_secs, self.expiration_seconds);
        claims_for(id, name, role, now_secs, expires_at)
    }
}

} // verus!
