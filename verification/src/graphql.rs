//! The Sleeper session token: reading its claims and judging its expiry.
use vstd::prelude::*;
use vstd::string::*;
use base64::Engine;

use crate::json::{
    json_document, member, parse_json, JsonDoc, JsonDocView, JsonItem, JsonItemView,
};
use crate::text::{chars_of, decimal, push_decimal, push_str, string_of};

verus! {

/// Warn when the token expires within this many days.
pub const TOKEN_EXPIRY_WARNING_DAYS: i64 = 30;

/// Seconds in a day.
pub const SECONDS_PER_DAY: i64 = 86400;

// ───────────── Splitting ─────────────

/// `s` cut at every `sep` (`str::split` with a single character).
pub open spec fn split_on(s: Seq<char>, sep: char) -> Seq<Seq<char>>
    decreases s.len(),
{
    if s.len() == 0 {
        seq![Seq::empty()]
    } else {
        let init = split_on(s.drop_last(), sep);
        if s.last() == sep {
            init.push(Seq::empty())
        } else {
            init.update(init.len() - 1, init.last().push(s.last()))
        }
    }
}

/// The views of a sequence of character vectors.
pub open spec fn char_seqs(v: Seq<Vec<char>>) -> Seq<Seq<char>> {
    v.map_values(|x: Vec<char>| x@)
}

/// The parts of `s` between occurrences of `sep`.
pub fn split_chars(s: &[char], sep: char) -> (parts: Vec<Vec<char>>)
    ensures
        char_seqs(parts@) == split_on(s@, sep),
{
    let mut done: Vec<Vec<char>> = Vec::new();
    let mut cur: Vec<char> = Vec::new();
    assert(s@.take(0) == Seq::<char>::empty());
    assert(char_seqs(done@).push(cur@) == seq![Seq::<char>::empty()]);
    for i in 0..s.len()
        invariant
            split_on(s@.take(i as int), sep) == char_seqs(done@).push(cur@),
    {
        let ghost before = char_seqs(done@).push(cur@);
        assert(s@.take(i + 1).drop_last() == s@.take(i as int));
        assert(s@.take(i + 1).last() == s@[i as int]);
        if s[i] == sep {
            done.push(cur);
            cur = Vec::new();
            assert(char_seqs(done@).push(cur@) == before.push(Seq::empty()));
        } else {
            cur.push(s[i]);
            assert(char_seqs(done@).push(cur@) == before.update(
                before.len() - 1,
                before.last().push(s@[i as int]),
            ));
        }
    }
    assert(s@.take(s.len() as int) == s@);
    let ghost last = char_seqs(done@).push(cur@);
    done.push(cur);
    assert(char_seqs(done@) == last);
    done
}

// ───────────── Claims ─────────────

/// The name given to what `BASE64_URL_SAFE_NO_PAD.decode` makes of a
/// text: its bytes, or `None` where it reports an error.
pub uninterp spec fn url_safe_unpadded_decoding(text: Seq<char>) -> Option<Seq<u8>>;

#[verifier::external_type_specification]
#[verifier::external_body]
pub struct ExDecodeError(base64::DecodeError);

/// `base64::prelude::BASE64_URL_SAFE_NO_PAD.decode`. Claimed: the outcome is
/// a function of the text alone, named [`url_safe_unpadded_decoding`]; the
/// alphabet and the padding rules are not restated.
#[verifier::external_body]
fn decode_url_safe_unpadded(text: &str) -> (r: Result<Vec<u8>, base64::DecodeError>)
    ensures
        match r {
            Ok(v) => url_safe_unpadded_decoding(text@) == Some(v@),
            Err(_) => url_safe_unpadded_decoding(text@) is None,
        },
{
    base64::prelude::BASE64_URL_SAFE_NO_PAD.decode(text)
}

/// The claims the bot reads from a token: its expiry (seconds since the
/// epoch) and the user it was issued to.
#[derive(Debug)]
pub struct JwtClaims {
    pub exp: Option<i64>,
    pub user_id: Option<String>,
}

/// The claims as plain values.
pub open spec fn claims_view(c: JwtClaims) -> (Option<i64>, Option<Seq<char>>) {
    (c.exp, match c.user_id { Some(u) => Some(u@), None => None })
}

/// Why a token could not be read.
#[derive(PartialEq, Eq, Structural, Clone, Copy, Debug)]
pub enum JwtError {
    /// The token is not three dot-separated parts.
    Format { parts: usize },
    /// The payload is not unpadded URL-safe base64.
    Base64,
    /// The payload is not JSON holding the claims.
    Claims,
}

/// An `exp` claim read as an optional 64-bit integer; `None` when it is
/// neither absent, null nor such an integer.
pub open spec fn exp_claim(x: Option<JsonItemView>) -> Option<Option<i64>> {
    match x {
        None => Some(None),
        Some(JsonItemView::Null) => Some(None),
        Some(JsonItemView::PosInt(n)) => if n <= i64::MAX {
            Some(Some(n as i64))
        } else {
            None
        },
        Some(JsonItemView::NegInt(n)) => Some(Some(n)),
        _ => None,
    }
}

/// A `user_id` claim read as an optional string; `None` when it is neither
/// absent, null nor a string.
pub open spec fn user_id_claim(x: Option<JsonItemView>) -> Option<Option<Seq<char>>> {
    match x {
        None => Some(None),
        Some(JsonItemView::Null) => Some(None),
        Some(JsonItemView::Text(s)) => Some(Some(s)),
        _ => None,
    }
}

/// Both claims, when both can be read.
pub open spec fn both_claims(
    e: Option<Option<i64>>,
    u: Option<Option<Seq<char>>>,
) -> Option<(Option<i64>, Option<Seq<char>>)> {
    match (e, u) {
        (Some(e), Some(u)) => Some((e, u)),
        _ => None,
    }
}

/// The claims held by a JSON document: the members `exp` and `user_id` of
/// an object, or the two elements of a two-element array, in that order.
pub open spec fn claims_of(doc: JsonDocView) -> Option<(Option<i64>, Option<Seq<char>>)> {
    match doc {
        JsonDocView::Object(m) => both_claims(
            exp_claim(member(m, seq!['e', 'x', 'p'])),
            user_id_claim(member(m, seq!['u', 's', 'e', 'r', '_', 'i', 'd'])),
        ),
        JsonDocView::Array(v) => if v.len() == 2 {
            both_claims(exp_claim(Some(v[0])), user_id_claim(Some(v[1])))
        } else {
            None
        },
        JsonDocView::Scalar(_) => None,
    }
}

/// What reading the claims of `token` gives.
pub open spec fn jwt_claims(token: Seq<char>) -> Result<(Option<i64>, Option<Seq<char>>), JwtError> {
    let parts = split_on(token, '.');
    if parts.len() != 3 {
        Err(JwtError::Format { parts: parts.len() as usize })
    } else {
        match url_safe_unpadded_decoding(parts[1]) {
            None => Err(JwtError::Base64),
            Some(bytes) => match json_document(bytes) {
                None => Err(JwtError::Claims),
                Some(doc) => match claims_of(doc) {
                    None => Err(JwtError::Claims),
                    Some(c) => Ok(c),
                },
            },
        }
    }
}

/// An `exp` value read as the claim.
fn read_exp(x: Option<&JsonItem>) -> (r: Option<Option<i64>>)
    ensures
        r == exp_claim(match x { Some(i) => Some(i@), None => None }),
{
    match x {
        None => Some(None),
        Some(JsonItem::Null) => Some(None),
        Some(JsonItem::PosInt(n)) => if *n <= 9223372036854775807u64 {
            Some(Some(*n as i64))
        } else {
            None
        },
        Some(JsonItem::NegInt(n)) => Some(Some(*n)),
        _ => None,
    }
}

/// A `user_id` value read as the claim.
fn read_user_id(x: Option<&JsonItem>) -> (r: Option<Option<String>>)
    ensures
        match r {
            Some(Some(s)) => user_id_claim(match x { Some(i) => Some(i@), None => None }) == Some(Some(s@)),
            Some(None) => user_id_claim(match x { Some(i) => Some(i@), None => None }) == Some(None::<Seq<char>>),
            None => user_id_claim(match x { Some(i) => Some(i@), None => None }) is None,
        },
{
    match x {
        None => Some(None),
        Some(JsonItem::Null) => Some(None),
        Some(JsonItem::Text(s)) => Some(Some(s.clone())),
        _ => None,
    }
}

/// The claims held by a parsed payload.
pub fn claims_from_doc(doc: &JsonDoc) -> (r: Option<JwtClaims>)
    ensures
        match r {
            Some(c) => claims_of(doc@) == Some(claims_view(c)),
            None => claims_of(doc@) is None,
        },
{
    let (e, u) = match doc {
        JsonDoc::Object(_) => {
            proof {
                reveal_strlit("exp");
                reveal_strlit("user_id");
            }
            assert("exp"@ == seq!['e', 'x', 'p']);
            assert("user_id"@ == seq!['u', 's', 'e', 'r', '_', 'i', 'd']);
            (read_exp(doc.get("exp")), read_user_id(doc.get("user_id")))
        },
        JsonDoc::Array(v) => {
            if v.len() != 2 {
                return None;
            }
            assert(crate::json::item_views(v@)[0] == v@[0]@);
            assert(crate::json::item_views(v@)[1] == v@[1]@);
            (read_exp(Some(&v[0])), read_user_id(Some(&v[1])))
        },
        JsonDoc::Scalar(_) => {
            return None;
        },
    };
    match (e, u) {
        (Some(exp), Some(user_id)) => Some(JwtClaims { exp, user_id }),
        _ => None,
    }
}

/// Decode the claims of a JWT without verifying the signature.
pub fn decode_jwt_claims(token: &str) -> (r: Result<JwtClaims, JwtError>)
    ensures
        match r {
            Ok(c) => jwt_claims(token@) == Ok::<(Option<i64>, Option<Seq<char>>), JwtError>(claims_view(c)),
            Err(e) => jwt_claims(token@) == Err::<(Option<i64>, Option<Seq<char>>), JwtError>(e),
        },
{
    let chars = chars_of(token);
    let parts = split_chars(chars.as_slice(), '.');
    if parts.len() != 3 {
        return Err(JwtError::Format { parts: parts.len() });
    }
    let payload = string_of(parts[1].as_slice());
    assert(payload@ == split_on(token@, '.')[1]);
    let bytes = match decode_url_safe_unpadded(payload.as_str()) {
        Ok(b) => b,
        Err(_) => {
            return Err(JwtError::Base64);
        },
    };
    let doc = match parse_json(bytes.as_slice()) {
        Ok(d) => d,
        Err(_) => {
            return Err(JwtError::Claims);
        },
    };
    match claims_from_doc(&doc) {
        Some(c) => Ok(c),
        None => Err(JwtError::Claims),
    }
}

/// Decode the expiry timestamp from a JWT without verifying the signature.
pub fn decode_jwt_expiry(token: &str) -> (r: Result<Option<i64>, JwtError>)
    ensures
        match r {
            Ok(e) => jwt_claims(token@) is Ok && jwt_claims(token@)->Ok_0.0 == e,
            Err(err) => jwt_claims(token@) == Err::<(Option<i64>, Option<Seq<char>>), JwtError>(err),
        },
{
    match decode_jwt_claims(token) {
        Ok(c) => Ok(c.exp),
        Err(e) => Err(e),
    }
}

/// Decode the user id from a JWT without verifying the signature.
pub fn decode_jwt_user_id(token: &str) -> (r: Result<Option<String>, JwtError>)
    ensures
        match r {
            Ok(Some(u)) => jwt_claims(token@) is Ok && jwt_claims(token@)->Ok_0.1 == Some(u@),
            Ok(None) => jwt_claims(token@) is Ok && jwt_claims(token@)->Ok_0.1 is None,
            Err(err) => jwt_claims(token@) == Err::<(Option<i64>, Option<Seq<char>>), JwtError>(err),
        },
{
    match decode_jwt_claims(token) {
        Ok(c) => Ok(c.user_id),
        Err(e) => Err(e),
    }
}

/// The bot's own user id, taken from its token (none when the token cannot
/// be read or names no user).
pub fn token_user_id(token: &str) -> (r: Option<String>)
    ensures
        match r {
            Some(u) => jwt_claims(token@) is Ok && jwt_claims(token@)->Ok_0.1 == Some(u@),
            None => jwt_claims(token@) is Err || jwt_claims(token@)->Ok_0.1 is None,
        },
{
    match decode_jwt_user_id(token) {
        Ok(u) => u,
        Err(_) => None,
    }
}

/// Whether a token was given at all.
pub fn token_is_set(token: &str) -> (r: bool)
    ensures
        r == (token@.len() > 0),
{
    token.unicode_len() > 0
}

impl JwtError {
    /// The message shown for this error.
    pub fn message(&self) -> (r: String)
        ensures
            r@ == jwt_error_message(*self),
    {
        match self {
            JwtError::Format { parts } => {
                let mut s = String::new();
                push_str(&mut s, "Invalid JWT format (expected 3 parts, got ");
                push_decimal(&mut s, *parts as u64);
                push_str(&mut s, ")");
                s
            },
            JwtError::Base64 => String::from_str("Failed to base64-decode JWT payload"),
            JwtError::Claims => String::from_str("Failed to parse JWT claims"),
        }
    }
}

/// The message shown for a token error.
pub open spec fn jwt_error_message(e: JwtError) -> Seq<char> {
    match e {
        JwtError::Format { parts } => "Invalid JWT format (expected 3 parts, got "@ + decimal(
            parts as nat,
        ) + ")"@,
        JwtError::Base64 => "Failed to base64-decode JWT payload"@,
        JwtError::Claims => "Failed to parse JWT claims"@,
    }
}

// ───────────── Expiry ─────────────

/// How long a token has left.
#[derive(PartialEq, Eq, Structural, Clone, Copy, Debug)]
pub enum TokenStatus {
    /// Past its expiry; `days` is how many whole days past it, as a
    /// non-positive count.
    Expired { days: i64 },
    /// Within the warning window.
    ExpiresSoon { days: i64 },
    /// Good for longer than the warning window.
    Valid { days: i64 },
}

/// Whole days from `now` to `exp`, rounded toward zero.
pub open spec fn days_between(exp: int, now: int) -> int {
    let d = exp - now;
    if d >= 0 {
        d / 86400
    } else {
        -((-d) / 86400)
    }
}

/// The status of a token that expires at `exp`, seen at `now`: expired
/// once its expiry has passed.
pub open spec fn token_status_spec(exp: i64, now: i64) -> TokenStatus {
    let days = days_between(exp as int, now as int);
    if exp < now {
        TokenStatus::Expired { days: days as i64 }
    } else if days <= 30 {
        TokenStatus::ExpiresSoon { days: days as i64 }
    } else {
        TokenStatus::Valid { days: days as i64 }
    }
}

/// The status of a token that expires at `exp` (seconds since the epoch),
/// seen at `now`.
pub fn token_status(exp: i64, now: i64) -> (r: TokenStatus)
    ensures
        r == token_status_spec(exp, now),
{
    let d: i128 = exp as i128 - now as i128;
    let days: i128 = if d >= 0 {
        d / 86400
    } else {
        let m: i128 = -d;
        -(m / 86400)
    };
    proof {
        assert(-0x1_0000_0000_0000_0000int <= d <= 0x1_0000_0000_0000_0000int);
        if d >= 0 {
            assert(d / 86400 <= 0x1_0000_0000_0000_0000int / 86400) by (nonlinear_arith)
                requires
                    0 <= d <= 0x1_0000_0000_0000_0000int,
            ;
        } else {
            assert((-d) / 86400 <= 0x1_0000_0000_0000_0000int / 86400) by (nonlinear_arith)
                requires
                    0 < -d <= 0x1_0000_0000_0000_0000int,
            ;
        }
    }
    let days: i64 = days as i64;
    if exp < now {
        TokenStatus::Expired { days }
    } else if days <= TOKEN_EXPIRY_WARNING_DAYS {
        TokenStatus::ExpiresSoon { days }
    } else {
        TokenStatus::Valid { days }
    }
}

/// What checking a token at start-up finds.
#[derive(PartialEq, Eq, Structural, Clone, Copy, Debug)]
pub enum TokenCheck {
    /// The token carries an expiry; how long it has left.
    Status(TokenStatus),
    /// The token carries no expiry.
    NoExpiry,
    /// The token could not be read.
    Undecodable(JwtError),
}

/// What checking `token` at `now` finds.
pub open spec fn token_check_spec(token: Seq<char>, now: i64) -> TokenCheck {
    match jwt_claims(token) {
        Err(e) => TokenCheck::Undecodable(e),
        Ok((None, _)) => TokenCheck::NoExpiry,
        Ok((Some(exp), _)) => TokenCheck::Status(token_status_spec(exp, now)),
    }
}

/// Check a token's expiry at `now` (seconds since the epoch).
pub fn check_token(token: &str, now: i64) -> (r: TokenCheck)
    ensures
        r == token_check_spec(token@, now),
{
    match decode_jwt_expiry(token) {
        Err(e) => TokenCheck::Undecodable(e),
        Ok(None) => TokenCheck::NoExpiry,
        Ok(Some(exp)) => TokenCheck::Status(token_status(exp, now)),
    }
}

/// Seconds since the epoch by the system clock
/// (`SystemTime::now().duration_since(UNIX_EPOCH)`, zero before the
/// epoch). Nothing is claimed of the result: it is the clock's reading.
#[verifier::external_body]
pub(crate) fn unix_now() -> (r: i64) {
    std::time::SystemTime::now().duration_since(std::time::UNIX_EPOCH).unwrap_or_default().as_secs() as i64
}

/// Check a token's expiry against the clock; gives the check and the time
/// it was made at.
pub fn check_token_now(token: &str) -> (r: (TokenCheck, i64))
    ensures
        r.0 == token_check_spec(token@, r.1),
{
    let now = unix_now();
    (check_token(token, now), now)
}

} // verus!
