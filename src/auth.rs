use vstd::prelude::*;
use crate::error::UserError;
use crate::password::{password_matches, verify_password};
use crate::store::{graph_ok, has_email, has_user, lemma_ownership_same_lists, ownership_ok, Tweetbook, UserRecord};
use crate::users::{applied, lemma_graph_same_edges, user_added, views_of, UserUpdate};
use crate::views::{MinUser, User};

verus! {

/// What a client sends to sign up or sign in.
pub struct AuthCredentials {
    pub username: Option<String>,
    pub email: String,
    pub password: String,
}

/// The claims of an identity token: the account id, the issuer tag and the
/// expiry in seconds since the epoch.
pub struct Authorization {
    pub sub: u64,
    pub company: String,
    pub exp: u64,
}

/// What signup and signin answer with.
pub struct AuthResponse {
    pub id: u64,
    pub username: String,
    pub profile_img_url: String,
    pub token: String,
}

/// How long an issued token stays valid, in calendar months.
pub const TOKEN_MONTHS: u32 = 12;

/// The token that `jsonwebtoken::encode` makes, with the default HS256 header,
/// of the claims `sub`, `company` and `exp` signed with `secret`.
pub uninterp spec fn signed_token(sub: u64, company: Seq<char>, exp: u64, secret: Seq<u8>) -> Seq<char>;

/// The claims that `jsonwebtoken::decode` reads from `token` when the HS256
/// signature checks out against `secret` (with no clock check); `None` when
/// the token is malformed, its signature is wrong or a claim is missing.
pub uninterp spec fn token_claims(token: Seq<char>, secret: Seq<u8>) -> Option<(u64, Seq<char>, u64)>;

/// The instant `months` calendar months after the UTC instant `secs`, as
/// `chrono` computes it.
pub uninterp spec fn months_later(secs: i64, months: u32) -> Option<i64>;

/// Relies on `jsonwebtoken::encode`: signs the JSON object of the three
/// claims with HMAC-SHA256 under `secret`. With an HMAC key, the default
/// (HS256) header and a map of strings and integers it does not fail.
#[verifier::external_body]
fn encode_claims(claims: &Authorization, secret: &[u8]) -> (r: Option<String>)
    ensures
        r is Some,
        r matches Some(t) ==> t@ == signed_token(claims.sub, claims.company@, claims.exp, secret@),
{
    let mut map = serde_json::Map::new();
    map.insert("sub".to_string(), serde_json::Value::from(claims.sub));
    map.insert("company".to_string(), serde_json::Value::from(claims.company.as_str()));
    map.insert("exp".to_string(), serde_json::Value::from(claims.exp));
    let key = jsonwebtoken::EncodingKey::from_secret(secret);
    jsonwebtoken::encode(&jsonwebtoken::Header::default(), &map, &key).ok()
}

/// Relies on `jsonwebtoken::decode` with HS256: it checks the signature
/// against `secret` and reads the claims back; a token that `encode` made
/// with the same secret reads back as the claims it was made of. The expiry
/// is left to the caller, which knows the time.
#[verifier::external_body]
fn decode_claims(token: &str, secret: &[u8]) -> (r: Option<Authorization>)
    ensures
        r matches Some(c) ==> token_claims(token@, secret@) == Some((c.sub, c.company@, c.exp)),
        r is None ==> token_claims(token@, secret@) is None,
        forall|m: (u64, Seq<char>, u64)|
            token@ == #[trigger] signed_token(m.0, m.1, m.2, secret@) ==> Authorization::view_of(r) == Some(m),
{
    let mut validation = jsonwebtoken::Validation::new(jsonwebtoken::Algorithm::HS256);
    validation.validate_exp = false;
    let key = jsonwebtoken::DecodingKey::from_secret(secret);
    let data = jsonwebtoken::decode::<serde_json::Map<String, serde_json::Value>>(token, &key, &validation).ok()?;
    Some(Authorization {
        sub: data.claims.get("sub")?.as_u64()?,
        company: data.claims.get("company")?.as_str()?.to_string(),
        exp: data.claims.get("exp")?.as_u64()?,
    })
}

/// Relies on `chrono::DateTime::checked_add_months` on the UTC instant `secs`
/// seconds after the epoch: the same time of day `months` months later, the
/// day clamped to the month's end; `None` out of chrono's range. A positive
/// number of months moves strictly forward.
#[verifier::external_body]
fn add_months(secs: i64, months: u32) -> (r: Option<i64>)
    ensures
        r == months_later(secs, months),
        r matches Some(v) ==> (months > 0 ==> v > secs),
{
    let start = chrono::DateTime::<chrono::Utc>::from_timestamp(secs, 0)?;
    start.checked_add_months(chrono::Months::new(months)).map(|d| d.timestamp())
}

/// The issuer tag that every token carries.
pub open spec fn issuer() -> Seq<char> {
    "TweetBook"@
}

/// The expiry of a token issued at `now`: twelve months later.
pub open spec fn expiry_of(now: i64) -> Option<u64> {
    match months_later(now, TOKEN_MONTHS) {
        Some(v) => if v >= 0 {
            Some(v as u64)
        } else {
            None
        },
        None => None,
    }
}

/// `t` is a token for account `id` issued at `now` under `secret`; its
/// expiry lies after `now`.
pub open spec fn token_issued(t: Seq<char>, id: u64, now: i64, secret: Seq<u8>) -> bool {
    expiry_of(now) matches Some(e) && e as int > now as int && t == signed_token(id, issuer(), e, secret)
}

/// Whether some account has email `email` and a hash that `password` matches.
pub open spec fn credentials_ok(users: Seq<UserRecord>, email: Seq<char>, password: Seq<char>) -> bool {
    exists|i: int| 0 <= i < users.len() && users[i].email@ == email && password_matches(password, #[trigger] users[i].password@)
}

/// The text of an optional string, empty when absent.
pub open spec fn text_or_empty(o: Option<String>) -> Seq<char> {
    match o {
        Some(s) => s@,
        None => Seq::empty(),
    }
}

/// After a signup, signing in with the same email and password finds the
/// account that the signup created, and only that one.
pub proof fn law_signup_then_signin(old: Tweetbook, new: Tweetbook, creds: AuthCredentials, ip: Seq<char>)
    requires
        old.wf(),
        !has_email(old.users@, creds.email@),
        user_added(old, new, creds, ip),
    ensures
        credentials_ok(new.users@, creds.email@, creds.password@),
        forall|i: int| 0 <= i < new.users@.len() && #[trigger] new.users@[i].email@ == creds.email@ ==> new.users@[i].id
            == old.next_id,
{
    let n = old.users@.len() as int;
    assert(new.users@[n] == new.users@.last());
    assert(password_matches(creds.password@, new.users@[n].password@));
    assert forall|i: int| 0 <= i < new.users@.len() && #[trigger] new.users@[i].email@ == creds.email@ implies new.users@[i].id
        == old.next_id by {
        if i < n {
            assert(new.users@[i] == old.users@[i]);
        }
    }
}

/// The decision on decoded claims at time `now`: the token must not have
/// expired and its subject must still be an account.
pub open spec fn claims_outcome(claims: Option<(u64, Seq<char>, u64)>, now: i64, users: Seq<UserRecord>) -> Result<
    u64,
    UserError,
> {
    match claims {
        None => Err(UserError::Unauthorised),
        Some((sub, company, exp)) => if exp as int <= now as int {
            Err(UserError::Unauthorised)
        } else if has_user(users, sub) {
            Ok(sub)
        } else {
            Err(UserError::Unauthorised)
        },
    }
}

/// The known addresses of the account `id`, when there is one.
pub open spec fn address_known(users: Seq<UserRecord>, id: u64, ip: Seq<char>) -> bool {
    exists|i: int| 0 <= i < users.len() && users[i].id == id && #[trigger] views_of(users[i].active_ips@).contains(ip)
}

/// An expired token is refused whoever its subject is.
pub proof fn law_expired_claims_refused(sub: u64, company: Seq<char>, exp: u64, now: i64, users: Seq<UserRecord>)
    requires
        exp as int <= now as int,
    ensures
        claims_outcome(Some((sub, company, exp)), now, users) == Err::<u64, UserError>(UserError::Unauthorised),
{
}

/// A token issued at `now` for an existing account is accepted at `now`: its
/// claims are the account id, the issuer tag and an expiry that lies ahead,
/// and they resolve to that account.
pub proof fn law_issued_token_accepted(t: Seq<char>, id: u64, now: i64, secret: Seq<u8>, users: Seq<UserRecord>)
    requires
        token_issued(t, id, now, secret),
        has_user(users, id),
    ensures
        expiry_of(now) matches Some(e) && t == signed_token(id, issuer(), e, secret) && claims_outcome(
            Some((id, issuer(), e)),
            now,
            users,
        ) == Ok::<u64, UserError>(id),
{
}

impl Authorization {
    /// The claims as plain values.
    pub open spec fn view_of(c: Option<Authorization>) -> Option<(u64, Seq<char>, u64)> {
        match c {
            Some(a) => Some((a.sub, a.company@, a.exp)),
            None => None,
        }
    }

    /// The expiry of a token issued at `now`: twelve calendar months later,
    /// when that instant is representable and not before the epoch.
    pub fn expiry(now: i64) -> (r: Option<u64>)
        ensures
            r == expiry_of(now),
            r matches Some(e) ==> e as int > now as int,
    {
        match add_months(now, TOKEN_MONTHS) {
            None => None,
            Some(v) => if v < 0 {
                None
            } else {
                Some(v as u64)
            },
        }
    }

    /// Issues a token for `user` at time `now`: its id, the issuer tag and an
    /// expiry twelve months on, signed with `secret`. There is a token exactly
    /// when that expiry is representable.
    pub fn get_token(user: &MinUser, now: i64, secret: &[u8]) -> (r: Option<String>)
        ensures
            r is Some <==> expiry_of(now) is Some,
            r matches Some(t) ==> token_issued(t@, user.id, now, secret@),
    {
        let exp = match Authorization::expiry(now) {
            None => {
                return None;
            },
            Some(e) => e,
        };
        let claims = Authorization { sub: user.id, company: "TweetBook".to_string(), exp };
        proof {
            reveal_strlit("TweetBook");
        }
        encode_claims(&claims, secret)
    }

    /// Decides on decoded claims at time `now`: `Unauthorised` when there are
    /// none, when they have expired or when their subject is no account.
    pub fn check_claims(claims: Option<Authorization>, now: i64, data: &Tweetbook) -> (r: Result<u64, UserError>)
        ensures
            r == claims_outcome(Authorization::view_of(claims), now, data.users@),
    {
        match claims {
            None => Err(UserError::Unauthorised),
            Some(c) => {
                if c.exp as i128 <= now as i128 {
                    Err(UserError::Unauthorised)
                } else if data.find_user(c.sub).is_some() {
                    Ok(c.sub)
                } else {
                    Err(UserError::Unauthorised)
                }
            },
        }
    }

    /// Turns a bearer value into a verified account id: the signature must
    /// check out against `secret`, the token must not have expired at `now`,
    /// and its subject must still be an account.
    pub fn verify_request(token: Option<&str>, secret: &[u8], now: i64, data: &Tweetbook) -> (r: Result<
        u64,
        UserError,
    >)
        ensures
            token is None ==> r == Err::<u64, UserError>(UserError::Unauthorised),
            token matches Some(t) ==> r == claims_outcome(token_claims(t@, secret@), now, data.users@),
            token matches Some(t) ==> forall|m: (u64, Seq<char>, u64)|
                t@ == #[trigger] signed_token(m.0, m.1, m.2, secret@) ==> r == claims_outcome(Some(m), now, data.users@),
    {
        match token {
            None => Err(UserError::Unauthorised),
            Some(t) => {
                let claims = decode_claims(t, secret);
                Authorization::check_claims(claims, now, data)
            },
        }
    }

    /// The stricter check: as `verify_request`, and the caller's address `ip`
    /// must be among the account's known addresses.
    pub fn verify_request_from(token: Option<&str>, secret: &[u8], now: i64, ip: &String, data: &Tweetbook) -> (r:
        Result<u64, UserError>)
        requires
            data.wf(),
        ensures
            token is None ==> r == Err::<u64, UserError>(UserError::Unauthorised),
            token matches Some(t) ==> r == (match claims_outcome(token_claims(t@, secret@), now, data.users@) {
                Ok(id) => if address_known(data.users@, id, ip@) {
                    Ok(id)
                } else {
                    Err(UserError::Unauthorised)
                },
                Err(e) => Err(e),
            }),
    {
        let id = match Authorization::verify_request(token, secret, now, data) {
            Err(e) => {
                return Err(e);
            },
            Ok(id) => id,
        };
        let i = match data.find_user(id) {
            None => {
                return Err(UserError::Unauthorised);
            },
            Some(i) => i,
        };
        proof {
            data.lemma_user_index_unique(i as int);
        }
        if has_address(&data.users[i].active_ips, ip) {
            Ok(id)
        } else {
            proof {
                if address_known(data.users@, id, ip@) {
                    let j = choose|j: int|
                        0 <= j < data.users@.len() && data.users@[j].id == id && #[trigger] views_of(
                            data.users@[j].active_ips@,
                        ).contains(ip@);
                    assert(j == i as int);
                }
            }
            Err(UserError::Unauthorised)
        }
    }
}

fn text_or_empty_exec(o: &Option<String>) -> (r: String)
    ensures
        r@ == text_or_empty(*o),
{
    match o {
        Some(s) => s.clone(),
        None => String::new(),
    }
}

/// Signs up: creates the account for `creds` with `ip` as its known address
/// and answers with its id, username, profile image and a fresh token. An
/// existing email is refused first, then a missing username, then a time at
/// which no token can be issued; on any failure nothing changes.
pub fn signup(data: &mut Tweetbook, creds: &AuthCredentials, ip: &str, now: i64, secret: &[u8]) -> (r: Result<
    AuthResponse,
    UserError,
>)
    requires
        old(data).wf(),
    ensures
        final(data).wf(),
        graph_ok(old(data).users@) ==> graph_ok(final(data).users@),
        ownership_ok(*old(data)) ==> ownership_ok(*final(data)),
        r == Err::<AuthResponse, UserError>(UserError::UserAlreadyExists) <==> has_email(
            old(data).users@,
            creds.email@,
        ),
        r == Err::<AuthResponse, UserError>(UserError::WrongInfo) <==> creds.username is None && !has_email(
            old(data).users@,
            creds.email@,
        ),
        creds.username is Some && !has_email(old(data).users@, creds.email@) && (expiry_of(now) is None
            || old(data).next_id == u64::MAX) ==> r == Err::<AuthResponse, UserError>(UserError::InternalServerError),
        r == Err::<AuthResponse, UserError>(UserError::InternalServerError) ==> creds.username is Some
            && !has_email(old(data).users@, creds.email@),
        r matches Err(e) ==> e == UserError::WrongInfo || e == UserError::UserAlreadyExists || e
            == UserError::InternalServerError,
        r is Err ==> *final(data) == *old(data),
        r matches Ok(resp) ==> {
            &&& user_added(*old(data), *final(data), *creds, ip@)
            &&& resp.id == old(data).next_id
            &&& creds.username == Some(resp.username)
            &&& resp.profile_img_url@.len() == 0
            &&& token_issued(resp.token@, resp.id, now, secret@)
        },
{
    if data.find_email(&creds.email).is_none() && creds.username.is_some() && Authorization::expiry(now).is_none() {
        return Err(UserError::InternalServerError);
    }
    let m = match User::add_user(data, creds, ip) {
        Err(e) => {
            return Err(e);
        },
        Ok(m) => m,
    };
    let token = match Authorization::get_token(&m, now, secret) {
        None => {
            return Err(UserError::InternalServerError);
        },
        Some(t) => t,
    };
    let profile_img_url = text_or_empty_exec(&m.profile_img_url);
    Ok(AuthResponse { id: m.id, username: m.username, profile_img_url, token })
}

/// Signs in: checks the password against the account with that email, adds
/// `ip` to its known addresses and answers with a fresh token.
pub fn signin(data: &mut Tweetbook, creds: &AuthCredentials, ip: &String, now: i64, secret: &[u8]) -> (r: Result<
    AuthResponse,
    UserError,
>)
    requires
        old(data).wf(),
    ensures
        final(data).wf(),
        graph_ok(old(data).users@) ==> graph_ok(final(data).users@),
        ownership_ok(*old(data)) ==> ownership_ok(*final(data)),
        r == Err::<AuthResponse, UserError>(UserError::WrongEmailOrPassword) <==> !credentials_ok(
            old(data).users@,
            creds.email@,
            creds.password@,
        ),
        r == Err::<AuthResponse, UserError>(UserError::WrongEmailOrPassword) ==> *final(data) == *old(data),
        credentials_ok(old(data).users@, creds.email@, creds.password@) && expiry_of(now) is None ==> r
            == Err::<AuthResponse, UserError>(UserError::InternalServerError),
        credentials_ok(old(data).users@, creds.email@, creds.password@) && expiry_of(now) is Some ==> r is Ok,
        r matches Err(e) ==> e == UserError::WrongEmailOrPassword || e == UserError::InternalServerError,
        credentials_ok(old(data).users@, creds.email@, creds.password@) ==> {
            &&& final(data).messages == old(data).messages
            &&& final(data).next_id == old(data).next_id
            &&& final(data).users@.len() == old(data).users@.len()
            &&& forall|i: int|
                0 <= i < old(data).users@.len() ==> if old(data).users@[i].email@ == creds.email@ {
                    applied(#[trigger] old(data).users@[i], final(data).users@[i], UserUpdate::AddActiveIp(*ip))
                } else {
                    final(data).users@[i] == old(data).users@[i]
                }
        },
        r matches Ok(resp) ==> forall|i: int|
            0 <= i < old(data).users@.len() && #[trigger] old(data).users@[i].email@ == creds.email@ ==> {
                &&& resp.id == old(data).users@[i].id
                &&& resp.username == old(data).users@[i].username
                &&& resp.profile_img_url@ == text_or_empty(old(data).users@[i].profile_img_url)
                &&& token_issued(resp.token@, resp.id, now, secret@)
            },
{
    let i = match data.find_email(&creds.email) {
        None => {
            return Err(UserError::WrongEmailOrPassword);
        },
        Some(i) => i,
    };
    proof {
        assert forall|k: int|
            0 <= k < data.users@.len() && #[trigger] data.users@[k].email@ == creds.email@ implies k == i as int by {
            if k < i as int {
                assert(data.users@[k].email@ != data.users@[i as int].email@);
            } else if k > i as int {
                assert(data.users@[i as int].email@ != data.users@[k].email@);
            }
        }
    }
    if !verify_password(creds.password.as_str(), data.users[i].password.as_str()) {
        return Err(UserError::WrongEmailOrPassword);
    }
    let id = data.users[i].id;
    proof {
        data.lemma_user_index_unique(i as int);
    }
    let ghost before = *data;
    let m = match User::update_user(data, id, &UserUpdate::AddActiveIp(ip.clone())) {
        Err(_) => {
            return Err(UserError::InternalServerError);
        },
        Ok(m) => m,
    };
    proof {
        assert forall|k: int| 0 <= k < before.users@.len() implies (#[trigger] data.users@[k]).id
            == before.users@[k].id && data.users@[k].following@ == before.users@[k].following@
            && data.users@[k].followers@ == before.users@[k].followers@ by {
            if before.users@[k].id == id {
                assert(applied(before.users@[k], data.users@[k], UserUpdate::AddActiveIp(*ip)));
            }
        }
        if graph_ok(before.users@) {
            lemma_graph_same_edges(before.users@, data.users@);
        }
        if ownership_ok(before) {
            assert forall|k: int| 0 <= k < before.users@.len() implies (#[trigger] data.users@[k]).id
                == before.users@[k].id && data.users@[k].messages@ == before.users@[k].messages@ by {
                if before.users@[k].id == id {
                    assert(applied(before.users@[k], data.users@[k], UserUpdate::AddActiveIp(*ip)));
                }
            }
            lemma_ownership_same_lists(before, *data);
        }
    }
    let token = match Authorization::get_token(&m, now, secret) {
        None => {
            return Err(UserError::InternalServerError);
        },
        Some(t) => t,
    };
    let profile_img_url = text_or_empty_exec(&m.profile_img_url);
    Ok(AuthResponse { id: m.id, username: m.username, profile_img_url, token })
}

/// Whether `ips` holds a string with the text of `ip`.
fn has_address(ips: &Vec<String>, ip: &String) -> (r: bool)
    ensures
        r == views_of(ips@).contains(ip@),
{
    let mut k: usize = 0;
    while k < ips.len()
        invariant
            0 <= k <= ips@.len(),
            forall|m: int| 0 <= m < k ==> ips@[m]@ != ip@,
        decreases ips@.len() - k,
    {
        if ips[k] == *ip {
            assert(views_of(ips@)[k as int] == ip@);
            return true;
        }
        k = k + 1;
    }
    proof {
        if views_of(ips@).contains(ip@) {
            let m = choose|m: int| 0 <= m < views_of(ips@).len() && views_of(ips@)[m] == ip@;
            assert(ips@[m]@ == ip@);
        }
    }
    false
}

} // verus!
