//! Password check and signed session cookies.
//!
//! A session cookie holds `v1.<expiry>.<signature>`, where the signature is
//! the URL-safe, unpadded Base64 form of HMAC-SHA256 over `v1.<expiry>`,
//! keyed with the session secret.
use crate::clock::now_ts;
use crate::config::Config;
use crate::domain::UserSession;
use crate::services::pull_policy::{valid_timestamp, MAX_UNIX_TIMESTAMP};
use crate::text::{
    chars_eq, chars_of, int_decimal, is_whitespace, lemma_nat_decimal_digits,
    lemma_parse_int_decimal, lemma_split_at_first_sep, lemma_split_once_at_first,
    lemma_split_without_sep, lemma_trim_unchanged, nat_decimal, owned, parse_i64,
    parse_i64_chars, push_chars, push_i64_decimal, push_str, split, split_chars, split_once,
    split_once_chars, string_of, trim, trim_chars, views,
};
use hmac::Mac;
use vstd::prelude::*;
use vstd::utf8::encode_utf8;

verus! {

/// The name of the session cookie.
pub const COOKIE_NAME: &'static str = "readsmith_session";

/// How long a session lasts, in seconds (30 days).
pub const SESSION_LIFETIME_SECONDS: i64 = 2_592_000;

// ---------------------------------------------------------------------------
// Outside primitives: HMAC-SHA256 and URL-safe Base64
// ---------------------------------------------------------------------------

/// HMAC-SHA256 of `message` under `key`.
pub uninterp spec fn hmac_sha256(key: Seq<u8>, message: Seq<u8>) -> Seq<u8>;

/// Calls `hmac::Hmac::<sha2::Sha256>::new_from_slice`, `update` and `finalize`.
/// Claims that the tag is the (deterministic) HMAC-SHA256 of the message
/// under the key, 32 bytes long; HMAC accepts keys of any length.
#[verifier::external_body]
fn hmac_sha256_tag(key: &[u8], message: &[u8]) -> (tag: Vec<u8>)
    ensures
        tag@ == hmac_sha256(key@, message@),
        tag@.len() == 32,
{
    let mut mac = hmac::Hmac::<sha2::Sha256>::new_from_slice(key).expect("HMAC takes any key");
    mac.update(message);
    mac.finalize().into_bytes().to_vec()
}

/// The symbol of a 6-bit value in the URL-safe Base64 alphabet.
pub open spec fn base64_symbol(v: int) -> char {
    if v < 26 {
        (('A' as int) + v) as char
    } else if v < 52 {
        (('a' as int) + v - 26) as char
    } else if v < 62 {
        (('0' as int) + v - 52) as char
    } else if v == 62 {
        '-'
    } else {
        '_'
    }
}

/// URL-safe Base64 without padding (RFC 4648, section 5): each group of
/// three bytes becomes four symbols; a final group of one or two bytes
/// becomes two or three.
pub open spec fn base64_url(b: Seq<u8>) -> Seq<char>
    decreases b.len(),
{
    if b.len() == 0 {
        Seq::empty()
    } else if b.len() == 1 {
        seq![base64_symbol((b[0] / 4) as int), base64_symbol((b[0] % 4) * 16)]
    } else if b.len() == 2 {
        seq![
            base64_symbol((b[0] / 4) as int),
            base64_symbol((b[0] % 4) * 16 + b[1] / 16),
            base64_symbol((b[1] % 16) * 4),
        ]
    } else {
        seq![
            base64_symbol((b[0] / 4) as int),
            base64_symbol((b[0] % 4) * 16 + b[1] / 16),
            base64_symbol((b[1] % 16) * 4 + b[2] / 64),
            base64_symbol((b[2] % 64) as int),
        ] + base64_url(b.skip(3))
    }
}

/// Calls `base64::Engine::encode` on `URL_SAFE_NO_PAD`: claims the RFC 4648
/// URL-safe encoding without padding.
#[verifier::external_body]
fn encode_base64_url(bytes: &[u8]) -> (s: String)
    ensures
        s@ == base64_url(bytes@),
{
    base64::Engine::encode(&base64::engine::general_purpose::URL_SAFE_NO_PAD, bytes)
}

// ---------------------------------------------------------------------------
// Tokens and cookies
// ---------------------------------------------------------------------------

/// The signed part of a token.
pub open spec fn session_payload(exp: int) -> Seq<char> {
    "v1."@ + int_decimal(exp)
}

/// The signature of `payload` under `secret`.
pub open spec fn session_signature(secret: Seq<char>, payload: Seq<char>) -> Seq<char> {
    base64_url(hmac_sha256(encode_utf8(secret), encode_utf8(payload)))
}

/// The token of a session expiring at `exp`.
pub open spec fn session_token(secret: Seq<char>, exp: int) -> Seq<char> {
    session_payload(exp) + "."@ + session_signature(secret, session_payload(exp))
}

/// The `Set-Cookie` value that starts a session expiring at `exp`.
pub open spec fn session_cookie(secret: Seq<char>, exp: int, secure: bool) -> Seq<char> {
    COOKIE_NAME@ + "="@ + session_token(secret, exp)
        + "; Path=/; HttpOnly; SameSite=Lax; Max-Age=2592000"@ + if secure {
        "; Secure"@
    } else {
        Seq::<char>::empty()
    }
}

/// The `Set-Cookie` value that ends the session.
pub open spec fn expired_cookie() -> Seq<char> {
    COOKIE_NAME@ + "=; Path=/; HttpOnly; SameSite=Lax; Max-Age=0"@
}

fn sign(config: &Config, payload: &str) -> (r: String)
    ensures
        r@ == session_signature(config.session_secret@, payload@),
{
    let tag = hmac_sha256_tag(config.session_secret.as_str().as_bytes(), payload.as_bytes());
    encode_base64_url(tag.as_slice())
}

fn payload_for(exp: i64) -> (r: Vec<char>)
    ensures
        r@ == session_payload(exp as int),
{
    let mut out: Vec<char> = Vec::new();
    push_str(&mut out, "v1.");
    push_i64_decimal(&mut out, exp);
    out
}

/// The `Set-Cookie` value for a session expiring at `exp`.
pub fn session_cookie_for(config: &Config, exp: i64) -> (r: String)
    ensures
        r@ == session_cookie(config.session_secret@, exp as int, config.secure_cookies),
{
    let payload = payload_for(exp);
    let payload_str = string_of(&payload);
    let sig = sign(config, payload_str.as_str());
    let mut out: Vec<char> = Vec::new();
    push_str(&mut out, COOKIE_NAME);
    push_str(&mut out, "=");
    push_chars(&mut out, &payload);
    push_str(&mut out, ".");
    push_str(&mut out, sig.as_str());
    push_str(&mut out, "; Path=/; HttpOnly; SameSite=Lax; Max-Age=2592000");
    if config.secure_cookies {
        push_str(&mut out, "; Secure");
    }
    assert(out@ =~= session_cookie(config.session_secret@, exp as int, config.secure_cookies));
    string_of(&out)
}

/// The `Set-Cookie` value that starts a 30-day session at `now`, or `None`
/// where its expiry would lie past the end of year 9999.
pub open spec fn session_cookie_from(secret: Seq<char>, now: int, secure: bool) -> Option<
    Seq<char>,
> {
    if now > MAX_UNIX_TIMESTAMP - SESSION_LIFETIME_SECONDS {
        None
    } else {
        Some(session_cookie(secret, now + SESSION_LIFETIME_SECONDS, secure))
    }
}

pub open spec fn opt_str_view(o: Option<&str>) -> Option<Seq<char>> {
    match o {
        Some(s) => Some(s@),
        None => None,
    }
}

pub open spec fn opt_string_view(o: Option<String>) -> Option<Seq<char>> {
    match o {
        Some(s) => Some(s@),
        None => None,
    }
}

/// The `Set-Cookie` value that starts a 30-day session at `now`.
pub fn session_cookie_at(config: &Config, now: i64) -> (r: Option<String>)
    requires
        valid_timestamp(now as int),
    ensures
        opt_string_view(r) == session_cookie_from(
            config.session_secret@,
            now as int,
            config.secure_cookies,
        ),
{
    if now > MAX_UNIX_TIMESTAMP - SESSION_LIFETIME_SECONDS {
        return None;
    }
    Some(session_cookie_for(config, now + SESSION_LIFETIME_SECONDS))
}

/// The `Set-Cookie` value that starts a 30-day session now: what
/// [`session_cookie_at`] gives for the clock's reading, so `None` only when
/// fewer than 30 days remain before the end of year 9999 by the clock.
pub fn make_session_cookie(config: &Config) -> (r: Option<String>)
    ensures
        exists|now: int|
            #![trigger session_cookie_from(config.session_secret@, now, config.secure_cookies)]
            valid_timestamp(now) && opt_string_view(r) == session_cookie_from(
                config.session_secret@,
                now,
                config.secure_cookies,
            ),
{
    let now = now_ts();
    let r = session_cookie_at(config, now);
    assert(opt_string_view(r) == session_cookie_from(
        config.session_secret@,
        now as int,
        config.secure_cookies,
    ));
    r
}

/// The `Set-Cookie` value that ends the session.
pub fn expire_session_cookie() -> (r: String)
    ensures
        r@ == expired_cookie(),
{
    let mut out: Vec<char> = Vec::new();
    push_str(&mut out, COOKIE_NAME);
    push_str(&mut out, "=; Path=/; HttpOnly; SameSite=Lax; Max-Age=0");
    string_of(&out)
}

// ---------------------------------------------------------------------------
// Reading a session back
// ---------------------------------------------------------------------------

/// The value of one `name=value` pair of a `Cookie` header if its trimmed
/// name is the session cookie's.
pub open spec fn session_pair_value(part: Seq<char>) -> Option<Seq<char>> {
    match split_once(trim(part), '=') {
        Some((name, value)) => if name == COOKIE_NAME@ {
            Some(value)
        } else {
            None
        },
        None => None,
    }
}

/// The first session cookie value among the pairs `ps`.
pub open spec fn first_session_value(ps: Seq<Seq<char>>) -> Option<Seq<char>>
    decreases ps.len(),
{
    if ps.len() == 0 {
        None
    } else {
        match session_pair_value(ps[0]) {
            Some(v) => Some(v),
            None => first_session_value(ps.drop_first()),
        }
    }
}

/// The session cookie value a `Cookie` header carries.
pub open spec fn session_value(header: Seq<char>) -> Option<Seq<char>> {
    first_session_value(split(header, ';'))
}

/// The expiry a token claims, if it is `v1.<i64>.<signature>` with a
/// correct signature under `secret`.
pub open spec fn token_expiry(secret: Seq<char>, token: Seq<char>) -> Option<i64> {
    let parts = split(token, '.');
    if parts.len() == 3 && parts[0] == "v1"@ {
        match parse_i64(parts[1]) {
            Some(exp) => if parts[2] == session_signature(secret, session_payload(exp as int)) {
                Some(exp)
            } else {
                None
            },
            None => None,
        }
    } else {
        None
    }
}

/// The expiry of the correctly signed session a `Cookie` header carries.
pub open spec fn signed_expiry(secret: Seq<char>, header: Option<Seq<char>>) -> Option<i64> {
    match header {
        Some(h) => match session_value(h) {
            Some(v) => token_expiry(secret, v),
            None => None,
        },
        None => None,
    }
}

/// The session a `Cookie` header opens at `now`: a correctly signed one
/// that has not expired.
pub open spec fn session_at(secret: Seq<char>, header: Option<Seq<char>>, now: int) -> Option<
    UserSession,
> {
    match signed_expiry(secret, header) {
        Some(exp) => if exp > now {
            Some(UserSession { expires_at: exp })
        } else {
            None
        },
        None => None,
    }
}

fn session_value_exec(header: &str) -> (r: Option<Vec<char>>)
    ensures
        match r {
            Some(v) => session_value(header@) == Some(v@),
            None => session_value(header@) is None,
        },
{
    let cs = chars_of(header);
    let parts = split_chars(&cs, ';');
    let name = chars_of(COOKIE_NAME);
    let ghost ps = split(header@, ';');
    assert(ps.skip(0) =~= ps);
    let mut i: usize = 0;
    while i < parts.len()
        invariant
            i <= parts@.len(),
            views(parts@) == ps,
            ps == split(header@, ';'),
            name@ == COOKIE_NAME@,
            session_value(header@) == first_session_value(ps.skip(i as int)),
        decreases parts@.len() - i,
    {
        let ghost rest = ps.skip(i as int);
        assert(rest[0] == parts@[i as int]@);
        assert(rest.drop_first() =~= ps.skip(i + 1));
        let t = trim_chars(&parts[i]);
        match split_once_chars(&t, '=') {
            Some((n, v)) => {
                if chars_eq(&n, &name) {
                    return Some(v);
                }
            },
            None => {},
        }
        i = i + 1;
    }
    assert(ps.skip(i as int) =~= Seq::<Seq<char>>::empty());
    None
}

/// Whether two byte strings are equal, looking at every byte of equal-length inputs.
fn constant_time_eq(a: &[u8], b: &[u8]) -> (r: bool)
    ensures
        r == (a@ == b@),
{
    if a.len() != b.len() {
        return false;
    }
    let mut diff: u8 = 0;
    let mut i: usize = 0;
    while i < a.len()
        invariant
            a@.len() == b@.len(),
            i <= a@.len(),
            (diff == 0) == (forall|j: int| 0 <= j < i ==> a@[j] == b@[j]),
        decreases a@.len() - i,
    {
        let x = a[i];
        let y = b[i];
        assert((diff | (x ^ y)) == 0u8 <==> (diff == 0u8 && x == y)) by (bit_vector);
        diff = diff | (x ^ y);
        i = i + 1;
    }
    assert(diff == 0 ==> a@ =~= b@);
    diff == 0
}

proof fn lemma_utf8_injective(a: Seq<char>, b: Seq<char>)
    ensures
        (encode_utf8(a) == encode_utf8(b)) == (a == b),
{
    vstd::utf8::encode_utf8_decode_utf8(a);
    vstd::utf8::encode_utf8_decode_utf8(b);
}

/// Equality of two strings, comparing their UTF-8 bytes in constant time.
fn str_eq_constant_time(a: &str, b: &str) -> (r: bool)
    ensures
        r == (a@ == b@),
{
    proof {
        lemma_utf8_injective(a@, b@);
    }
    constant_time_eq(a.as_bytes(), b.as_bytes())
}

fn token_expiry_exec(config: &Config, token: &[char]) -> (r: Option<i64>)
    ensures
        r == token_expiry(config.session_secret@, token@),
{
    let parts = split_chars(token, '.');
    if parts.len() != 3 {
        return None;
    }
    let v1 = chars_of("v1");
    let exp = match parse_i64_chars(&parts[1]) {
        Some(e) => e,
        None => return None,
    };
    if !chars_eq(&parts[0], &v1) {
        return None;
    }
    let payload = payload_for(exp);
    let payload_str = string_of(&payload);
    let expected = sign(config, payload_str.as_str());
    let sig = string_of(&parts[2]);
    if !str_eq_constant_time(expected.as_str(), sig.as_str()) {
        return None;
    }
    Some(exp)
}

/// The session a `Cookie` header opens at `now`.
pub fn parse_session_at(config: &Config, cookie_header: Option<&str>, now: i64) -> (r: Option<
    UserSession,
>)
    ensures
        r == session_at(
            config.session_secret@,
            match cookie_header {
                Some(h) => Some(h@),
                None => None,
            },
            now as int,
        ),
{
    let header = match cookie_header {
        Some(h) => h,
        None => return None,
    };
    let value = match session_value_exec(header) {
        Some(v) => v,
        None => return None,
    };
    let exp = match token_expiry_exec(config, &value) {
        Some(e) => e,
        None => return None,
    };
    if exp <= now {
        return None;
    }
    Some(UserSession { expires_at: exp })
}

/// The session a `Cookie` header opens now: what [`parse_session_at`]
/// gives for the clock's reading, that is a correctly signed one whose
/// expiry is later than that reading.
pub fn parse_session(config: &Config, cookie_header: Option<&str>) -> (r: Option<UserSession>)
    ensures
        exists|now: int|
            #![trigger session_at(config.session_secret@, opt_str_view(cookie_header), now)]
            valid_timestamp(now) && r == session_at(
                config.session_secret@,
                opt_str_view(cookie_header),
                now,
            ),
{
    let now = now_ts();
    let r = parse_session_at(config, cookie_header, now);
    assert(r == session_at(config.session_secret@, opt_str_view(cookie_header), now as int));
    r
}

/// The login check: with a password configured, the given one must equal
/// it; without one, empty passwords must be allowed.
pub fn verify_password(config: &Config, password: &str) -> (r: bool)
    ensures
        r == match config.password {
            Some(expected) => expected@ == password@,
            None => config.allow_empty_password,
        },
{
    match &config.password {
        Some(expected) => str_eq_constant_time(expected.as_str(), password),
        None => config.allow_empty_password,
    }
}

/// Whether no login is needed at all: no password and empty ones allowed.
pub open spec fn open_access(config: Config) -> bool {
    config.password is None && config.allow_empty_password
}

/// Whether a request passes the login gate at `now`.
pub fn request_authorized_at(config: &Config, cookie_header: Option<&str>, now: i64) -> (r: bool)
    ensures
        r == (open_access(*config) || session_at(
            config.session_secret@,
            match cookie_header {
                Some(h) => Some(h@),
                None => None,
            },
            now as int,
        ) is Some),
{
    if config.password.is_none() && config.allow_empty_password {
        return true;
    }
    parse_session_at(config, cookie_header, now).is_some()
}

/// Whether a request passes the login gate now: what
/// [`request_authorized_at`] gives for the clock's reading.
pub fn request_authorized(config: &Config, cookie_header: Option<&str>) -> (r: bool)
    ensures
        exists|now: int|
            #![trigger session_at(config.session_secret@, opt_str_view(cookie_header), now)]
            valid_timestamp(now) && r == (open_access(*config) || session_at(
                config.session_secret@,
                opt_str_view(cookie_header),
                now,
            ) is Some),
        open_access(*config) ==> r,
        !open_access(*config) && signed_expiry(config.session_secret@, opt_str_view(cookie_header))
            is None ==> !r,
{
    let now = now_ts();
    let r = request_authorized_at(config, cookie_header, now);
    assert(r == (open_access(*config) || session_at(
        config.session_secret@,
        opt_str_view(cookie_header),
        now as int,
    ) is Some));
    r
}

// ---------------------------------------------------------------------------
// Laws
// ---------------------------------------------------------------------------

/// The characters URL-safe Base64 uses.
pub open spec fn is_base64_url_symbol(c: char) -> bool {
    ('A' <= c <= 'Z') || ('a' <= c <= 'z') || ('0' <= c <= '9') || c == '-' || c == '_'
}

proof fn lemma_base64_symbol(v: int)
    requires
        0 <= v < 64,
    ensures
        is_base64_url_symbol(base64_symbol(v)),
{
}

proof fn lemma_base64_url_symbols(b: Seq<u8>)
    ensures
        forall|i: int|
            0 <= i < base64_url(b).len() ==> is_base64_url_symbol(#[trigger] base64_url(b)[i]),
    decreases b.len(),
{
    if b.len() == 0 {
    } else if b.len() == 1 {
        lemma_base64_symbol((b[0] / 4) as int);
        lemma_base64_symbol((b[0] % 4) * 16);
    } else if b.len() == 2 {
        lemma_base64_symbol((b[0] / 4) as int);
        lemma_base64_symbol((b[0] % 4) * 16 + b[1] / 16);
        lemma_base64_symbol((b[1] % 16) * 4);
    } else {
        lemma_base64_symbol((b[0] / 4) as int);
        lemma_base64_symbol((b[0] % 4) * 16 + b[1] / 16);
        lemma_base64_symbol((b[1] % 16) * 4 + b[2] / 64);
        lemma_base64_symbol((b[2] % 64) as int);
        lemma_base64_url_symbols(b.skip(3));
        let head = seq![
            base64_symbol((b[0] / 4) as int),
            base64_symbol((b[0] % 4) * 16 + b[1] / 16),
            base64_symbol((b[1] % 16) * 4 + b[2] / 64),
            base64_symbol((b[2] % 64) as int),
        ];
        let tail = base64_url(b.skip(3));
        assert forall|i: int| 0 <= i < base64_url(b).len() implies is_base64_url_symbol(
            #[trigger] base64_url(b)[i],
        ) by {
            if i >= 4 {
                assert(base64_url(b)[i] == tail[i - 4]);
            } else {
                assert(base64_url(b)[i] == head[i]);
            }
        }
    }
}

/// Neither `.` nor `;` nor `=` occurs in the decimal form of a number.
proof fn lemma_int_decimal_plain(n: int)
    ensures
        int_decimal(n).len() > 0,
        forall|i: int|
            0 <= i < int_decimal(n).len() ==> {
                let c = #[trigger] int_decimal(n)[i];
                c != '.' && c != ';' && c != '=' && !is_whitespace(c)
            },
{
    if n < 0 {
        lemma_nat_decimal_digits((-n) as nat);
        let d = nat_decimal((-n) as nat);
        assert forall|i: int| 0 <= i < int_decimal(n).len() implies {
            let c = #[trigger] int_decimal(n)[i];
            c != '.' && c != ';' && c != '=' && !is_whitespace(c)
        } by {
            if i > 0 {
                assert(int_decimal(n)[i] == d[i - 1]);
            }
        }
    } else {
        lemma_nat_decimal_digits(n as nat);
    }
}

/// The `name=token` pair a browser sends back for the session cookie.
pub open spec fn session_cookie_pair(secret: Seq<char>, exp: int) -> Seq<char> {
    COOKIE_NAME@ + "="@ + session_token(secret, exp)
}

/// The session cookie value, as the browser sends it back, is the first
/// `;`-separated segment of the `Set-Cookie` value.
pub proof fn law_cookie_pair_leads_set_cookie(secret: Seq<char>, exp: i64, secure: bool)
    ensures
        split(session_cookie(secret, exp as int, secure), ';')[0] == session_cookie_pair(
            secret,
            exp as int,
        ),
{
    let pair = session_cookie_pair(secret, exp as int);
    lemma_pair_plain(secret, exp);
    reveal_strlit("; Path=/; HttpOnly; SameSite=Lax; Max-Age=2592000");
    let attrs = "; Path=/; HttpOnly; SameSite=Lax; Max-Age=2592000"@ + if secure {
        "; Secure"@
    } else {
        Seq::<char>::empty()
    };
    let cookie = session_cookie(secret, exp as int, secure);
    assert(cookie =~= pair + attrs);
    assert(attrs[0] == ';');
    assert(cookie =~= pair + seq![';'] + attrs.drop_first());
    lemma_split_at_first_sep(pair, ';', attrs.drop_first());
}

proof fn lemma_pair_plain(secret: Seq<char>, exp: i64)
    ensures
        forall|i: int|
            0 <= i < session_cookie_pair(secret, exp as int).len() ==> #[trigger] session_cookie_pair(
                secret,
                exp as int,
            )[i] != ';',
        session_cookie_pair(secret, exp as int).len() > 0,
        !is_whitespace(session_cookie_pair(secret, exp as int)[0]),
        !is_whitespace(session_cookie_pair(secret, exp as int).last()),
{
    reveal_strlit("readsmith_session");
    reveal_strlit("=");
    reveal_strlit("v1.");
    reveal_strlit(".");
    let name = COOKIE_NAME@;
    let d = int_decimal(exp as int);
    let payload = session_payload(exp as int);
    let sig = session_signature(secret, payload);
    let token = session_token(secret, exp as int);
    let pair = session_cookie_pair(secret, exp as int);
    lemma_int_decimal_plain(exp as int);
    lemma_base64_url_symbols(hmac_sha256(encode_utf8(secret), encode_utf8(payload)));
    assert(pair =~= name + "="@ + "v1."@ + d + "."@ + sig);
    assert forall|i: int| 0 <= i < pair.len() implies #[trigger] pair[i] != ';' by {
        let k = name.len() + 4;
        if i < name.len() {
            assert(pair[i] == name[i]);
        } else if i < k {
        } else if i < k + d.len() {
            assert(pair[i] == d[i - k]);
        } else if i == k + d.len() {
        } else {
            assert(pair[i] == sig[i - k - d.len() - 1]);
        }
    }
    if sig.len() > 0 {
        assert(pair.last() == sig.last());
    } else {
        assert(pair.last() == '.');
    }
}

/// The session cookie pair names the session cookie, carries the token, and
/// the token claims its expiry under the secret it was signed with.
proof fn lemma_pair_opens(secret: Seq<char>, exp: i64)
    ensures
        trim(session_cookie_pair(secret, exp as int)) == session_cookie_pair(secret, exp as int),
        session_pair_value(session_cookie_pair(secret, exp as int)) == Some(
            session_token(secret, exp as int),
        ),
        token_expiry(secret, session_token(secret, exp as int)) == Some(exp),
{
    reveal_strlit("readsmith_session");
    reveal_strlit("=");
    reveal_strlit("v1.");
    reveal_strlit("v1");
    reveal_strlit(".");
    let name = COOKIE_NAME@;
    let d = int_decimal(exp as int);
    let payload = session_payload(exp as int);
    let sig = session_signature(secret, payload);
    let token = session_token(secret, exp as int);
    let pair = session_cookie_pair(secret, exp as int);
    lemma_pair_plain(secret, exp);
    lemma_int_decimal_plain(exp as int);
    lemma_base64_url_symbols(hmac_sha256(encode_utf8(secret), encode_utf8(payload)));
    lemma_trim_unchanged(pair);
    // name=token
    assert(pair =~= name + seq!['='] + token);
    lemma_split_once_at_first(name, '=', token);
    // v1 . exp . signature
    assert forall|i: int| 0 <= i < sig.len() implies sig[i] != '.' by {
        assert(is_base64_url_symbol(sig[i]));
    }
    lemma_split_without_sep(sig, '.');
    lemma_split_at_first_sep(d, '.', sig);
    assert(token =~= "v1"@ + seq!['.'] + (d + seq!['.'] + sig));
    lemma_split_at_first_sep("v1"@, '.', d + seq!['.'] + sig);
    assert(split(token, '.') =~= seq!["v1"@, d, sig]);
    lemma_parse_int_decimal(exp as int);
}

/// The first session cookie value among pairs is that of the first pair
/// named like the session cookie.
proof fn lemma_first_session_value_at(ps: Seq<Seq<char>>, k: int, v: Seq<char>)
    requires
        0 <= k < ps.len(),
        forall|j: int| 0 <= j < k ==> session_pair_value(#[trigger] ps[j]) is None,
        session_pair_value(ps[k]) == Some(v),
    ensures
        first_session_value(ps) == Some(v),
    decreases k,
{
    if k > 0 {
        assert(session_pair_value(ps[0]) is None);
        let rest = ps.drop_first();
        assert forall|j: int| 0 <= j < k - 1 implies session_pair_value(#[trigger] rest[j]) is None by {
            assert(rest[j] == ps[j + 1]);
        }
        assert(rest[k - 1] == ps[k]);
        lemma_first_session_value_at(rest, k - 1, v);
    }
}

/// A session cookie, sent back as the browser sends it, opens the session
/// it was made for as long as it has not expired.
pub proof fn law_session_cookie_round_trip(secret: Seq<char>, exp: i64, now: i64)
    requires
        exp > now,
    ensures
        session_at(secret, Some(session_cookie_pair(secret, exp as int)), now as int) == Some(
            UserSession { expires_at: exp },
        ),
{
    let pair = session_cookie_pair(secret, exp as int);
    lemma_pair_plain(secret, exp);
    lemma_pair_opens(secret, exp);
    // the header is a single pair
    lemma_split_without_sep(pair, ';');
    assert(split(pair, ';').drop_first() =~= Seq::<Seq<char>>::empty());
}

/// A session cookie opens the session it was made for, as long as it has
/// not expired, in any `Cookie` header that carries its pair (whitespace
/// around it aside) among other cookies, provided no earlier pair is named
/// like the session cookie.
pub proof fn law_session_cookie_opens_among_others(
    secret: Seq<char>,
    exp: i64,
    now: i64,
    header: Seq<char>,
    k: int,
)
    requires
        exp > now,
        0 <= k < split(header, ';').len(),
        trim(split(header, ';')[k]) == session_cookie_pair(secret, exp as int),
        forall|j: int| 0 <= j < k ==> session_pair_value(#[trigger] split(header, ';')[j]) is None,
    ensures
        session_at(secret, Some(header), now as int) == Some(UserSession { expires_at: exp }),
{
    let ps = split(header, ';');
    lemma_pair_opens(secret, exp);
    assert(session_pair_value(ps[k]) == session_pair_value(session_cookie_pair(secret, exp as int)));
    lemma_first_session_value_at(ps, k, session_token(secret, exp as int));
}

/// The cookie that ends a session opens none.
pub proof fn law_expired_cookie_opens_nothing(secret: Seq<char>, now: int)
    ensures
        session_at(secret, Some(COOKIE_NAME@ + "="@), now) is None,
{
    reveal_strlit("readsmith_session");
    reveal_strlit("=");
    let name = COOKIE_NAME@;
    let pair = COOKIE_NAME@ + "="@;
    lemma_split_without_sep(pair, ';');
    lemma_trim_unchanged(pair);
    assert(pair =~= name + seq!['='] + Seq::<char>::empty());
    lemma_split_once_at_first(name, '=', Seq::<char>::empty());
    lemma_split_without_sep(Seq::<char>::empty(), '.');
}

} // verus!
