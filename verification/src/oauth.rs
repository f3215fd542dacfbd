//! Google OAuth 2.0 with a client the user brings: the consent URL, the loopback
//! redirect the browser comes back on, and the token bundle kept between runs.
use vstd::prelude::*;

use crate::error::{is_other, Error};
use crate::text::{
    chars_of, decimal, find_char, find_from, lemma_find_char_range, opt_text, second_word, string_of,
    trimmed,
};
use crate::time::{move_in_range, shifted, valid_instant, Timestamp, MIN_UNIX_SECS, NANOS_PER_SEC};
use crate::url::{percent_encoded, url_decode, url_decoded, url_encode};
use vstd::utf8::encode_utf8;

verus! {

broadcast use vstd::string::group_string_axioms;

/// The OAuth scope the app asks for.
pub const SCOPE: &'static str = "https://www.googleapis.com/auth/youtube";

/// What the front end is shown about the account.
#[derive(Debug, Clone, Copy, PartialEq, Eq)]
pub struct OAuthStatus {
    /// Whether a token bundle is stored.
    pub connected: bool,
    /// Whether `oauth_client.json` exists in the data directory.
    pub client_present: bool,
}

/// The token bundle kept in the credential store.
#[derive(Debug, Clone)]
pub struct StoredTokens {
    pub access_token: String,
    pub refresh_token: String,
    /// When the access token expires.
    pub expires_at: Timestamp,
}

/// Google's answer to a token request.
#[derive(Debug, Clone)]
pub struct TokenResponse {
    pub access_token: String,
    /// Only sent on the first exchange of an authorization code.
    pub refresh_token: Option<String>,
    /// Seconds the access token stays valid.
    pub expires_in: i64,
}

/// The account status: connected exactly when reading the credential store gave a
/// token bundle.
pub fn status(stored: &Result<Option<StoredTokens>, Error>, client_present: bool) -> (r:
    OAuthStatus)
    ensures
        r.connected == (stored matches Ok(Some(_))),
        r.client_present == client_present,
{
    let connected = match stored {
        Ok(Some(_)) => true,
        _ => false,
    };
    OAuthStatus { connected, client_present }
}

// ---------------------------------------------------------------------------
// Token lifetime.
/// The access token expiring at `expires_at` needs a refresh at `now`: it is at most
/// thirty seconds from expiry.
pub open spec fn refresh_due(now: Timestamp, expires_at: Timestamp) -> bool {
    let early = shifted(expires_at.unix_secs() as int, expires_at.subsec_nanos() as int, -30);
    early.0 < now.unix_secs() || (early.0 == now.unix_secs() && early.1 <= now.subsec_nanos())
}

/// Whether the access token expiring at `expires_at` must be refreshed at `now`.
pub fn needs_refresh(now: Timestamp, expires_at: Timestamp) -> (r: bool)
    requires
        MIN_UNIX_SECS <= shifted(expires_at.unix_secs() as int, expires_at.subsec_nanos() as int, -30).0,
    ensures
        r == refresh_due(now, expires_at),
{
    let early = expires_at.minus_seconds(30);
    early.le(&now)
}

/// When a refresh is due, measured on the time line: a token is refreshed from thirty
/// seconds before its expiry on (for instants outside leap seconds, exactly when `now`
/// is at least its expiry less thirty seconds); once due, a refresh stays due at every
/// later instant; a token at or past its expiry is always refreshed; and one that
/// expires thirty-one or more whole seconds after `now` is not.
pub proof fn lemma_refresh_due_on_time_line(now: Timestamp, later: Timestamp, expires_at: Timestamp)
    requires
        valid_instant(now.unix_secs() as int, now.subsec_nanos() as int),
        valid_instant(later.unix_secs() as int, later.subsec_nanos() as int),
        valid_instant(expires_at.unix_secs() as int, expires_at.subsec_nanos() as int),
    ensures
        now.subsec_nanos() < NANOS_PER_SEC && expires_at.subsec_nanos() < NANOS_PER_SEC ==> (
        refresh_due(now, expires_at) <==> now.unix_secs() * 1_000_000_000 + now.subsec_nanos()
            + 30_000_000_000 >= expires_at.unix_secs() * 1_000_000_000
            + expires_at.subsec_nanos()),
        refresh_due(now, expires_at) && (now.unix_secs() < later.unix_secs() || (now.unix_secs()
            == later.unix_secs() && now.subsec_nanos() <= later.subsec_nanos())) ==> refresh_due(
            later,
            expires_at,
        ),
        expires_at.unix_secs() < now.unix_secs() || (expires_at.unix_secs() == now.unix_secs()
            && expires_at.subsec_nanos() <= now.subsec_nanos()) ==> refresh_due(now, expires_at),
        now.unix_secs() + 31 <= expires_at.unix_secs() ==> !refresh_due(now, expires_at),
{
    if now.subsec_nanos() < NANOS_PER_SEC && expires_at.subsec_nanos() < NANOS_PER_SEC {
        let n = now.unix_secs() as int;
        let e = expires_at.unix_secs() as int;
        if n < e - 30 {
            assert(n * 1_000_000_000 + 1_000_000_000 <= (e - 30) * 1_000_000_000)
                by (nonlinear_arith)
                requires
                    n < e - 30,
            ;
        } else if n > e - 30 {
            assert((e - 30) * 1_000_000_000 + 1_000_000_000 <= n * 1_000_000_000)
                by (nonlinear_arith)
                requires
                    n > e - 30,
            ;
        }
    }
}

/// Where adding `k` seconds to `t` stays in what chrono accepts.
pub open spec fn can_add_seconds(t: Timestamp, k: i64) -> bool {
    move_in_range(t.unix_secs() as int, t.subsec_nanos() as int, k as int)
}

/// Whether `t` is `now` moved by `k` seconds.
pub open spec fn is_shift_of(t: Timestamp, now: Timestamp, k: i64) -> bool {
    let sh = shifted(now.unix_secs() as int, now.subsec_nanos() as int, k as int);
    t.unix_secs() == sh.0 && t.subsec_nanos() == sh.1
}

/// Text of the error when Google sends no refresh token.
pub open spec fn no_refresh_token_text() -> Seq<char> {
    "Google did not return a refresh_token. Revoke the app at myaccount.google.com/permissions and try Connect again."@
}

/// The token bundle from the answer to an authorization-code exchange received at
/// `now`; without a refresh token the exchange is refused.
pub fn tokens_after_exchange(resp: TokenResponse, now: Timestamp) -> (r: Result<
    StoredTokens,
    Error,
>)
    requires
        resp.refresh_token is Some ==> can_add_seconds(now, resp.expires_in),
    ensures
        match resp.refresh_token {
            Some(rt) => r matches Ok(t) && t.access_token@ == resp.access_token@
                && t.refresh_token@ == rt@ && is_shift_of(t.expires_at, now, resp.expires_in),
            None => r matches Err(e) && is_other(e, no_refresh_token_text()),
        },
{
    match resp.refresh_token {
        Some(rt) => {
            let expires_at = now.plus_seconds(resp.expires_in);
            Ok(StoredTokens { access_token: resp.access_token, refresh_token: rt, expires_at })
        },
        None => Err(
            crate::error::other(
                "Google did not return a refresh_token. Revoke the app at myaccount.google.com/permissions and try Connect again.",
            ),
        ),
    }
}

/// The token bundle from the answer to a refresh received at `now`; Google may keep
/// the refresh token it issued, and then `refresh_token` stays.
pub fn tokens_after_refresh(resp: TokenResponse, refresh_token: &str, now: Timestamp) -> (t:
    StoredTokens)
    requires
        can_add_seconds(now, resp.expires_in),
    ensures
        t.access_token@ == resp.access_token@,
        t.refresh_token@ == match resp.refresh_token {
            Some(rt) => rt@,
            None => refresh_token@,
        },
        is_shift_of(t.expires_at, now, resp.expires_in),
{
    let rt = match resp.refresh_token {
        Some(rt) => rt,
        None => refresh_token.to_string(),
    };
    let expires_at = now.plus_seconds(resp.expires_in);
    StoredTokens { access_token: resp.access_token, refresh_token: rt, expires_at }
}

// ---------------------------------------------------------------------------
// The consent URL.
/// Address of the loopback listener on `port`.
pub fn redirect_uri(port: u16) -> (r: String)
    ensures
        r@ == "http://127.0.0.1:"@ + decimal(port as nat),
{
    let mut r = "http://127.0.0.1:".to_string();
    let p = crate::text::decimal_string(port as u64);
    r.append(p.as_str());
    r
}

/// The consent URL, every parameter percent-encoded.
pub open spec fn consent_url(client_id: Seq<char>, redirect: Seq<char>, state: Seq<char>) -> Seq<
    char,
> {
    "https://accounts.google.com/o/oauth2/v2/auth?client_id="@ + percent_encoded(
        encode_utf8(client_id),
    ) + "&redirect_uri="@ + percent_encoded(encode_utf8(redirect))
        + "&response_type=code&scope="@ + percent_encoded(encode_utf8(SCOPE@))
        + "&access_type=offline&prompt=consent&state="@ + percent_encoded(encode_utf8(state))
}

/// The Google consent URL for `client_id`, coming back to `redirect` with `state`.
pub fn auth_url(client_id: &str, redirect: &str, state: &str) -> (r: String)
    ensures
        r@ == consent_url(client_id@, redirect@, state@),
{
    let mut r = "https://accounts.google.com/o/oauth2/v2/auth?client_id=".to_string();
    let a = url_encode(client_id);
    r.append(a.as_str());
    r.append("&redirect_uri=");
    let b = url_encode(redirect);
    r.append(b.as_str());
    r.append("&response_type=code&scope=");
    let c = url_encode(SCOPE);
    r.append(c.as_str());
    r.append("&access_type=offline&prompt=consent&state=");
    let d = url_encode(state);
    r.append(d.as_str());
    r
}

/// The character for a draw `n` below 62: a digit, then a lower-case letter, then an
/// upper-case letter.
pub open spec fn state_char(n: int) -> char {
    if n < 10 {
        (48 + n) as char
    } else if n < 36 {
        (97 + (n - 10)) as char
    } else {
        (65 + (n - 36)) as char
    }
}

/// Whether `c` is an ASCII letter or digit.
pub open spec fn is_alnum(c: char) -> bool {
    ('0' <= c <= '9') || ('a' <= c <= 'z') || ('A' <= c <= 'Z')
}

/// A uniformly drawn number below 62; calls `rand::thread_rng` and `Rng::gen_range(0..62)`.
/// Claimed: the number is below 62.
#[verifier::external_body]
fn draw_below_62() -> (n: u8)
    ensures
        n < 62,
{
    rand::Rng::gen_range(&mut rand::thread_rng(), 0..62u8)
}

/// The character for a draw below 62.
pub fn state_char_of(n: u8) -> (c: char)
    requires
        n < 62,
    ensures
        c == state_char(n as int),
        is_alnum(c),
{
    if n < 10 {
        (48u8 + n) as char
    } else if n < 36 {
        (97u8 + (n - 10)) as char
    } else {
        (65u8 + (n - 36)) as char
    }
}

/// The state text for a sequence of draws below 62: one character per draw, in order.
pub fn state_from_draws(draws: &Vec<u8>) -> (r: String)
    requires
        forall|i: int| 0 <= i < draws@.len() ==> #[trigger] draws@[i] < 62,
    ensures
        r@ == draws@.map_values(|n: u8| state_char(n as int)),
        forall|i: int| 0 <= i < r@.len() ==> is_alnum(#[trigger] r@[i]),
{
    let mut r = String::new();
    let mut i: usize = 0;
    while i < draws.len()
        invariant
            i <= draws@.len(),
            forall|j: int| 0 <= j < draws@.len() ==> #[trigger] draws@[j] < 62,
            r@ == draws@.subrange(0, i as int).map_values(|n: u8| state_char(n as int)),
            forall|j: int| 0 <= j < r@.len() ==> is_alnum(#[trigger] r@[j]),
        decreases draws@.len() - i,
    {
        let c = state_char_of(draws[i]);
        let ghost before = r@;
        crate::text::push_char(&mut r, c);
        proof {
            assert(draws@.subrange(0, i + 1).map_values(|n: u8| state_char(n as int))
                =~= before.push(c));
        }
        i = i + 1;
    }
    proof {
        assert(draws@.subrange(0, draws@.len() as int) =~= draws@);
    }
    r
}

/// A fresh 24-character anti-forgery state: 24 uniform draws below 62, each written
/// as a letter or digit.
pub fn random_state() -> (r: String)
    ensures
        exists|draws: Seq<u8>|
            draws.len() == 24 && (forall|i: int| 0 <= i < 24 ==> #[trigger] draws[i] < 62)
                && r@ == draws.map_values(|n: u8| state_char(n as int)),
        r@.len() == 24,
        forall|i: int| 0 <= i < 24 ==> is_alnum(#[trigger] r@[i]),
{
    let mut draws: Vec<u8> = Vec::new();
    let mut i: usize = 0;
    while i < 24
        invariant
            i <= 24,
            draws@.len() == i,
            forall|j: int| 0 <= j < i ==> #[trigger] draws@[j] < 62,
        decreases 24 - i,
    {
        let n = draw_below_62();
        draws.push(n);
        i = i + 1;
    }
    state_from_draws(&draws)
}

/// Text of the error when the state coming back differs from the one sent.
pub open spec fn state_mismatch_text() -> Seq<char> {
    "OAuth state mismatch (CSRF) - try again"@
}

/// The redirect is accepted only when it carries back the state that was sent.
pub fn check_state(returned: &String, sent: &String) -> (r: Result<(), Error>)
    ensures
        r is Ok <==> returned@ == sent@,
        r matches Err(e) ==> is_other(e, state_mismatch_text()),
{
    if *returned != *sent {
        Err(crate::error::other("OAuth state mismatch (CSRF) - try again"))
    } else {
        Ok(())
    }
}

/// Text of the error when a credential is blank.
pub open spec fn missing_client_text() -> Seq<char> {
    "Both Client ID and Client Secret are required."@
}

/// The pasted client id and secret, trimmed; both must be non-blank.
pub fn client_credentials(client_id: &str, client_secret: &str) -> (r: Result<(String, String), Error>)
    ensures
        (trimmed(client_id@).len() > 0 && trimmed(client_secret@).len() > 0) ==> (r matches Ok(p)
            && p.0@ == trimmed(client_id@) && p.1@ == trimmed(client_secret@)),
        !(trimmed(client_id@).len() > 0 && trimmed(client_secret@).len() > 0) ==> (r matches Err(e)
            && is_other(e, missing_client_text())),
{
    let id = crate::text::trim(client_id);
    let secret = crate::text::trim(client_secret);
    if id.as_str().is_empty() || secret.as_str().is_empty() {
        Err(crate::error::other("Both Client ID and Client Secret are required."))
    } else {
        Ok((id, secret))
    }
}

// ---------------------------------------------------------------------------
// The loopback redirect.
/// `&`, `<` and `>` written as HTML entities.
pub open spec fn escape_char(c: char) -> Seq<char> {
    if c == '&' {
        "&amp;"@
    } else if c == '<' {
        "&lt;"@
    } else if c == '>' {
        "&gt;"@
    } else {
        seq![c]
    }
}

/// `s` with `&`, `<` and `>` written as HTML entities.
pub open spec fn html_escaped(s: Seq<char>) -> Seq<char>
    decreases s.len(),
{
    if s.len() == 0 {
        seq![]
    } else {
        html_escaped(s.drop_last()) + escape_char(s.last())
    }
}

/// `s` with `&`, `<` and `>` written as HTML entities.
pub fn html_escape(s: &str) -> (r: String)
    ensures
        r@ == html_escaped(s@),
{
    let cs = chars_of(s);
    let n = cs.len();
    let mut r = String::new();
    let mut i: usize = 0;
    while i < n
        invariant
            n == cs.len(),
            cs@ == s@,
            i <= n,
            r@ == html_escaped(cs@.subrange(0, i as int)),
        decreases n - i,
    {
        let c = cs[i];
        if c == '&' {
            r.append("&amp;");
        } else if c == '<' {
            r.append("&lt;");
        } else if c == '>' {
            r.append("&gt;");
        } else {
            crate::text::push_char(&mut r, c);
        }
        proof {
            reveal_strlit("&amp;");
            reveal_strlit("&lt;");
            reveal_strlit("&gt;");
            assert(cs@.subrange(0, i + 1).drop_last() =~= cs@.subrange(0, i as int));
        }
        i = i + 1;
    }
    proof {
        assert(cs@.subrange(0, n as int) =~= s@);
    }
    r
}

/// `s` cut at every `sep` (what `str::split` yields).
pub open spec fn pieces(s: Seq<char>, sep: char) -> Seq<Seq<char>>
    decreases s.len(),
{
    let i = find_char(s, sep);
    if i < 0 {
        seq![s]
    } else {
        proof {
            lemma_find_char_range(s, sep);
        }
        seq![s.subrange(0, i)] + pieces(s.subrange(i + 1, s.len() as int), sep)
    }
}

/// The decoded value of a parameter, or nothing where it does not decode to UTF-8.
pub open spec fn decoded_or_empty(v: Seq<char>) -> Seq<char> {
    match url_decoded(v) {
        Some(t) => t,
        None => seq![],
    }
}

/// The value `piece` (`key=value`) gives to `key`, decoded.
pub open spec fn param_of(piece: Seq<char>, key: Seq<char>) -> Option<Seq<char>> {
    let i = find_char(piece, '=');
    if i >= 0 && piece.subrange(0, i) == key {
        Some(decoded_or_empty(piece.subrange(i + 1, piece.len() as int)))
    } else {
        None
    }
}

/// The value the last of `ps` that names `key` gives it.
pub open spec fn last_param(ps: Seq<Seq<char>>, key: Seq<char>) -> Option<Seq<char>>
    decreases ps.len(),
{
    if ps.len() == 0 {
        None
    } else {
        match param_of(ps.last(), key) {
            Some(v) => Some(v),
            None => last_param(ps.drop_last(), key),
        }
    }
}

/// The `code`, `state` and `error` parameters of the query of `path` (the part after
/// its first `?`); the last occurrence of each wins.
pub open spec fn query_params(path: Seq<char>) -> (
    Option<Seq<char>>,
    Option<Seq<char>>,
    Option<Seq<char>>,
) {
    let q = find_char(path, '?');
    if q < 0 {
        (None, None, None)
    } else {
        let ps = pieces(path.subrange(q + 1, path.len() as int), '&');
        (last_param(ps, "code"@), last_param(ps, "state"@), last_param(ps, "error"@))
    }
}

/// Applies one `key=value` piece to the three parameters found so far.
fn apply_piece(
    cs: &Vec<char>,
    a: usize,
    b: usize,
    code: &mut Option<String>,
    state: &mut Option<String>,
    error: &mut Option<String>,
    Ghost(done): Ghost<Seq<Seq<char>>>,
)
    requires
        a <= b <= cs.len(),
        opt_text(*old(code)) == last_param(done, "code"@),
        opt_text(*old(state)) == last_param(done, "state"@),
        opt_text(*old(error)) == last_param(done, "error"@),
    ensures
        opt_text(*final(code)) == last_param(done.push(cs@.subrange(a as int, b as int)), "code"@),
        opt_text(*final(state)) == last_param(
            done.push(cs@.subrange(a as int, b as int)),
            "state"@,
        ),
        opt_text(*final(error)) == last_param(
            done.push(cs@.subrange(a as int, b as int)),
            "error"@,
        ),
{
    let ghost piece = cs@.subrange(a as int, b as int);
    proof {
        assert(done.push(piece).drop_last() =~= done);
        reveal_strlit("code");
        reveal_strlit("state");
        reveal_strlit("error");
    }
    let part = string_of(cs, a, b);
    let pc = chars_of(part.as_str());
    match find_from(&pc, 0, '=') {
        None => {
            proof {
                assert(pc@.subrange(0, pc@.len() as int) =~= piece);
            }
        },
        Some(i) => {
            proof {
                assert(pc@.subrange(0, pc@.len() as int) =~= piece);
            }
            let k = string_of(&pc, 0, i);
            let v = string_of(&pc, i + 1, pc.len());
            let value = match url_decode(v.as_str()) {
                Some(t) => t,
                None => String::new(),
            };
            if k == "code".to_string() {
                *code = Some(value);
            } else if k == "state".to_string() {
                *state = Some(value);
            } else if k == "error".to_string() {
                *error = Some(value);
            }
        },
    }
}

/// The `code`, `state` and `error` parameters of the query of a request path.
pub fn parse_query(path: &str) -> (r: (Option<String>, Option<String>, Option<String>))
    ensures
        (opt_text(r.0), opt_text(r.1), opt_text(r.2)) == query_params(path@),
{
    let cs = chars_of(path);
    let n = cs.len();
    proof {
        assert(cs@.subrange(0, n as int) =~= cs@);
    }
    match find_from(&cs, 0, '?') {
        None => (None, None, None),
        Some(q) => {
            let ghost query = cs@.subrange(q + 1, n as int);
            let mut code: Option<String> = None;
            let mut state: Option<String> = None;
            let mut error: Option<String> = None;
            let ghost mut done: Seq<Seq<char>> = seq![];
            let mut start = q + 1;
            let mut finished = false;
            proof {
                assert(query.subrange(0, query.len() as int) =~= query);
                assert(cs@.subrange(start as int, n as int) =~= query);
            }
            while !finished
                invariant
                    n == cs.len(),
                    q < n,
                    q + 1 <= start <= n,
                    query == cs@.subrange(q + 1, n as int),
                    !finished ==> pieces(query, '&') == done + pieces(
                        cs@.subrange(start as int, n as int),
                        '&',
                    ),
                    finished ==> pieces(query, '&') == done,
                    opt_text(code) == last_param(done, "code"@),
                    opt_text(state) == last_param(done, "state"@),
                    opt_text(error) == last_param(done, "error"@),
                decreases (if finished { 0 } else { 1 + n - start }),
            {
                let ghost rest = cs@.subrange(start as int, n as int);
                match find_from(&cs, start, '&') {
                    Some(e) => {
                        apply_piece(
                            &cs,
                            start,
                            e,
                            &mut code,
                            &mut state,
                            &mut error,
                            Ghost(done),
                        );
                        proof {
                            assert(rest.subrange(0, e - start) =~= cs@.subrange(start as int, e as int));
                            assert(rest.subrange(e - start + 1, rest.len() as int) =~= cs@.subrange(
                                e + 1,
                                n as int,
                            ));
                            assert(pieces(rest, '&') == seq![cs@.subrange(start as int, e as int)]
                                + pieces(cs@.subrange(e + 1, n as int), '&'));
                            assert(done + pieces(rest, '&') =~= done.push(
                                cs@.subrange(start as int, e as int),
                            ) + pieces(cs@.subrange(e + 1, n as int), '&'));
                            done = done.push(cs@.subrange(start as int, e as int));
                        }
                        start = e + 1;
                    },
                    None => {
                        apply_piece(
                            &cs,
                            start,
                            n,
                            &mut code,
                            &mut state,
                            &mut error,
                            Ghost(done),
                        );
                        proof {
                            assert(pieces(rest, '&') == seq![rest]);
                            assert(done + pieces(rest, '&') =~= done.push(rest));
                            done = done.push(rest);
                        }
                        finished = true;
                    },
                }
            }
            (code, state, error)
        },
    }
}

/// How the listener answers one loopback request.
#[derive(Debug, Clone)]
pub struct LoopbackReply {
    pub status: u16,
    pub content_type: String,
    pub body: String,
    /// `None` to keep listening; otherwise the code and state that came back, or the
    /// error Google reported.
    pub outcome: Option<Result<(String, String), Error>>,
}

/// The request path of a request line (its second word), `/` where it has none.
pub open spec fn request_path(line: Seq<char>) -> Seq<char> {
    match second_word(line) {
        Some(w) => w,
        None => "/"@,
    }
}

/// Body of the page shown when Google reports an error.
pub open spec fn error_page(err: Seq<char>) -> Seq<char> {
    "<h1>Archeio - OAuth error</h1><p>"@ + html_escaped(err) + "</p><p>You can close this window.</p>"@
}

/// Body of the page shown once the code has come back.
pub open spec fn connected_page() -> Seq<char> {
    "<h1>Archeio is connected.</h1><p>You can close this window.</p>"@
}

/// The listener's answer to a request whose request line is `line`: an `error`
/// parameter fails the flow (status 400), a `code` with a `state` completes it (200),
/// anything else (a favicon probe) gets a 404 and the listener keeps going.
pub open spec fn reply_ok(line: Seq<char>, r: LoopbackReply) -> bool {
    let (code, state, err) = query_params(request_path(line));
    if err is Some {
        &&& r.status == 400
        &&& r.content_type@ == "text/html"@
        &&& r.body@ == error_page(err->0)
        &&& r.outcome matches Some(Err(e)) && is_other(e, "OAuth error from Google: "@ + err->0)
    } else if code is Some && state is Some {
        &&& r.status == 200
        &&& r.content_type@ == "text/html"@
        &&& r.body@ == connected_page()
        &&& r.outcome matches Some(Ok(p)) && p.0@ == code->0 && p.1@ == state->0
    } else {
        &&& r.status == 404
        &&& r.content_type@ == "text/plain"@
        &&& r.body@ == "not found"@
        &&& r.outcome is None
    }
}

/// How the listener answers a loopback request with request line `line`.
pub fn loopback_reply(line: &str) -> (r: LoopbackReply)
    ensures
        reply_ok(line@, r),
{
    let path = match crate::text::second_word_of(line) {
        Some(w) => w,
        None => "/".to_string(),
    };
    let (code, state, error) = parse_query(path.as_str());
    match error {
        Some(err) => {
            let mut body = "<h1>Archeio - OAuth error</h1><p>".to_string();
            let esc = html_escape(err.as_str());
            body.append(esc.as_str());
            body.append("</p><p>You can close this window.</p>");
            let mut msg = "OAuth error from Google: ".to_string();
            msg.append(err.as_str());
            LoopbackReply {
                status: 400,
                content_type: "text/html".to_string(),
                body,
                outcome: Some(Err(Error::Other(msg))),
            }
        },
        None => match (code, state) {
            (Some(c), Some(s)) => LoopbackReply {
                status: 200,
                content_type: "text/html".to_string(),
                body: "<h1>Archeio is connected.</h1><p>You can close this window.</p>".to_string(),
                outcome: Some(Ok((c, s))),
            },
            _ => LoopbackReply {
                status: 404,
                content_type: "text/plain".to_string(),
                body: "not found".to_string(),
                outcome: None,
            },
        },
    }
}

} // verus!

verus! {

/// Escaped text never holds `<` or `>`, so Google's error text cannot inject markup
/// into the page the listener serves.
pub proof fn lemma_escaped_has_no_angle_brackets(s: Seq<char>)
    ensures
        forall|i: int|
            0 <= i < html_escaped(s).len() ==> #[trigger] html_escaped(s)[i] != '<'
                && html_escaped(s)[i] != '>',
    decreases s.len(),
{
    reveal_strlit("&amp;");
    reveal_strlit("&lt;");
    reveal_strlit("&gt;");
    if s.len() > 0 {
        lemma_escaped_has_no_angle_brackets(s.drop_last());
        let a = html_escaped(s.drop_last());
        let b = escape_char(s.last());
        assert forall|i: int| 0 <= i < html_escaped(s).len() implies #[trigger] html_escaped(s)[i]
            != '<' && html_escaped(s)[i] != '>' by {
            if i < a.len() {
                assert(html_escaped(s)[i] == a[i]);
            } else {
                assert(html_escaped(s)[i] == b[i - a.len()]);
            }
        }
    }
}

} // verus!
