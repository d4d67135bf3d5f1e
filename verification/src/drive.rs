//! The drive session: the access token to the OneDrive account and the key
//! that files are encrypted with, and the decisions of the login flow.

use crate::encryption::{
    aes256gcm_open,
    aes256gcm_seal,
    decrypt,
    encrypt,
    max_plaintext_len,
    opened_message,
    body_len_refused,
    recoverable_len,
    sealed_message,
    KEY_LEN,
    NONCE_LEN,
    TAG_LEN,
};
use vstd::prelude::*;
use vstd::string::*;

verus! {

/// The application (client) id registered for the OAuth2 login.
pub const CLIENT_ID: &'static str = "48100e01-0c50-4c12-8887-d3fa69416e02";

/// The address that the local server listens on for the login redirect.
pub const LISTEN_ADDRESS: &'static str = "127.0.0.1:3000";

/// The redirect URI that the login sends the authorization code to.
pub const REDIRECT_URI: &'static str = "http://127.0.0.1:3000/auth";

/// A session with the drive: the access token to the account and the key
/// that files are encrypted with.
pub struct Drive {
    access_token: String,
    key: Vec<u8>,
}

impl Drive {
    /// The access token of the session.
    pub closed spec fn token(&self) -> Seq<char> {
        self.access_token@
    }

    /// The encryption key of the session.
    pub closed spec fn key(&self) -> Seq<u8> {
        self.key@
    }

    /// A session with the access token `token` and the encryption key `key`.
    pub fn new(token: String, key: Vec<u8>) -> (d: Drive)
        ensures
            d.token() == token@,
            d.key() == key@,
    {
        Drive { access_token: token, key: key }
    }

    /// The access token of the session.
    pub fn access_token(&self) -> (t: &str)
        ensures
            t@ == self.token(),
    {
        self.access_token.as_str()
    }

    /// Whether the key has the length that AES-256 takes (32 bytes); only
    /// then can the session encrypt and decrypt.
    pub fn has_valid_key(&self) -> (ok: bool)
        ensures
            ok == (self.key().len() == KEY_LEN),
    {
        self.key.len() == KEY_LEN
    }

    /// The content of a file as it is uploaded: encrypted under the session
    /// key with a fresh nonce, the nonce first.
    pub fn encrypt_content(&self, content: Vec<u8>) -> (out: Vec<u8>)
        requires
            self.key().len() == KEY_LEN,
        ensures
            exists|nonce: Seq<u8>|
                nonce.len() == NONCE_LEN && out@ == #[trigger] sealed_message(
                    self.key(),
                    nonce,
                    content@,
                ),
            content@.len() <= max_plaintext_len() ==> out@.len() == content@.len() + NONCE_LEN
                + TAG_LEN,
            out@.len() >= NONCE_LEN,
            content@.len() <= 0x10_0000_0000 ==> out@.skip(NONCE_LEN as int) == aes256gcm_seal(
                self.key(),
                out@.take(NONCE_LEN as int),
                content@,
            ),
    {
        encrypt(content, &self.key)
    }

    /// The content of a downloaded file, decrypted under the session key.
    /// What `encrypt_content` made under the same key comes back as it was.
    pub fn decrypt_content(&self, data: Vec<u8>) -> (plain: Vec<u8>)
        requires
            self.key().len() == KEY_LEN,
            data@.len() >= NONCE_LEN,
        ensures
            plain@ == opened_message(self.key(), data@),
            body_len_refused(data@.len() - NONCE_LEN) ==> plain@ == data@.skip(NONCE_LEN as int),
            forall|nonce: Seq<u8>, p: Seq<u8>|
                nonce.len() == NONCE_LEN && recoverable_len(p.len() as int) && data@
                    == #[trigger] sealed_message(self.key(), nonce, p) ==> plain@ == p,
            forall|nonce: Seq<u8>, p: Seq<u8>|
                nonce.len() == 12 && p.len() <= 0x10_0000_0000 && data@ == nonce
                    + #[trigger] aes256gcm_seal(self.key(), nonce, p) ==> plain@ == p,
            16 <= data@.len() - 12 <= 0x10_0000_0000 + 32 && aes256gcm_open(
                self.key(),
                data@.take(12),
                data@.skip(12),
            ) is Some ==> plain@ == aes256gcm_open(self.key(), data@.take(12), data@.skip(12))->0,
            aes256gcm_open(self.key(), data@.take(12), data@.skip(12)) is None ==> plain@
                == data@.skip(12),
    {
        decrypt(data, &self.key)
    }
}

/// What the local server answers to a request during the login.
pub enum AuthReply {
    /// The redirect with the authorization code arrived: stop serving.
    Received(String),
    /// The redirect arrived without a code (the request handler fails).
    MissingCode,
    /// Any other request.
    NotFound,
}

/// The part of a raw request URL before its query (before the first `?`).
pub open spec fn url_path(raw_url: Seq<char>) -> Seq<char> {
    if raw_url.contains('?') {
        raw_url.take(choose_first_question(raw_url))
    } else {
        raw_url
    }
}

/// Index of the first `?` in `s` (where there is one).
pub open spec fn choose_first_question(s: Seq<char>) -> int {
    choose|i: int|
        0 <= i < s.len() && s[i] == '?' && forall|k: int| 0 <= k < i ==> s[k] != '?'
}

/// The path of a request URL is its longest prefix without `?`: the whole
/// URL, or the part before its first `?`.
pub proof fn lemma_url_path(raw_url: Seq<char>)
    ensures
        url_path(raw_url).len() <= raw_url.len(),
        url_path(raw_url) == raw_url.take(url_path(raw_url).len() as int),
        !url_path(raw_url).contains('?'),
        url_path(raw_url).len() == raw_url.len() || raw_url[url_path(raw_url).len() as int] == '?',
{
    if raw_url.contains('?') {
        let i0 = choose|i: int| 0 <= i < raw_url.len() && raw_url[i] == '?';
        let m = first_question(raw_url, i0);
        let c = choose_first_question(raw_url);
        assert(0 <= c < raw_url.len() && raw_url[c] == '?' && forall|k: int|
            0 <= k < c ==> raw_url[k] != '?');
        assert(url_path(raw_url) =~= raw_url.take(c));
        assert forall|k: int| 0 <= k < c implies url_path(raw_url)[k] != '?' by {
            assert(url_path(raw_url)[k] == raw_url[k]);
        }
    } else {
        assert(raw_url.take(raw_url.len() as int) =~= raw_url);
    }
}

proof fn first_question(s: Seq<char>, i0: int) -> (m: int)
    requires
        0 <= i0 < s.len(),
        s[i0] == '?',
    ensures
        0 <= m <= i0,
        s[m] == '?',
        forall|k: int| 0 <= k < m ==> s[k] != '?',
    decreases i0,
{
    if exists|k: int| 0 <= k < i0 && s[k] == '?' {
        let k = choose|k: int| 0 <= k < i0 && s[k] == '?';
        first_question(s, k)
    } else {
        i0
    }
}

/// Whether a request is the login redirect: method `GET` and URL path
/// `/auth`.
pub open spec fn is_auth_redirect(method: Seq<char>, raw_url: Seq<char>) -> bool {
    method == "GET"@ && url_path(raw_url) == "/auth"@
}

/// The server's answer to a request with `method` and `raw_url`, whose
/// `code` query parameter is `code`: the login redirect hands over its code;
/// every other request gets "404".
pub fn auth_callback(method: &str, raw_url: &str, code: Option<String>) -> (reply: AuthReply)
    ensures
        is_auth_redirect(method@, raw_url@) && code is Some ==> reply == AuthReply::Received(
            code->0,
        ),
        is_auth_redirect(method@, raw_url@) && code is None ==> reply is MissingCode,
        !is_auth_redirect(method@, raw_url@) ==> reply is NotFound,
        reply matches AuthReply::Received(c) ==> method@ == "GET"@ && url_path(raw_url@)
            == "/auth"@ && code == Some(c),
        reply is MissingCode ==> method@ == "GET"@ && url_path(raw_url@) == "/auth"@ && code
            is None,
        reply is NotFound ==> !(method@ == "GET"@ && url_path(raw_url@) == "/auth"@),
{
    let n = raw_url.unicode_len();
    let mut i: usize = 0;
    while i < n && raw_url.get_char(i) != '?'
        invariant
            n == raw_url@.len(),
            i <= n,
            forall|k: int| 0 <= k < i ==> raw_url@[k] != '?',
        decreases n - i,
    {
        i = i + 1;
    }
    let path = String::from_str(raw_url.substring_char(0, i));
    proof {
        if i < n {
            assert(raw_url@[i as int] == '?');
            assert(raw_url@.contains('?'));
            let c = choose_first_question(raw_url@);
            assert(0 <= c < raw_url@.len() && raw_url@[c] == '?' && forall|k: int|
                0 <= k < c ==> raw_url@[k] != '?');
            assert(c == i) by {
                if c < i {
                    assert(raw_url@[c] != '?');
                }
                if c > i {
                    assert(raw_url@[i as int] != '?');
                }
            }
        } else {
            assert(!raw_url@.contains('?'));
            assert(raw_url@.take(i as int) =~= raw_url@);
        }
        assert(path@ =~= url_path(raw_url@));
    }
    let get = String::from_str("GET");
    let auth = String::from_str("/auth");
    let method_text = String::from_str(method);
    if method_text == get && path == auth {
        match code {
            Some(c) => AuthReply::Received(c),
            None => AuthReply::MissingCode,
        }
    } else {
        AuthReply::NotFound
    }
}

impl AuthReply {
    /// The text of the server's answer: "you can close this tab" for the
    /// redirect, "404" for other requests; none where the handler fails.
    pub fn reply_text(&self) -> (text: Option<String>)
        ensures
            self is Received ==> (text matches Some(t) && t@ == "you can close this tab"@),
            self is NotFound ==> (text matches Some(t) && t@ == "404"@),
            self is MissingCode ==> text is None,
    {
        match self {
            AuthReply::Received(_) => Some(String::from_str("you can close this tab")),
            AuthReply::NotFound => Some(String::from_str("404")),
            AuthReply::MissingCode => None,
        }
    }
}

/// The tokens that a login answers with.
pub struct TokenPair {
    pub access_token: String,
    pub refresh_token: Option<String>,
}

/// What happened last in the login flow.
pub enum LoginEvent {
    /// The saved refresh token was read, or could not be.
    SavedToken(Option<String>),
    /// The login with the refresh token answered: tokens, or an error text.
    RefreshReply(Result<TokenPair, String>),
    /// The login with the authorization code answered: tokens, or an error
    /// text.
    CodeReply(Result<TokenPair, String>),
}

/// What the login flow does next.
pub enum LoginAction {
    /// Log in with this refresh token.
    RefreshWith(String),
    /// Print the notice, then log in through the browser with a code.
    CodeLogin(String),
    /// Print the notice if there is one, save the refresh token, and open a
    /// session with the access token; on a fresh login the user is asked
    /// about the saved password.
    Open { notice: Option<String>, save_token: String, access_token: String, fresh_login: bool },
    /// Print the notice if there is one; then the login cannot go on (a
    /// reply without the refresh token it must carry, or a failed code
    /// login).
    Abort { notice: Option<String> },
}

/// The next step of the login flow after `event`: a saved refresh token is
/// tried first; without one, or when it is refused, the browser login with
/// a code follows; a successful login saves its refresh token and opens the
/// session.
pub fn login_step(event: LoginEvent) -> (action: LoginAction)
    ensures
        match event {
            LoginEvent::SavedToken(Some(t)) => action == LoginAction::RefreshWith(t),
            LoginEvent::SavedToken(None) => action matches LoginAction::CodeLogin(m) && m@
                == "No refresh token. Please Log in..."@,
            LoginEvent::RefreshReply(Ok(tokens)) => match tokens.refresh_token {
                Some(r) => action matches LoginAction::Open {
                    notice: Some(m),
                    save_token: s,
                    access_token: a,
                    fresh_login: false,
                } && m@ == "Using exsiting refresh token."@ && s == r && a == tokens.access_token,
                None => action matches LoginAction::Abort { notice: Some(m) } && m@
                    == "Using exsiting refresh token."@,
            },
            LoginEvent::RefreshReply(Err(e)) => action matches LoginAction::CodeLogin(m) && m@
                == "auth err "@ + e@,
            LoginEvent::CodeReply(Ok(tokens)) => match tokens.refresh_token {
                Some(r) => action == LoginAction::Open {
                    notice: None,
                    save_token: r,
                    access_token: tokens.access_token,
                    fresh_login: true,
                },
                None => action == LoginAction::Abort { notice: None },
            },
            LoginEvent::CodeReply(Err(_)) => action == LoginAction::Abort { notice: None },
        },
{
    match event {
        LoginEvent::SavedToken(Some(t)) => LoginAction::RefreshWith(t),
        LoginEvent::SavedToken(None) => LoginAction::CodeLogin(
            String::from_str("No refresh token. Please Log in..."),
        ),
        LoginEvent::RefreshReply(Ok(tokens)) => match tokens.refresh_token {
            Some(r) => LoginAction::Open {
                notice: Some(String::from_str("Using exsiting refresh token.")),
                save_token: r,
                access_token: tokens.access_token,
                fresh_login: false,
            },
            None => LoginAction::Abort {
                notice: Some(String::from_str("Using exsiting refresh token.")),
            },
        },
        LoginEvent::RefreshReply(Err(e)) => {
            let mut m = String::from_str("auth err ");
            m.append(e.as_str());
            LoginAction::CodeLogin(m)
        },
        LoginEvent::CodeReply(Ok(tokens)) => match tokens.refresh_token {
            Some(r) => LoginAction::Open {
                notice: None,
                save_token: r,
                access_token: tokens.access_token,
                fresh_login: true,
            },
            None => LoginAction::Abort { notice: None },
        },
        LoginEvent::CodeReply(Err(_)) => LoginAction::Abort { notice: None },
    }
}

} // verus!
