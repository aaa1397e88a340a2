//! Minecraft accounts: the saved account list, session lifetimes, and the
//! Microsoft sign-in (PKCE secrets, the authorization URL, the redirect
//! callback and the answers of the Xbox and Minecraft services).
use vstd::prelude::*;
use vstd::utf8::encode_utf8;
use rand::distr::SampleString;
use crate::digests::{base64url_encode, base64url_nopad, sha256, sha256_digest};
use crate::text::{
    chars_of, concat2, decimal, is_ascii_alphanumeric, lines, push_decimal, push_str,
    split_lines, split_whitespace_str, str_equal, to_string, whitespace_tokens,
};

verus! {

/// The application id registered with Microsoft.
pub const CLIENT_ID: &'static str = "4e82ebb8-bdf1-48f8-a1c2-8a62cd1be7a8";

/// A signed-in Minecraft session.
#[derive(Clone, Debug)]
pub struct MinecraftSession {
    pub username: String,
    pub uuid: String,
    pub access_token: String,
}

// ---------------------------------------------------------------------------
// Saved accounts
// ---------------------------------------------------------------------------

/// An account in the saved account list.
#[derive(Clone, Debug)]
pub struct StoredAccountSummary {
    pub username: String,
    pub uuid: String,
    pub active: bool,
}

/// A saved account by its values.
pub struct AccountView {
    pub username: Seq<char>,
    pub uuid: Seq<char>,
    pub active: bool,
}

impl View for StoredAccountSummary {
    type V = AccountView;

    open spec fn view(&self) -> AccountView {
        AccountView { username: self.username@, uuid: self.uuid@, active: self.active }
    }
}

pub open spec fn account_views(v: Seq<StoredAccountSummary>) -> Seq<AccountView> {
    v.map_values(|a: StoredAccountSummary| a@)
}

/// The position of the first account with the given uuid.
pub open spec fn account_index(accounts: Seq<AccountView>, uuid: Seq<char>) -> Option<int>
    decreases accounts.len(),
{
    if accounts.len() == 0 {
        None
    } else if accounts[0].uuid == uuid {
        Some(0)
    } else {
        match account_index(accounts.drop_first(), uuid) {
            Some(i) => Some(i + 1),
            None => None,
        }
    }
}

pub proof fn lemma_account_index(accounts: Seq<AccountView>, uuid: Seq<char>)
    ensures
        account_index(accounts, uuid) matches Some(i) ==> 0 <= i < accounts.len()
            && accounts[i].uuid == uuid && forall|j: int| 0 <= j < i ==> accounts[j].uuid != uuid,
        account_index(accounts, uuid) is None ==> forall|j: int|
            0 <= j < accounts.len() ==> accounts[j].uuid != uuid,
    decreases accounts.len(),
{
    if accounts.len() > 0 {
        lemma_account_index(accounts.drop_first(), uuid);
        assert forall|j: int| 0 < j < accounts.len() implies accounts[j]
            == accounts.drop_first()[j - 1] by {}
    }
}

/// The accounts with every one marked inactive.
pub open spec fn all_inactive(accounts: Seq<AccountView>) -> Seq<AccountView> {
    Seq::new(
        accounts.len(),
        |i: int| AccountView { active: false, ..accounts[i] },
    )
}

/// The account list after signing in: every account is marked inactive,
/// then the first one with the uuid takes the new name and becomes active,
/// or a new active account is appended when there is none.
pub open spec fn recorded_accounts(
    accounts: Seq<AccountView>,
    username: Seq<char>,
    uuid: Seq<char>,
) -> Seq<AccountView> {
    match account_index(accounts, uuid) {
        Some(k) => all_inactive(accounts).update(
            k,
            AccountView { username: username, active: true, ..accounts[k] },
        ),
        None => all_inactive(accounts).push(
            AccountView { username: username, uuid: uuid, active: true },
        ),
    }
}

/// Records a signed-in account in the saved list.
pub fn record_active_account(
    accounts: Vec<StoredAccountSummary>,
    username: &str,
    uuid: &str,
) -> (r: Vec<StoredAccountSummary>)
    ensures
        account_views(r@) == recorded_accounts(account_views(accounts@), username@, uuid@),
{
    let ghost all = account_views(accounts@);
    let mut out: Vec<StoredAccountSummary> = Vec::new();
    let mut found: Option<usize> = None;
    let mut i: usize = 0;
    while i < accounts.len()
        invariant
            0 <= i <= accounts.len(),
            all == account_views(accounts@),
            out@.len() == i,
            found matches Some(k) ==> k < i && all[k as int].uuid == uuid@ && forall|j: int|
                0 <= j < k ==> all[j].uuid != uuid@,
            found is None ==> forall|j: int| 0 <= j < i ==> all[j].uuid != uuid@,
            forall|j: int|
                0 <= j < i ==> #[trigger] out@[j]@ == if found == Some(j as usize) {
                    AccountView { username: username@, active: true, ..all[j] }
                } else {
                    AccountView { active: false, ..all[j] }
                },
        decreases accounts.len() - i,
    {
        let a = &accounts[i];
        if found.is_none() && str_equal(a.uuid.as_str(), uuid) {
            found = Some(i);
            out.push(
                StoredAccountSummary {
                    username: to_string(username),
                    uuid: a.uuid.clone(),
                    active: true,
                },
            );
        } else {
            out.push(
                StoredAccountSummary {
                    username: a.username.clone(),
                    uuid: a.uuid.clone(),
                    active: false,
                },
            );
        }
        i += 1;
    }
    proof {
        lemma_account_index(all, uuid@);
    }
    match found {
        Some(k) => {
            proof {
                assert(account_index(all, uuid@) == Some(k as int));
                assert(account_views(out@) =~= recorded_accounts(all, username@, uuid@));
            }
        },
        None => {
            let ghost before = out@;
            out.push(
                StoredAccountSummary {
                    username: to_string(username),
                    uuid: to_string(uuid),
                    active: true,
                },
            );
            proof {
                assert(account_index(all, uuid@) is None);
                assert(account_views(out@) =~= recorded_accounts(all, username@, uuid@));
            }
        },
    }
    out
}

/// After an account is recorded, it is the only active account, under the
/// name it signed in with, and no account was lost.
pub proof fn recorded_account_is_the_only_active(
    accounts: Seq<AccountView>,
    username: Seq<char>,
    uuid: Seq<char>,
)
    ensures
        ({
            let r = recorded_accounts(accounts, username, uuid);
            &&& account_index(r, uuid) matches Some(k) && r[k].active && r[k].username == username
                && forall|j: int| 0 <= j < r.len() && j != k ==> !r[j].active
            &&& r.len() >= accounts.len()
            &&& forall|j: int| 0 <= j < accounts.len() ==> r[j].uuid == accounts[j].uuid
        }),
{
    let r = recorded_accounts(accounts, username, uuid);
    lemma_account_index(accounts, uuid);
    lemma_account_index(r, uuid);
    match account_index(accounts, uuid) {
        Some(k) => {
            assert(r[k].uuid == uuid);
            assert forall|j: int| 0 <= j < k implies r[j].uuid != uuid by {
                assert(r[j].uuid == accounts[j].uuid);
            }
            assert(account_index(r, uuid) == Some(k));
        },
        None => {
            let k = accounts.len() as int;
            assert(r[k].uuid == uuid);
            assert forall|j: int| 0 <= j < k implies r[j].uuid != uuid by {
                assert(r[j].uuid == accounts[j].uuid);
            }
            assert(account_index(r, uuid) == Some(k));
        },
    }
}

/// Marks every saved account inactive (signing out).
pub fn deactivate_accounts(accounts: Vec<StoredAccountSummary>) -> (r: Vec<StoredAccountSummary>)
    ensures
        account_views(r@) == all_inactive(account_views(accounts@)),
{
    let ghost all = account_views(accounts@);
    let mut out: Vec<StoredAccountSummary> = Vec::new();
    let mut i: usize = 0;
    while i < accounts.len()
        invariant
            0 <= i <= accounts.len(),
            all == account_views(accounts@),
            out@.len() == i,
            forall|j: int| 0 <= j < i ==> #[trigger] out@[j]@ == (AccountView { active: false, ..all[j] }),
        decreases accounts.len() - i,
    {
        out.push(
            StoredAccountSummary {
                username: accounts[i].username.clone(),
                uuid: accounts[i].uuid.clone(),
                active: false,
            },
        );
        i += 1;
    }
    assert(account_views(out@) =~= all_inactive(all));
    out
}

/// The keyring entry (service, user) that holds the current session.
pub open spec fn session_credential() -> (Seq<char>, Seq<char>) {
    ("Aureus Launcher"@, "minecraft-session"@)
}

/// The keyring entry (service, user) that holds a saved account's session.
pub open spec fn account_credential(uuid: Seq<char>) -> (Seq<char>, Seq<char>) {
    ("Aureus Launcher Account"@, uuid)
}

/// The keyring entry of the current session.
pub fn session_credential_entry() -> (r: (String, String))
    ensures
        (r.0@, r.1@) == session_credential(),
{
    (to_string("Aureus Launcher"), to_string("minecraft-session"))
}

/// The keyring entry of a saved account's session.
pub fn account_credential_entry(uuid: &str) -> (r: (String, String))
    ensures
        (r.0@, r.1@) == account_credential(uuid@),
{
    (to_string("Aureus Launcher Account"), to_string(uuid))
}

/// The keyring entries of the accounts marked active, in order.
pub open spec fn active_credentials(accounts: Seq<AccountView>) -> Seq<(Seq<char>, Seq<char>)>
    decreases accounts.len(),
{
    if accounts.len() == 0 {
        seq![]
    } else {
        active_credentials(accounts.drop_last()) + if accounts.last().active {
            seq![account_credential(accounts.last().uuid)]
        } else {
            seq![]
        }
    }
}

/// What signing out removes from the keyring: the current session, the
/// entry of the account signed in (when it is known) and the entries of
/// the accounts marked active. The other saved accounts stay.
pub open spec fn signout_credentials(
    session_uuid: Option<Seq<char>>,
    accounts: Seq<AccountView>,
) -> Seq<(Seq<char>, Seq<char>)> {
    seq![session_credential()] + match session_uuid {
        Some(u) => seq![account_credential(u)],
        None => seq![],
    } + active_credentials(accounts)
}

/// The keyring entries that signing out deletes.
pub fn signout_credential_entries(
    session_uuid: Option<&str>,
    accounts: &Vec<StoredAccountSummary>,
) -> (r: Vec<(String, String)>)
    ensures
        pair_views(r@) == signout_credentials(
            match session_uuid {
                Some(u) => Some(u@),
                None => None,
            },
            account_views(accounts@),
        ),
{
    let ghost all = account_views(accounts@);
    let mut r: Vec<(String, String)> = Vec::new();
    r.push(session_credential_entry());
    match session_uuid {
        Some(u) => r.push(account_credential_entry(u)),
        None => {},
    }
    let ghost head = pair_views(r@);
    let mut i: usize = 0;
    while i < accounts.len()
        invariant
            0 <= i <= accounts.len(),
            all == account_views(accounts@),
            pair_views(r@) == head + active_credentials(all.take(i as int)),
        decreases accounts.len() - i,
    {
        proof {
            assert(all.take(i + 1).drop_last() =~= all.take(i as int));
            assert(all.take(i + 1).last() == accounts@[i as int]@);
        }
        let ghost before = pair_views(r@);
        if accounts[i].active {
            let e = account_credential_entry(accounts[i].uuid.as_str());
            r.push(e);
            assert(pair_views(r@) =~= before.push(account_credential(accounts@[i as int].uuid@)));
        }
        assert(pair_views(r@) =~= head + active_credentials(all.take(i + 1)));
        i += 1;
    }
    assert(all.take(accounts.len() as int) =~= all);
    assert(pair_views(r@) =~= signout_credentials(
        match session_uuid {
            Some(u) => Some(u@),
            None => None,
        },
        all,
    ));
    r
}

/// Every active account's entry is among the active entries.
proof fn lemma_active_credentials(accounts: Seq<AccountView>, k: int)
    requires
        0 <= k < accounts.len(),
        accounts[k].active,
    ensures
        active_credentials(accounts).contains(account_credential(accounts[k].uuid)),
    decreases accounts.len(),
{
    let rest = active_credentials(accounts.drop_last());
    if k == accounts.len() - 1 {
        let all = active_credentials(accounts);
        assert(all[rest.len() as int] == account_credential(accounts[k].uuid));
    } else {
        assert(accounts.drop_last()[k] == accounts[k]);
        lemma_active_credentials(accounts.drop_last(), k);
        let j = choose|j: int| 0 <= j < rest.len() && rest[j] == account_credential(accounts[k].uuid);
        assert(active_credentials(accounts)[j] == rest[j]);
    }
}

/// Signing out removes the stored credentials of a session that was saved:
/// saving writes the session entry and the account's own entry and records
/// the account as active, and signing out deletes both entries, whether or
/// not the signed-in account is still known.
pub proof fn signing_out_removes_the_session(
    accounts: Seq<AccountView>,
    username: Seq<char>,
    uuid: Seq<char>,
    session_uuid: Option<Seq<char>>,
)
    ensures
        signout_credentials(session_uuid, recorded_accounts(accounts, username, uuid)).contains(
            session_credential(),
        ),
        signout_credentials(session_uuid, recorded_accounts(accounts, username, uuid)).contains(
            account_credential(uuid),
        ),
{
    let r = recorded_accounts(accounts, username, uuid);
    let out = signout_credentials(session_uuid, r);
    assert(out[0] == session_credential());
    recorded_account_is_the_only_active(accounts, username, uuid);
    lemma_account_index(r, uuid);
    let k = account_index(r, uuid)->0;
    lemma_active_credentials(r, k);
    let act = active_credentials(r);
    let j = choose|j: int| 0 <= j < act.len() && act[j] == account_credential(r[k].uuid);
    let head = seq![session_credential()] + match session_uuid {
        Some(u) => seq![account_credential(u)],
        None => seq![],
    };
    assert(out == head + act);
    assert(out[head.len() + j] == act[j]);
}

/// The message shown after signing out.
pub fn logout_message() -> (r: String)
    ensures
        r@ == "Sesión cerrada; las otras cuentas permanecen guardadas de forma segura"@,
{
    to_string("Sesión cerrada; las otras cuentas permanecen guardadas de forma segura")
}

// ---------------------------------------------------------------------------
// Session lifetimes
// ---------------------------------------------------------------------------

/// The lifetime assumed for a Minecraft token when the service gives none.
pub fn default_minecraft_token_lifetime() -> (r: u64)
    ensures
        r == 86_400,
{
    86_400
}

/// A lifetime shortened by a minute, and not below zero.
pub open spec fn shortened(expires_in: u64) -> nat {
    if expires_in > 60 {
        (expires_in - 60) as nat
    } else {
        0
    }
}

/// When a session saved at `now` with the given lifetime expires: a minute
/// early, so that it is never used at the edge of its lifetime.
pub fn session_expiry(now: u64, expires_in: u64) -> (r: u64)
    requires
        now + shortened(expires_in) <= u64::MAX,
    ensures
        r == now + shortened(expires_in),
{
    now + expires_in.saturating_sub(60)
}

/// A saved session is usable while its expiry is still ahead.
pub open spec fn session_current(expires_at: u64, now: u64) -> bool {
    expires_at > now
}

/// Whether a saved session can still be used.
pub fn session_is_current(expires_at: u64, now: u64) -> (r: bool)
    ensures
        r == session_current(expires_at, now),
{
    expires_at > now
}

/// The time a saved session has left, or the message that it expired.
pub fn remaining_session_lifetime(expires_at: u64, now: u64) -> (r: Result<u64, String>)
    ensures
        session_current(expires_at, now) ==> r == Ok::<u64, String>((expires_at - now) as u64),
        !session_current(expires_at, now) ==> (r matches Err(e) && e@
            == "La sesión expiró; vuelve a iniciar con Microsoft"@),
{
    if expires_at <= now {
        Err(to_string("La sesión expiró; vuelve a iniciar con Microsoft"))
    } else {
        Ok(expires_at - now)
    }
}

/// A launch needs a signed-in Minecraft session.
pub fn require_session(session: Option<MinecraftSession>) -> (r: Result<MinecraftSession, String>)
    ensures
        session matches Some(s) ==> r == Ok::<MinecraftSession, String>(s),
        session is None ==> (r matches Err(e) && e@
            == "Inicia sesión con Microsoft desde Cuenta antes de jugar"@),
{
    match session {
        Some(s) => Ok(s),
        None => Err(to_string("Inicia sesión con Microsoft desde Cuenta antes de jugar")),
    }
}

// ---------------------------------------------------------------------------
// Microsoft sign-in
// ---------------------------------------------------------------------------

/// Draws `len` characters with `rand::distr::Alphanumeric` from the thread
/// generator (`rand::rng()`, through `SampleString::sample_string`): each is
/// an ASCII letter or digit. Which ones come out is left open. The thread
/// generator panics when the operating system cannot seed it.
#[verifier::external_body]
fn random_alphanumeric(len: usize) -> (r: String)
    ensures
        r@.len() == len,
        forall|i: int| 0 <= i < r@.len() ==> is_ascii_alphanumeric(#[trigger] r@[i]),
{
    rand::distr::Alphanumeric.sample_string(&mut rand::rng(), len)
}

/// The PKCE challenge of a verifier: the unpadded base64url text of the
/// SHA-256 digest of its UTF-8 bytes.
pub open spec fn challenge_of(verifier: Seq<char>) -> Seq<char> {
    base64url_nopad(sha256_digest(encode_utf8(verifier)))
}

/// The PKCE challenge sent with the authorization request.
pub fn pkce_challenge(verifier: &str) -> (r: String)
    ensures
        r@ == challenge_of(verifier@),
{
    let digest = sha256(verifier.as_bytes());
    base64url_encode(digest.as_slice())
}

/// The random secrets of one sign-in: the PKCE verifier, its challenge, and
/// the state that the redirect must carry back.
pub struct LoginSecrets {
    pub verifier: String,
    pub challenge: String,
    pub state: String,
}

/// Draws the secrets of a new sign-in: a verifier of 64 and a state of 32
/// random ASCII letters and digits, and the verifier's challenge.
pub fn new_login_secrets() -> (r: LoginSecrets)
    ensures
        r.verifier@.len() == 64,
        r.state@.len() == 32,
        forall|i: int| 0 <= i < 64 ==> is_ascii_alphanumeric(#[trigger] r.verifier@[i]),
        forall|i: int| 0 <= i < 32 ==> is_ascii_alphanumeric(#[trigger] r.state@[i]),
        r.challenge@ == challenge_of(r.verifier@),
{
    let verifier = random_alphanumeric(64);
    let challenge = pkce_challenge(verifier.as_str());
    let state = random_alphanumeric(32);
    LoginSecrets { verifier, challenge, state }
}

/// The address that Microsoft redirects to: the local listener's port.
pub fn redirect_uri(port: u16) -> (r: String)
    ensures
        r@ == "http://localhost:"@ + decimal(port as nat),
{
    let mut r = to_string("http://localhost:");
    push_decimal(&mut r, port as u64);
    r
}

/// Pairs of strings by their values.
pub open spec fn pair_views(v: Seq<(String, String)>) -> Seq<(Seq<char>, Seq<char>)> {
    v.map_values(|p: (String, String)| (p.0@, p.1@))
}

/// What `url::Url::parse` followed by `query_pairs_mut().extend_pairs` and
/// the conversion to text give: `None` when `base` is not an absolute URL,
/// else the URL with the pairs appended, form-urlencoded, to its query.
pub uninterp spec fn url_with_query(base: Seq<char>, pairs: Seq<(Seq<char>, Seq<char>)>) -> Option<
    Seq<char>,
>;

/// Calls `url::Url::parse` on `base` and appends the pairs to its query
/// with `query_pairs_mut().extend_pairs`; the result is `url_with_query`.
/// The text of a parse error is left unsaid.
#[verifier::external_body]
fn append_query_pairs(base: &str, pairs: &Vec<(String, String)>) -> (r: Result<String, String>)
    ensures
        r is Ok <==> url_with_query(base@, pair_views(pairs@)) is Some,
        r matches Ok(u) ==> url_with_query(base@, pair_views(pairs@)) == Some(u@),
{
    let mut url = url::Url::parse(base).map_err(|e| e.to_string())?;
    url.query_pairs_mut().extend_pairs(pairs.iter());
    Ok(url.into())
}

/// The endpoint where a Microsoft sign-in starts.
pub open spec fn authorize_endpoint() -> Seq<char> {
    "https://login.microsoftonline.com/consumers/oauth2/v2.0/authorize"@
}

/// The query of the authorization request, in order.
pub open spec fn authorize_pairs(
    redirect: Seq<char>,
    state: Seq<char>,
    challenge: Seq<char>,
) -> Seq<(Seq<char>, Seq<char>)> {
    seq![
        ("client_id"@, CLIENT_ID@),
        ("response_type"@, "code"@),
        ("redirect_uri"@, redirect),
        ("response_mode"@, "query"@),
        ("scope"@, "XboxLive.signin offline_access"@),
        ("state"@, state),
        ("code_challenge"@, challenge),
        ("code_challenge_method"@, "S256"@),
    ]
}

fn pair(a: &str, b: &str) -> (r: (String, String))
    ensures
        r.0@ == a@,
        r.1@ == b@,
{
    (to_string(a), to_string(b))
}

/// The address the browser opens to sign in with Microsoft.
pub fn authorization_url(redirect: &str, state: &str, challenge: &str) -> (r: Result<String, String>)
    ensures
        r is Ok <==> url_with_query(
            authorize_endpoint(),
            authorize_pairs(redirect@, state@, challenge@),
        ) is Some,
        r matches Ok(u) ==> url_with_query(
            authorize_endpoint(),
            authorize_pairs(redirect@, state@, challenge@),
        ) == Some(u@),
{
    let mut pairs: Vec<(String, String)> = Vec::new();
    pairs.push(pair("client_id", CLIENT_ID));
    pairs.push(pair("response_type", "code"));
    pairs.push(pair("redirect_uri", redirect));
    pairs.push(pair("response_mode", "query"));
    pairs.push(pair("scope", "XboxLive.signin offline_access"));
    pairs.push(pair("state", state));
    pairs.push(pair("code_challenge", challenge));
    pairs.push(pair("code_challenge_method", "S256"));
    assert(pair_views(pairs@) =~= authorize_pairs(redirect@, state@, challenge@));
    append_query_pairs("https://login.microsoftonline.com/consumers/oauth2/v2.0/authorize", &pairs)
}

/// What `url::Url::parse` followed by `query_pairs` gives: `None` when the
/// text is not an absolute URL, else the pairs of its query, decoded as
/// form-urlencoded, in order.
pub uninterp spec fn url_query(text: Seq<char>) -> Option<Seq<(Seq<char>, Seq<char>)>>;

/// Calls `url::Url::parse` and collects `query_pairs` into owned pairs;
/// the result is `url_query`. The text of a parse error is left unsaid.
#[verifier::external_body]
fn parse_query_pairs(text: &str) -> (r: Result<Vec<(String, String)>, String>)
    ensures
        r is Ok <==> url_query(text@) is Some,
        r matches Ok(v) ==> url_query(text@) == Some(pair_views(v@)),
{
    let url = url::Url::parse(text).map_err(|e| e.to_string())?;
    Ok(url.query_pairs().into_owned().collect())
}

/// The value of a query parameter as a map built from the pairs in order
/// holds it: the last pair with the key wins.
pub open spec fn query_param(pairs: Seq<(Seq<char>, Seq<char>)>, key: Seq<char>) -> Option<
    Seq<char>,
>
    decreases pairs.len(),
{
    if pairs.len() == 0 {
        None
    } else if pairs.last().0 == key {
        Some(pairs.last().1)
    } else {
        query_param(pairs.drop_last(), key)
    }
}

/// The value of a query parameter; the last pair with the key wins.
pub fn query_param_value(pairs: &Vec<(String, String)>, key: &str) -> (r: Option<String>)
    ensures
        opt_string_view(r) == query_param(pair_views(pairs@), key@),
{
    let ghost all = pair_views(pairs@);
    let mut i: usize = pairs.len();
    assert(all.take(i as int) =~= all);
    while i > 0
        invariant
            i <= pairs.len(),
            all == pair_views(pairs@),
            query_param(all, key@) == query_param(all.take(i as int), key@),
        decreases i,
    {
        let ghost part = all.take(i as int);
        assert(part.drop_last() =~= all.take(i - 1));
        if str_equal(pairs[i - 1].0.as_str(), key) {
            return Some(pairs[i - 1].1.clone());
        }
        i -= 1;
    }
    None
}

pub open spec fn opt_string_view(o: Option<String>) -> Option<Seq<char>> {
    match o {
        Some(s) => Some(s@),
        None => None,
    }
}

pub open spec fn result_view(r: Result<String, String>) -> Result<Seq<char>, Seq<char>> {
    match r {
        Ok(s) => Ok(s@),
        Err(e) => Err(e@),
    }
}

/// What the redirect's query decides: the state must be the one sent, then
/// the code is taken, or else the error description, or a default message.
pub open spec fn callback_outcome(pairs: Seq<(Seq<char>, Seq<char>)>, expected_state: Seq<char>) -> Result<
    Seq<char>,
    Seq<char>,
> {
    if query_param(pairs, "state"@) != Some(expected_state) {
        Err("El estado OAuth no coincide"@)
    } else {
        match query_param(pairs, "code"@) {
            Some(code) => Ok(code),
            None => Err(
                match query_param(pairs, "error_description"@) {
                    Some(d) => d,
                    None => "Microsoft no devolvió un código"@,
                },
            ),
        }
    }
}

/// A redirect yields a code only when it carries back the state that was
/// sent, and then it yields the code it carries; any other state is
/// refused, whatever else the query holds.
pub proof fn callback_requires_its_state(
    pairs: Seq<(Seq<char>, Seq<char>)>,
    expected_state: Seq<char>,
)
    ensures
        callback_outcome(pairs, expected_state) is Ok <==> (query_param(pairs, "state"@) == Some(
            expected_state,
        ) && query_param(pairs, "code"@) is Some),
        callback_outcome(pairs, expected_state) matches Ok(c) ==> query_param(pairs, "code"@)
            == Some(c),
        query_param(pairs, "state"@) != Some(expected_state) ==> callback_outcome(
            pairs,
            expected_state,
        ) == Err::<Seq<char>, Seq<char>>("El estado OAuth no coincide"@),
{
}

/// The authorization code carried by the redirect's query.
pub fn callback_code(pairs: &Vec<(String, String)>, expected_state: &str) -> (r: Result<
    String,
    String,
>)
    ensures
        result_view(r) == callback_outcome(pair_views(pairs@), expected_state@),
{
    let state = query_param_value(pairs, "state");
    let matches = match &state {
        Some(s) => str_equal(s.as_str(), expected_state),
        None => false,
    };
    if !matches {
        return Err(to_string("El estado OAuth no coincide"));
    }
    match query_param_value(pairs, "code") {
        Some(code) => Ok(code),
        None => match query_param_value(pairs, "error_description") {
            Some(d) => Err(d),
            None => Err(to_string("Microsoft no devolvió un código")),
        },
    }
}

/// The path of an HTTP request: the second word of its first line.
pub open spec fn request_path(request: Seq<char>) -> Option<Seq<char>> {
    if lines(request).len() == 0 {
        None
    } else if whitespace_tokens(lines(request)[0]).len() < 2 {
        None
    } else {
        Some(whitespace_tokens(lines(request)[0])[1])
    }
}

/// The path of an HTTP request.
pub fn request_path_of(request: &str) -> (r: Option<String>)
    ensures
        opt_string_view(r) == request_path(request@),
{
    let all = split_lines(&chars_of(request));
    if all.len() == 0 {
        return None;
    }
    let words = split_whitespace_str(all[0].as_str());
    if words.len() < 2 {
        None
    } else {
        Some(words[1].clone())
    }
}

/// The authorization code from the redirect request that the local
/// listener received.
pub fn oauth_callback_code(request: &str, expected_state: &str) -> (r: Result<String, String>)
    ensures
        match request_path(request@) {
            None => r matches Err(e) && e@ == "Respuesta OAuth no válida"@,
            Some(path) => match url_query("http://localhost"@ + path) {
                None => r is Err,
                Some(pairs) => result_view(r) == callback_outcome(pairs, expected_state@),
            },
        },
{
    let path = match request_path_of(request) {
        Some(p) => p,
        None => return Err(to_string("Respuesta OAuth no válida")),
    };
    let address = concat2("http://localhost", path.as_str());
    let pairs = parse_query_pairs(address.as_str())?;
    callback_code(&pairs, expected_state)
}

/// The form that trades the authorization code for a Microsoft token.
pub fn token_request_form(code: &str, redirect: &str, verifier: &str) -> (r: Vec<(String, String)>)
    ensures
        pair_views(r@) == seq![
            ("client_id"@, CLIENT_ID@),
            ("grant_type"@, "authorization_code"@),
            ("code"@, code@),
            ("redirect_uri"@, redirect@),
            ("code_verifier"@, verifier@),
        ],
{
    let mut r: Vec<(String, String)> = Vec::new();
    r.push(pair("client_id", CLIENT_ID));
    r.push(pair("grant_type", "authorization_code"));
    r.push(pair("code", code));
    r.push(pair("redirect_uri", redirect));
    r.push(pair("code_verifier", verifier));
    assert(pair_views(r@) =~= seq![
        ("client_id"@, CLIENT_ID@),
        ("grant_type"@, "authorization_code"@),
        ("code"@, code@),
        ("redirect_uri"@, redirect@),
        ("code_verifier"@, verifier@),
    ]);
    r
}

// ---------------------------------------------------------------------------
// Xbox Live and Minecraft services
// ---------------------------------------------------------------------------

/// A service that takes part in signing in.
#[derive(Clone, Copy, Debug, PartialEq, Eq, Structural)]
pub enum SignInService {
    Microsoft,
    XboxLive,
    Xsts,
    Minecraft,
}

/// The message prefix for a service that refused a request.
pub open spec fn rejection_prefix(service: SignInService) -> Seq<char> {
    match service {
        SignInService::Microsoft => "Microsoft rechazó el token: "@,
        SignInService::XboxLive => "Xbox Live rechazó la sesión: "@,
        SignInService::Xsts => "XSTS rechazó la cuenta: "@,
        SignInService::Minecraft => "Minecraft rechazó la sesión: "@,
    }
}

/// The message for a refused request, with the body the service sent.
pub fn rejection_message(service: SignInService, body: &str) -> (r: String)
    ensures
        r@ == rejection_prefix(service) + body@,
{
    let prefix = match service {
        SignInService::Microsoft => "Microsoft rechazó el token: ",
        SignInService::XboxLive => "Xbox Live rechazó la sesión: ",
        SignInService::Xsts => "XSTS rechazó la cuenta: ",
        SignInService::Minecraft => "Minecraft rechazó la sesión: ",
    };
    concat2(prefix, body)
}

/// The ticket that presents a Microsoft token to Xbox Live.
pub fn rps_ticket(microsoft_token: &str) -> (r: String)
    ensures
        r@ == "d="@ + microsoft_token@,
{
    concat2("d=", microsoft_token)
}

/// The token and user hash in Xbox Live's answer, both required.
pub fn xbox_user_tokens(token: Option<String>, user_hash: Option<String>) -> (r: Result<
    (String, String),
    String,
>)
    ensures
        token is None ==> (r matches Err(e) && e@ == "Xbox Live no devolvió un token"@),
        token is Some && user_hash is None ==> (r matches Err(e) && e@
            == "Xbox Live no devolvió el usuario"@),
        token matches Some(t) ==> (user_hash matches Some(h) ==> (r matches Ok(p) && p.0@ == t@
            && p.1@ == h@)),
{
    match token {
        None => Err(to_string("Xbox Live no devolvió un token")),
        Some(t) => match user_hash {
            None => Err(to_string("Xbox Live no devolvió el usuario")),
            Some(h) => Ok((t, h)),
        },
    }
}

/// The token in the XSTS answer, required.
pub fn xsts_token(token: Option<String>) -> (r: Result<String, String>)
    ensures
        token is None ==> (r matches Err(e) && e@ == "XSTS no devolvió un token"@),
        token matches Some(t) ==> (r matches Ok(s) && s@ == t@),
{
    match token {
        None => Err(to_string("XSTS no devolvió un token")),
        Some(t) => Ok(t),
    }
}

/// The identity that trades the XSTS token for a Minecraft token.
pub fn xbox_identity(user_hash: &str, xsts: &str) -> (r: String)
    ensures
        r@ == "XBL3.0 x="@ + user_hash@ + ";"@ + xsts@,
{
    let mut r = concat2("XBL3.0 x=", user_hash);
    push_str(&mut r, ";");
    push_str(&mut r, xsts);
    r
}

/// The ownership check: the store must answer, and list at least one item.
pub fn ownership_check(success: bool, item_count: Option<usize>) -> (r: Result<(), String>)
    ensures
        !success ==> (r matches Err(e) && e@ == "No se pudo verificar la propiedad de Minecraft"@),
        success && (item_count is None || item_count == Some(0usize)) ==> (r matches Err(e) && e@
            == "Esta cuenta no posee Minecraft Java Edition"@),
        r is Ok <==> success && (item_count matches Some(n) && n > 0),
{
    if !success {
        return Err(to_string("No se pudo verificar la propiedad de Minecraft"));
    }
    match item_count {
        Some(n) if n > 0 => Ok(()),
        _ => Err(to_string("Esta cuenta no posee Minecraft Java Edition")),
    }
}

/// The profile check: an account without a Java profile cannot play.
pub fn profile_check(success: bool) -> (r: Result<(), String>)
    ensures
        r is Ok <==> success,
        r matches Err(e) ==> e@ == "La cuenta no tiene un perfil de Minecraft Java"@,
{
    if success {
        Ok(())
    } else {
        Err(to_string("La cuenta no tiene un perfil de Minecraft Java"))
    }
}

} // verus!
