use aureus_launcher::auth::MinecraftSession;
use aureus_launcher::auth::{
    authorization_url, callback_code, deactivate_accounts, default_minecraft_token_lifetime,
    logout_message, new_login_secrets, signout_credential_entries, oauth_callback_code, ownership_check, pkce_challenge,
    profile_check, query_param_value, record_active_account, redirect_uri, require_session,
    rejection_message, remaining_session_lifetime, request_path_of, rps_ticket,
    session_expiry, session_is_current, token_request_form, xbox_identity, xbox_user_tokens,
    xsts_token, SignInService, StoredAccountSummary, CLIENT_ID,
};

fn account(name: &str, uuid: &str, active: bool) -> StoredAccountSummary {
    StoredAccountSummary { username: name.to_string(), uuid: uuid.to_string(), active }
}

fn pairs(items: &[(&str, &str)]) -> Vec<(String, String)> {
    items.iter().map(|(a, b)| (a.to_string(), b.to_string())).collect()
}

#[test]
fn recording_a_known_account_renames_it_and_makes_it_the_only_active() {
    let accounts = vec![account("Alex", "u1", true), account("Steve", "u2", false)];
    let r = record_active_account(accounts, "Steve2", "u2");
    assert_eq!(r.len(), 2);
    assert_eq!((r[0].username.as_str(), r[0].uuid.as_str(), r[0].active), ("Alex", "u1", false));
    assert_eq!((r[1].username.as_str(), r[1].uuid.as_str(), r[1].active), ("Steve2", "u2", true));
}

#[test]
fn recording_a_new_account_appends_it_active() {
    let accounts = vec![account("Alex", "u1", true)];
    let r = record_active_account(accounts, "Noor", "u9");
    assert_eq!(r.len(), 2);
    assert!(!r[0].active);
    assert_eq!((r[1].username.as_str(), r[1].uuid.as_str(), r[1].active), ("Noor", "u9", true));
    assert_eq!(r.iter().filter(|a| a.active).count(), 1);
}

#[test]
fn recording_updates_only_the_first_account_with_the_uuid() {
    let accounts = vec![account("A", "same", false), account("B", "same", true)];
    let r = record_active_account(accounts, "C", "same");
    assert_eq!((r[0].username.as_str(), r[0].active), ("C", true));
    assert_eq!((r[1].username.as_str(), r[1].active), ("B", false));
}

#[test]
fn signing_out_deactivates_every_account() {
    let accounts = vec![account("A", "1", true), account("B", "2", false)];
    let r = deactivate_accounts(accounts);
    assert_eq!(r.len(), 2);
    assert!(r.iter().all(|a| !a.active));
    assert_eq!(r[1].username, "B");
    assert_eq!(
        logout_message(),
        "Sesión cerrada; las otras cuentas permanecen guardadas de forma segura"
    );
}

#[test]
fn session_lifetimes() {
    assert_eq!(default_minecraft_token_lifetime(), 86_400);
    assert_eq!(session_expiry(1_000, 86_400), 87_340);
    assert_eq!(session_expiry(1_000, 30), 1_000);
    assert_eq!(session_expiry(1_000, 60), 1_000);
    assert!(session_is_current(101, 100));
    assert!(!session_is_current(100, 100));
    assert_eq!(remaining_session_lifetime(150, 100), Ok(50));
    assert_eq!(
        remaining_session_lifetime(100, 100),
        Err("La sesión expiró; vuelve a iniciar con Microsoft".to_string())
    );
}

#[test]
fn pkce_challenge_is_base64url_of_sha256() {
    assert_eq!(
        pkce_challenge("dBjftJeZ4CVP-mJ0-ZjKl0kEP8CvVoqPdIe4jTtX4Ws"),
        "REb8ECvzs-Q-5ezxjNPBj04_YGrUmRAOqOk1v794IB4"
    );
}

#[test]
fn login_secrets_have_the_promised_shape() {
    let s = new_login_secrets();
    assert_eq!(s.verifier.chars().count(), 64);
    assert_eq!(s.state.chars().count(), 32);
    assert!(s.verifier.chars().all(|c| c.is_ascii_alphanumeric()));
    assert!(s.state.chars().all(|c| c.is_ascii_alphanumeric()));
    assert_eq!(s.challenge, pkce_challenge(&s.verifier));
}

#[test]
fn redirect_uri_names_the_port() {
    assert_eq!(redirect_uri(53121), "http://localhost:53121");
}

#[test]
fn authorization_url_carries_the_encoded_query() {
    let u = authorization_url("http://localhost:8080", "st4te", "ch-al_lenge").unwrap();
    assert_eq!(
        u,
        format!(
            "https://login.microsoftonline.com/consumers/oauth2/v2.0/authorize?client_id={}\
             &response_type=code&redirect_uri=http%3A%2F%2Flocalhost%3A8080&response_mode=query\
             &scope=XboxLive.signin+offline_access&state=st4te&code_challenge=ch-al_lenge\
             &code_challenge_method=S256",
            CLIENT_ID
        )
    );
}

#[test]
fn callback_with_matching_state_gives_the_code() {
    let request = "GET /?code=M.C123&state=abc HTTP/1.1\r\nHost: localhost\r\n\r\n";
    assert_eq!(oauth_callback_code(request, "abc"), Ok("M.C123".to_string()));
}

#[test]
fn callback_decodes_the_query() {
    let request = "GET /?state=a%20b&code=x%2By HTTP/1.1\r\n";
    assert_eq!(oauth_callback_code(request, "a b"), Ok("x+y".to_string()));
}

#[test]
fn callback_with_another_state_is_refused() {
    let request = "GET /?code=M.C123&state=zzz HTTP/1.1\r\n";
    assert_eq!(
        oauth_callback_code(request, "abc"),
        Err("El estado OAuth no coincide".to_string())
    );
}

#[test]
fn callback_error_description_is_reported() {
    let request = "GET /?state=abc&error=access_denied&error_description=Cancelado HTTP/1.1\r\n";
    assert_eq!(oauth_callback_code(request, "abc"), Err("Cancelado".to_string()));
    let request = "GET /?state=abc HTTP/1.1\r\n";
    assert_eq!(
        oauth_callback_code(request, "abc"),
        Err("Microsoft no devolvió un código".to_string())
    );
}

#[test]
fn callback_without_a_path_is_invalid() {
    assert_eq!(oauth_callback_code("GET", "abc"), Err("Respuesta OAuth no válida".to_string()));
    assert_eq!(oauth_callback_code("", "abc"), Err("Respuesta OAuth no válida".to_string()));
    assert_eq!(request_path_of("GET /x?y=1 HTTP/1.1\r\nA: b"), Some("/x?y=1".to_string()));
}

#[test]
fn the_last_duplicate_parameter_wins() {
    let p = pairs(&[("state", "old"), ("code", "c1"), ("state", "new"), ("code", "c2")]);
    assert_eq!(query_param_value(&p, "state"), Some("new".to_string()));
    assert_eq!(query_param_value(&p, "missing"), None);
    assert_eq!(callback_code(&p, "new"), Ok("c2".to_string()));
    assert_eq!(callback_code(&p, "old"), Err("El estado OAuth no coincide".to_string()));
}

#[test]
fn token_form_lists_the_exchange_fields() {
    let f = token_request_form("code1", "http://localhost:1", "ver");
    assert_eq!(
        f,
        pairs(&[
            ("client_id", CLIENT_ID),
            ("grant_type", "authorization_code"),
            ("code", "code1"),
            ("redirect_uri", "http://localhost:1"),
            ("code_verifier", "ver"),
        ])
    );
}

#[test]
fn xbox_and_minecraft_answers() {
    assert_eq!(rps_ticket("tok"), "d=tok");
    assert_eq!(xbox_identity("uhs1", "xsts1"), "XBL3.0 x=uhs1;xsts1");
    assert_eq!(
        xbox_user_tokens(Some("t".into()), Some("h".into())),
        Ok(("t".to_string(), "h".to_string()))
    );
    assert_eq!(
        xbox_user_tokens(None, Some("h".into())),
        Err("Xbox Live no devolvió un token".to_string())
    );
    assert_eq!(
        xbox_user_tokens(Some("t".into()), None),
        Err("Xbox Live no devolvió el usuario".to_string())
    );
    assert_eq!(xsts_token(Some("x".into())), Ok("x".to_string()));
    assert_eq!(xsts_token(None), Err("XSTS no devolvió un token".to_string()));
}

#[test]
fn ownership_and_profile_checks() {
    assert_eq!(ownership_check(true, Some(2)), Ok(()));
    assert_eq!(
        ownership_check(false, Some(2)),
        Err("No se pudo verificar la propiedad de Minecraft".to_string())
    );
    assert_eq!(
        ownership_check(true, Some(0)),
        Err("Esta cuenta no posee Minecraft Java Edition".to_string())
    );
    assert_eq!(
        ownership_check(true, None),
        Err("Esta cuenta no posee Minecraft Java Edition".to_string())
    );
    assert_eq!(profile_check(true), Ok(()));
    assert_eq!(
        profile_check(false),
        Err("La cuenta no tiene un perfil de Minecraft Java".to_string())
    );
}

#[test]
fn rejection_messages_name_the_service() {
    assert_eq!(rejection_message(SignInService::Microsoft, "x"), "Microsoft rechazó el token: x");
    assert_eq!(rejection_message(SignInService::XboxLive, "y"), "Xbox Live rechazó la sesión: y");
    assert_eq!(rejection_message(SignInService::Xsts, ""), "XSTS rechazó la cuenta: ");
    assert_eq!(rejection_message(SignInService::Minecraft, "z"), "Minecraft rechazó la sesión: z");
}

#[test]
fn launching_needs_a_session() {
    let s = MinecraftSession { username: "A".into(), uuid: "u".into(), access_token: "t".into() };
    assert_eq!(require_session(Some(s)).unwrap().username, "A");
    assert_eq!(
        require_session(None).unwrap_err(),
        "Inicia sesión con Microsoft desde Cuenta antes de jugar"
    );
}

#[test]
fn signing_out_deletes_the_session_credentials() {
    let accounts = record_active_account(vec![account("Old", "u1", true), account("B", "u2", false)], "A", "u3");
    let entries = signout_credential_entries(None, &accounts);
    assert_eq!(
        entries,
        vec![
            ("Aureus Launcher".to_string(), "minecraft-session".to_string()),
            ("Aureus Launcher Account".to_string(), "u3".to_string()),
        ]
    );
    let with_session = signout_credential_entries(Some("u9"), &vec![account("B", "u2", false)]);
    assert_eq!(
        with_session,
        vec![
            ("Aureus Launcher".to_string(), "minecraft-session".to_string()),
            ("Aureus Launcher Account".to_string(), "u9".to_string()),
        ]
    );
}
