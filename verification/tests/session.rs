use tasknet::config::{GoogleConfig, ServerConfig};
use tasknet::session::{
    authenticate, cookies, clear_session_cookies, needs_lookup, providers, public_document, public_sign_in,
    rejection_for, sign_in_cookies, BadDocumentId, Provider, Rejection, SessionLookup,
    SessionRefusal, UserIdFromSession, UserSessionData,
};
use tasknet::task::Id;

#[test]
fn doc_id_of_each_kind_of_session() {
    let g = UserSessionData::Google { google_id: "g-123".to_string() };
    assert_eq!(g.doc_id(), "g-123");
    let p = UserSessionData::Public { doc_id: "d-456".to_string() };
    assert_eq!(p.doc_id(), "d-456");
}

#[test]
fn providers_offer_google_only_when_configured() {
    let with = providers(true);
    assert!(with.public.enabled);
    assert!(with.google.enabled);
    let without = providers(false);
    assert!(without.public.enabled);
    assert!(!without.google.enabled);
}

#[test]
fn providers_follow_the_server_config() {
    let mut config = ServerConfig {
        port: 8080,
        serve_dir: "dist".to_string(),
        documents_dir: "documents".to_string(),
        google: None,
    };
    assert!(!providers(config.google_configured()).google.enabled);
    config.google = Some(GoogleConfig {
        client_id: "id".to_string(),
        client_secret: "client-secret".to_string(),
        issuer_uri: "https://accounts.google.com".to_string(),
        redirect_uri: "http://localhost/auth/google/callback".to_string(),
        scopes: vec!["openid".to_string(), "email".to_string()],
    });
    assert!(providers(config.google_configured()).google.enabled);
}

#[test]
fn websocket_upgrades_are_refused_others_sent_home() {
    assert_eq!(rejection_for(Some("websocket")), Rejection::Unauthorized);
    assert_eq!(rejection_for(Some("h2c")), Rejection::RedirectHome);
    assert_eq!(rejection_for(Some("WebSocket")), Rejection::RedirectHome);
    assert_eq!(rejection_for(None), Rejection::RedirectHome);
}

#[test]
fn empty_session_cookie_is_not_looked_up() {
    assert!(!needs_lookup(""));
    assert!(needs_lookup("abc"));
}

#[test]
fn authenticate_each_lookup_outcome() {
    let missing = authenticate("k".to_string(), SessionLookup::Missing, Rejection::RedirectHome);
    assert_eq!(
        missing,
        Err(SessionRefusal { answer: Rejection::RedirectHome, clear_cookies: true })
    );
    let empty = authenticate("k".to_string(), SessionLookup::NoUserData, Rejection::Unauthorized);
    assert_eq!(
        empty,
        Err(SessionRefusal { answer: Rejection::Unauthorized, clear_cookies: false })
    );
    let found = authenticate(
        "k".to_string(),
        SessionLookup::Found(UserSessionData::Public { doc_id: "d".to_string() }),
        Rejection::RedirectHome,
    );
    assert_eq!(
        found,
        Ok(UserIdFromSession {
            session_cookie: "k".to_string(),
            session_data: UserSessionData::Public { doc_id: "d".to_string() },
        })
    );
}

#[test]
fn cleared_cookies_are_empty_and_site_wide() {
    assert_eq!(
        clear_session_cookies(),
        vec!["session=; Path=/".to_string(), "auth-provider=; Path=/".to_string()]
    );
}

#[test]
fn sign_in_cookies_for_google_and_public() {
    assert_eq!(
        sign_in_cookies("abc", "google", None),
        vec![
            "session=abc; SameSite=Lax; Path=/".to_string(),
            "auth-provider=google; Path=/".to_string(),
        ]
    );
    assert_eq!(
        sign_in_cookies("xyz", "public", Some("d-1")),
        vec![
            "session=xyz; SameSite=Lax; Path=/".to_string(),
            "auth-provider=public; Path=/".to_string(),
            "document-id=d-1; Path=/".to_string(),
        ]
    );
}

#[test]
fn public_document_choice() {
    assert_eq!(public_document("", 42), Ok(42));
    let id = "67e55044-10b1-426f-9247-bb680e5fe0c8";
    assert_eq!(public_document(id, 42), Ok(Id::from_str(id).unwrap().0));
    assert_eq!(public_document("not-a-uuid", 42), Err(BadDocumentId));
}

#[test]
fn public_sign_in_records_the_document() {
    let id = "67e55044-10b1-426f-9247-bb680e5fe0c8";
    assert_eq!(
        public_sign_in(id),
        Ok(UserSessionData::Public { doc_id: id.to_string() })
    );
    assert_eq!(public_sign_in("nope"), Err(BadDocumentId));
    match public_sign_in("") {
        Ok(UserSessionData::Public { doc_id }) => {
            let v = Id::from_str(&doc_id).unwrap().0;
            assert_eq!((v >> 76) & 0xf, 4);
            assert_eq!((v >> 62) & 0x3, 2);
            assert_ne!(public_sign_in(""), Ok(UserSessionData::Public { doc_id }));
        },
        other => panic!("unexpected {:?}", other),
    }
}

#[test]
fn provider_from_cookies() {
    assert_eq!(Provider::from_cookies(true, Some("public")), Some(Provider::Public));
    assert_eq!(Provider::from_cookies(true, Some("google")), Some(Provider::Google));
    assert_eq!(Provider::from_cookies(true, Some("other")), None);
    assert_eq!(Provider::from_cookies(true, None), None);
    assert_eq!(Provider::from_cookies(false, Some("public")), None);
}

#[test]
fn cookie_string_parsing() {
    assert!(cookies("").is_none());
    let jar = cookies("session=abc; auth-provider=public").unwrap();
    assert_eq!(jar.get("session").map(|c| c.value()), Some("abc"));
    assert_eq!(jar.get("auth-provider").map(|c| c.value()), Some("public"));
    let jar = cookies("a=1;a=2").unwrap();
    assert_eq!(jar.get("a").map(|c| c.value()), Some("2"));
    assert!(cookies("a=1; novalue").is_none());
    let jar = cookies("name=hello%20world").unwrap();
    assert_eq!(jar.get("name").map(|c| c.value()), Some("hello world"));
}

#[test]
fn provider_from_the_cookie_string() {
    assert_eq!(Provider::load_from_session("session=abc; auth-provider=public"), Some(Provider::Public));
    assert_eq!(Provider::load_from_session("auth-provider=google; session=x"), Some(Provider::Google));
    assert_eq!(Provider::load_from_session("auth-provider=google"), None);
    assert_eq!(Provider::load_from_session("session=abc"), None);
    assert_eq!(Provider::load_from_session("session=abc; auth-provider=other"), None);
    assert_eq!(Provider::load_from_session(""), None);
}

#[test]
fn provider_logos() {
    assert_eq!(Provider::Public.logo(), None);
    assert_eq!(Provider::Google.logo(), Some("/assets/btn_google_light_normal_ios.svg"));
}

#[test]
fn session_cookie_from_the_header() {
    assert_eq!(tasknet::session::session_cookie(None), "");
    assert_eq!(tasknet::session::session_cookie(Some("a=1; session=abc; session=def")), "abc");
    assert_eq!(tasknet::session::session_cookie(Some(" ; =x; session = q ;")), "q");
    assert_eq!(tasknet::session::session_cookie(Some("other=1")), "");
    assert_eq!(tasknet::session::session_cookie(Some("session=a%20b")), "a%20b");
}
