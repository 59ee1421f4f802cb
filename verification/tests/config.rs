use tasknet::config::{AuthRequest, DocId, GoogleConfig, PublicConfig};

fn google(scopes: &[&str]) -> GoogleConfig {
    GoogleConfig {
        client_id: "id".to_string(),
        client_secret: "client-secret".to_string(),
        issuer_uri: "https://accounts.google.com".to_string(),
        redirect_uri: "http://localhost/auth/google/callback".to_string(),
        scopes: scopes.iter().map(|s| s.to_string()).collect(),
    }
}

#[test]
fn scope_joins_scopes_with_spaces() {
    assert_eq!(google(&["openid", "email", "profile"]).scope(), "openid email profile");
    assert_eq!(google(&["openid"]).scope(), "openid");
    assert_eq!(google(&[]).scope(), "");
}

#[test]
fn plain_request_types_hold_their_values() {
    let a = AuthRequest { code: "c0de".to_string() };
    assert_eq!(a.code, "c0de");
    let d = DocId { doc_id: "d".to_string() };
    assert_eq!(d.doc_id, "d");
    let p = PublicConfig {
        client_id: "i".to_string(),
        client_secret: "s".to_string(),
        issuer_uri: "u".to_string(),
        redirect_uri: "r".to_string(),
        scopes: vec![],
    };
    assert!(p.scopes.is_empty());
}
