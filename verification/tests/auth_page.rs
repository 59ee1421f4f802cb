use tasknet::pages::auth::{self, google_sign_in_link, sign_out_link, Offer};
use tasknet::session::{providers, Provider};

#[test]
fn sign_in_page_offers() {
    let mut m = auth::init(None);
    assert_eq!(m.offer(), Offer::PublicOnly);
    m.update(auth::Msg::FetchedProviders(providers(false)));
    assert_eq!(m.offer(), Offer::SignIn { google: false, public: true });
    let mut signed_in = auth::init(Some(Provider::Google));
    signed_in.update(auth::Msg::FetchedProviders(providers(true)));
    assert_eq!(signed_in.offer(), Offer::SignOut(Provider::Google));
}

#[test]
fn sign_in_page_links() {
    let mut m = auth::init(None);
    assert_eq!(m.public_sign_in_link(), "/auth/public/sign_in?doc_id=");
    m.update(auth::Msg::PublicDocIdChanged("abc".to_string()));
    assert_eq!(m.public_doc_id, "abc");
    assert_eq!(m.public_sign_in_link(), "/auth/public/sign_in?doc_id=abc");
    assert_eq!(google_sign_in_link(), "/auth/google/sign_in");
    assert_eq!(sign_out_link(Provider::Public), "/auth/public/sign_out");
    assert_eq!(sign_out_link(Provider::Google), "/auth/google/sign_out");
}
