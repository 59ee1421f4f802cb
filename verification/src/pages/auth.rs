//! The sign-in page: which ways to sign in or out it offers, and the links
//! they lead to.
use vstd::prelude::*;

use crate::session::{Provider, Providers};
use crate::text::{concat_strs, lemma_concatenated_two, strs_view};

verus! {

/// The state of the sign-in page.
pub struct Model {
    /// The provider the client is signed in with, if any.
    pub auth_provider: Option<Provider>,
    /// The providers the server offers, once it has answered.
    pub providers: Option<Providers>,
    /// The public document identifier typed so far.
    pub public_doc_id: String,
}

/// The page as it opens, for a client signed in with `auth_provider`.
pub fn init(auth_provider: Option<Provider>) -> (m: Model)
    ensures
        m.auth_provider == auth_provider,
        m.providers is None,
        m.public_doc_id@.len() == 0,
{
    Model { auth_provider, providers: None, public_doc_id: String::new() }
}

/// A message of the sign-in page.
pub enum Msg {
    /// The server said which providers it offers.
    FetchedProviders(Providers),
    /// The public document identifier input changed.
    PublicDocIdChanged(String),
}

/// What the page offers.
#[derive(Clone, Copy, Debug, PartialEq, Eq, Structural)]
pub enum Offer {
    /// The ways to sign in that the server offers.
    SignIn { google: bool, public: bool },
    /// Signing out of the provider the client is signed in with.
    SignOut(Provider),
    /// The server's providers are not known: only the public document form.
    PublicOnly,
}

/// What a page in a state offers.
pub open spec fn offer_of(auth_provider: Option<Provider>, providers: Option<Providers>) -> Offer {
    match providers {
        Some(p) => match auth_provider {
            None => Offer::SignIn { google: p.google.enabled, public: p.public.enabled },
            Some(a) => Offer::SignOut(a),
        },
        None => Offer::PublicOnly,
    }
}

impl Model {
    /// Handles a message.
    pub fn update(&mut self, msg: Msg)
        ensures
            final(self).auth_provider == old(self).auth_provider,
            match msg {
                Msg::FetchedProviders(p) => final(self).providers == Some(p) && final(self).public_doc_id
                    == old(self).public_doc_id,
                Msg::PublicDocIdChanged(s) => final(self).providers == old(self).providers
                    && final(self).public_doc_id == s,
            },
    {
        match msg {
            Msg::FetchedProviders(p) => self.providers = Some(p),
            Msg::PublicDocIdChanged(s) => self.public_doc_id = s,
        }
    }

    /// What the page offers.
    pub fn offer(&self) -> (r: Offer)
        ensures
            r == offer_of(self.auth_provider, self.providers),
    {
        match self.providers {
            Some(p) => match self.auth_provider {
                None => Offer::SignIn { google: p.google.enabled, public: p.public.enabled },
                Some(a) => Offer::SignOut(a),
            },
            None => Offer::PublicOnly,
        }
    }

    /// The link that opens the public document typed so far.
    pub fn public_sign_in_link(&self) -> (r: String)
        ensures
            r@ == public_sign_in_path() + self.public_doc_id@,
    {
        let parts = vec!["/auth/public/sign_in?doc_id=", self.public_doc_id.as_str()];
        proof {
            reveal_strlit("/auth/public/sign_in?doc_id=");
            assert("/auth/public/sign_in?doc_id="@ =~= public_sign_in_path());
            assert(strs_view(parts@) =~= seq!["/auth/public/sign_in?doc_id="@, self.public_doc_id@]);
            lemma_concatenated_two("/auth/public/sign_in?doc_id="@, self.public_doc_id@);
        }
        concat_strs(&parts)
    }
}

/// The start of the link that opens a public document.
pub open spec fn public_sign_in_path() -> Seq<char> {
    seq![
        '/', 'a', 'u', 't', 'h', '/', 'p', 'u', 'b', 'l', 'i', 'c', '/', 's', 'i', 'g', 'n', '_', 'i',
        'n', '?', 'd', 'o', 'c', '_', 'i', 'd', '='
    ]
}

/// The link that starts signing in with Google.
pub fn google_sign_in_link() -> (r: &'static str)
    ensures
        r@ == seq![
            '/', 'a', 'u', 't', 'h', '/', 'g', 'o', 'o', 'g', 'l', 'e', '/', 's', 'i', 'g', 'n', '_', 'i', 'n'
        ],
{
    proof {
        reveal_strlit("/auth/google/sign_in");
    }
    "/auth/google/sign_in"
}

/// The link that signs out of a provider.
pub open spec fn sign_out_path(p: Provider) -> Seq<char> {
    match p {
        Provider::Public => seq![
            '/', 'a', 'u', 't', 'h', '/', 'p', 'u', 'b', 'l', 'i', 'c', '/', 's', 'i', 'g', 'n', '_',
            'o', 'u', 't'
        ],
        Provider::Google => seq![
            '/', 'a', 'u', 't', 'h', '/', 'g', 'o', 'o', 'g', 'l', 'e', '/', 's', 'i', 'g', 'n', '_',
            'o', 'u', 't'
        ],
    }
}

/// The link that signs out of a provider.
pub fn sign_out_link(p: Provider) -> (r: &'static str)
    ensures
        r@ == sign_out_path(p),
{
    proof {
        reveal_strlit("/auth/public/sign_out");
        reveal_strlit("/auth/google/sign_out");
        assert("/auth/public/sign_out"@ =~= sign_out_path(Provider::Public));
        assert("/auth/google/sign_out"@ =~= sign_out_path(Provider::Google));
    }
    match p {
        Provider::Public => "/auth/public/sign_out",
        Provider::Google => "/auth/google/sign_out",
    }
}

} // verus!
