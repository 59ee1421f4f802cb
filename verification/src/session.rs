//! Who is signed in: the providers a user can sign in with, the data a
//! session holds, the cookies the server sets and clears, and the decisions
//! taken on a request's session cookie.
use vstd::prelude::*;

use crate::task::{is_v4_uuid, parse_uuid, parsed_uuid, random_uuid_value, uuid_text, uuid_to_string};
use crate::text::{
    concat_strs, lemma_concatenated_five, lemma_concatenated_four, split, split_on, strings_view,
    strs_view,
};

verus! {

/// Whether a sign-in provider is offered.
#[derive(Clone, Copy, Debug, PartialEq, Eq, Structural)]
pub struct ProviderDefault {
    pub enabled: bool,
}

/// The sign-in providers the server offers.
#[derive(Clone, Copy, Debug, PartialEq, Eq, Structural)]
pub struct Providers {
    pub public: ProviderDefault,
    pub google: ProviderDefault,
}

/// The providers offered: a public document is always available, Google
/// sign-in only when the server is configured for it.
pub fn providers(google_configured: bool) -> (p: Providers)
    ensures
        p.public.enabled,
        p.google.enabled == google_configured,
{
    Providers {
        public: ProviderDefault { enabled: true },
        google: ProviderDefault { enabled: google_configured },
    }
}

/// What a session records about its user.
#[derive(Debug, PartialEq, Eq)]
pub enum UserSessionData {
    Google { google_id: String },
    Public { doc_id: String },
}

impl UserSessionData {
    /// The identifier of the user's document: the Google account identifier,
    /// or the public document's identifier.
    pub fn doc_id(&self) -> (r: &str)
        ensures
            r@ == match self {
                UserSessionData::Google { google_id } => google_id@,
                UserSessionData::Public { doc_id } => doc_id@,
            },
    {
        match self {
            UserSessionData::Google { google_id } => google_id.as_str(),
            UserSessionData::Public { doc_id } => doc_id.as_str(),
        }
    }
}

/// A request's session cookie together with the session's data.
#[derive(Debug, PartialEq, Eq)]
pub struct UserIdFromSession {
    pub session_cookie: String,
    pub session_data: UserSessionData,
}

/// How a request without a valid session is answered.
#[derive(Clone, Copy, Debug, PartialEq, Eq, Structural)]
pub enum Rejection {
    /// `401 Unauthorized`, for websocket upgrades.
    Unauthorized,
    /// A redirect to `/`, for everything else.
    RedirectHome,
}

/// The answer for a request without a valid session: websocket upgrades are
/// refused, other requests are sent home.
pub fn rejection_for(upgrade_header: Option<&str>) -> (r: Rejection)
    ensures
        r == (if upgrade_header matches Some(h) && h@ == seq!['w', 'e', 'b', 's', 'o', 'c', 'k', 'e', 't'] {
            Rejection::Unauthorized
        } else {
            Rejection::RedirectHome
        }),
{
    proof {
        reveal_strlit("websocket");
        assert("websocket"@ =~= seq!['w', 'e', 'b', 's', 'o', 'c', 'k', 'e', 't']);
    }
    match upgrade_header {
        Some(h) => if crate::text::same_text(h, "websocket") {
            Rejection::Unauthorized
        } else {
            Rejection::RedirectHome
        },
        None => Rejection::RedirectHome,
    }
}

/// The outcome of looking a session cookie up in the session store.
pub enum SessionLookup {
    /// No session has this cookie.
    Missing,
    /// The session exists but holds no user data.
    NoUserData,
    /// The session's user data.
    Found(UserSessionData),
}

/// A refused session: how to answer, and whether to clear the client's
/// session cookies.
#[derive(Clone, Copy, Debug, PartialEq, Eq, Structural)]
pub struct SessionRefusal {
    pub answer: Rejection,
    pub clear_cookies: bool,
}

/// Whether a session cookie is worth looking up at all: an empty one is refused.
pub fn needs_lookup(session_cookie: &str) -> (r: bool)
    ensures
        r == (session_cookie@.len() > 0),
{
    !session_cookie.is_empty()
}

/// The user of a request, given its session cookie and what the store holds
/// for it. An unknown session also clears the client's session cookies.
pub fn authenticate(session_cookie: String, lookup: SessionLookup, answer: Rejection) -> (r: Result<
    UserIdFromSession,
    SessionRefusal,
>)
    ensures
        match lookup {
            SessionLookup::Missing => r == Err::<UserIdFromSession, SessionRefusal>(
                SessionRefusal { answer, clear_cookies: true },
            ),
            SessionLookup::NoUserData => r == Err::<UserIdFromSession, SessionRefusal>(
                SessionRefusal { answer, clear_cookies: false },
            ),
            SessionLookup::Found(data) => r == Ok::<UserIdFromSession, SessionRefusal>(
                UserIdFromSession { session_cookie, session_data: data },
            ),
        },
{
    match lookup {
        SessionLookup::Missing => Err(SessionRefusal { answer, clear_cookies: true }),
        SessionLookup::NoUserData => Err(SessionRefusal { answer, clear_cookies: false }),
        SessionLookup::Found(data) => Ok(UserIdFromSession { session_cookie, session_data: data }),
    }
}

/// The name of the cookie that holds the session key.
pub open spec fn session_cookie_name() -> Seq<char> {
    seq!['s', 'e', 's', 's', 'i', 'o', 'n']
}

/// The name of the cookie that records which provider the user signed in with.
pub open spec fn provider_cookie_name() -> Seq<char> {
    seq!['a', 'u', 't', 'h', '-', 'p', 'r', 'o', 'v', 'i', 'd', 'e', 'r']
}

/// The name of the cookie that records the public document's identifier.
pub open spec fn document_cookie_name() -> Seq<char> {
    seq!['d', 'o', 'c', 'u', 'm', 'e', 'n', 't', '-', 'i', 'd']
}

/// The attribute that scopes a cookie to the whole site.
pub open spec fn path_attribute() -> Seq<char> {
    seq![';', ' ', 'P', 'a', 't', 'h', '=', '/']
}

/// The attribute that lets a cookie follow top-level navigation only.
pub open spec fn same_site_attribute() -> Seq<char> {
    seq![';', ' ', 'S', 'a', 'm', 'e', 'S', 'i', 't', 'e', '=', 'L', 'a', 'x']
}

/// The `Set-Cookie` values that clear the session and provider cookies.
pub open spec fn cleared_cookies() -> Seq<Seq<char>> {
    seq![
        session_cookie_name() + seq!['='] + path_attribute(),
        provider_cookie_name() + seq!['='] + path_attribute(),
    ]
}

proof fn lemma_cookie_literals()
    ensures
        "session"@ == session_cookie_name(),
        "auth-provider"@ == provider_cookie_name(),
        "document-id"@ == document_cookie_name(),
        "; Path=/"@ == path_attribute(),
        "; SameSite=Lax"@ == same_site_attribute(),
        "="@ == seq!['='],
{
    reveal_strlit("session");
    reveal_strlit("auth-provider");
    reveal_strlit("document-id");
    reveal_strlit("; Path=/");
    reveal_strlit("; SameSite=Lax");
    reveal_strlit("=");
    assert("session"@ =~= session_cookie_name());
    assert("auth-provider"@ =~= provider_cookie_name());
    assert("document-id"@ =~= document_cookie_name());
    assert("; Path=/"@ =~= path_attribute());
    assert("; SameSite=Lax"@ =~= same_site_attribute());
    assert("="@ =~= seq!['=']);
}

/// `name=value; Path=/`.
fn cookie(name: &str, value: &str) -> (r: String)
    ensures
        r@ == name@ + seq!['='] + value@ + path_attribute(),
{
    proof {
        lemma_cookie_literals();
        lemma_concatenated_four(name@, "="@, value@, "; Path=/"@);
    }
    let parts = vec![name, "=", value, "; Path=/"];
    assert(strs_view(parts@) =~= seq![name@, "="@, value@, "; Path=/"@]);
    concat_strs(&parts)
}

/// The `Set-Cookie` values that clear the session and provider cookies.
pub fn clear_session_cookies() -> (r: Vec<String>)
    ensures
        crate::text::strings_view(r@) == cleared_cookies(),
{
    proof {
        lemma_cookie_literals();
    }
    let mut r: Vec<String> = Vec::new();
    r.push(cookie("session", ""));
    r.push(cookie("auth-provider", ""));
    proof {
        reveal_strlit("");
        assert(""@ =~= Seq::<char>::empty());
        assert(crate::text::strings_view(r@) =~= cleared_cookies());
    }
    r
}

/// The `Set-Cookie` values a successful sign-in sets.
pub open spec fn sign_in_cookie_values(session_key: Seq<char>, provider: Seq<char>, doc_id: Option<
    Seq<char>,
>) -> Seq<Seq<char>> {
    let first = seq![
        session_cookie_name() + seq!['='] + session_key + same_site_attribute() + path_attribute(),
        provider_cookie_name() + seq!['='] + provider + path_attribute(),
    ];
    match doc_id {
        Some(d) => first.push(document_cookie_name() + seq!['='] + d + path_attribute()),
        None => first,
    }
}

/// The `Set-Cookie` values a successful sign-in sets: the session key, the
/// provider and, for a public document, the document's identifier.
pub fn sign_in_cookies(session_key: &str, provider: &str, doc_id: Option<&str>) -> (r: Vec<String>)
    ensures
        crate::text::strings_view(r@) == sign_in_cookie_values(
            session_key@,
            provider@,
            match doc_id {
                Some(d) => Some(d@),
                None => None,
            },
        ),
{
    proof {
        lemma_cookie_literals();
        lemma_concatenated_five(
            "session"@,
            "="@,
            session_key@,
            "; SameSite=Lax"@,
            "; Path=/"@,
        );
    }
    let parts = vec!["session", "=", session_key, "; SameSite=Lax", "; Path=/"];
    assert(strs_view(parts@) =~= seq!["session"@, "="@, session_key@, "; SameSite=Lax"@, "; Path=/"@]);
    let mut r: Vec<String> = Vec::new();
    r.push(concat_strs(&parts));
    r.push(cookie("auth-provider", provider));
    match doc_id {
        Some(d) => r.push(cookie("document-id", d)),
        None => {},
    }
    proof {
        assert(crate::text::strings_view(r@) =~= sign_in_cookie_values(
            session_key@,
            provider@,
            match doc_id {
                Some(d) => Some(d@),
                None => None,
            },
        ));
    }
    r
}

/// A public sign-in asked for a document identifier that is not a UUID.
#[derive(Clone, Copy, Debug, PartialEq, Eq, Structural)]
pub struct BadDocumentId;

/// The public document a sign-in opens, from the `doc_id` query parameter
/// and a freshly generated identifier: an empty parameter opens the fresh
/// document, a UUID opens that document, anything else is refused.
pub fn public_document(query_doc_id: &str, fresh: u128) -> (r: Result<u128, BadDocumentId>)
    ensures
        r == (if query_doc_id@.len() == 0 {
            Ok(fresh)
        } else {
            match parsed_uuid(query_doc_id@) {
                Some(v) => Ok(v),
                None => Err(BadDocumentId),
            }
        }),
{
    if query_doc_id.is_empty() {
        Ok(fresh)
    } else {
        match parse_uuid(query_doc_id) {
            Some(v) => Ok(v),
            None => Err(BadDocumentId),
        }
    }
}

/// Signs in to a public document: picks the document as `public_document`
/// does, with a freshly generated identifier, and returns the session data
/// that records it.
pub fn public_sign_in(query_doc_id: &str) -> (r: Result<UserSessionData, BadDocumentId>)
    ensures
        query_doc_id@.len() > 0 ==> match parsed_uuid(query_doc_id@) {
            Some(v) => (r matches Ok(UserSessionData::Public { doc_id }) && doc_id@ == uuid_text(v)),
            None => r == Err::<UserSessionData, BadDocumentId>(BadDocumentId),
        },
        query_doc_id@.len() == 0 ==> (r matches Ok(UserSessionData::Public { doc_id }) && exists|v: u128|
            is_v4_uuid(v) && doc_id@ == uuid_text(v)),
{
    let fresh = random_uuid_value();
    match public_document(query_doc_id, fresh) {
        Ok(v) => Ok(UserSessionData::Public { doc_id: uuid_to_string(v) }),
        Err(e) => Err(e),
    }
}

/// The way a user signed in to the web client.
#[derive(Clone, Copy, Debug, PartialEq, Eq, Structural)]
pub enum Provider {
    /// A public document that requires no sign in, just an id.
    Public,
    /// Sign in with a Google account to access a private document.
    Google,
}

/// The provider the client is signed in with, from whether it holds a
/// session cookie and the value of its provider cookie: `public` or
/// `google`, and nothing without a session.
pub open spec fn provider_of(have_session: bool, provider_cookie: Option<Seq<char>>) -> Option<Provider> {
    if !have_session {
        None
    } else {
        match provider_cookie {
            Some(p) => if p == seq!['p', 'u', 'b', 'l', 'i', 'c'] {
                Some(Provider::Public)
            } else if p == seq!['g', 'o', 'o', 'g', 'l', 'e'] {
                Some(Provider::Google)
            } else {
                None
            },
            None => None,
        }
    }
}

impl Provider {
    /// The provider the client is signed in with, from whether it holds a
    /// session cookie and the value of its provider cookie.
    pub fn from_cookies(have_session: bool, provider_cookie: Option<&str>) -> (r: Option<Provider>)
        ensures
            r == provider_of(have_session, opt_str_view(provider_cookie)),
    {
        proof {
            reveal_strlit("public");
            reveal_strlit("google");
            assert("public"@ =~= seq!['p', 'u', 'b', 'l', 'i', 'c']);
            assert("google"@ =~= seq!['g', 'o', 'o', 'g', 'l', 'e']);
        }
        if !have_session {
            return None;
        }
        match provider_cookie {
            Some(p) => if crate::text::same_text(p, "public") {
                Some(Provider::Public)
            } else if crate::text::same_text(p, "google") {
                Some(Provider::Google)
            } else {
                None
            },
            None => None,
        }
    }

    /// The image shown beside the provider's name: Google's sign-in button
    /// logo, and none for a public document.
    pub fn logo(&self) -> (r: Option<&'static str>)
        ensures
            match self {
                Provider::Public => r is None,
                Provider::Google => r matches Some(src) && src@ == google_logo(),
            },
    {
        match self {
            Provider::Public => None,
            Provider::Google => {
                proof {
                    reveal_strlit("/assets/btn_google_light_normal_ios.svg");
                    assert("/assets/btn_google_light_normal_ios.svg"@ =~= google_logo());
                }
                Some("/assets/btn_google_light_normal_ios.svg")
            },
        }
    }

    /// The provider the client is signed in with, from the browser's cookie
    /// string: it must hold a session cookie, and the provider cookie names
    /// the provider. A cookie string that does not parse gives none.
    pub fn load_from_session(cookie_string: &str) -> (r: Option<Provider>)
        ensures
            r == (match cookie_jar_of(cookie_string@) {
                Some(m) => provider_of(
                    m.contains_key(session_cookie_name()),
                    if m.contains_key(provider_cookie_name()) {
                        Some(m[provider_cookie_name()])
                    } else {
                        None
                    },
                ),
                None => None,
            }),
    {
        proof {
            lemma_cookie_literals();
        }
        match cookies(cookie_string) {
            Some(jar) => {
                let have_session = jar_get(&jar, "session").is_some();
                match jar_get(&jar, "auth-provider") {
                    Some(p) => Provider::from_cookies(have_session, Some(p.as_str())),
                    None => Provider::from_cookies(have_session, None),
                }
            },
            None => None,
        }
    }
}

/// Where Google's sign-in button logo is served.
pub open spec fn google_logo() -> Seq<char> {
    seq![
        '/', 'a', 's', 's', 'e', 't', 's', '/', 'b', 't', 'n', '_', 'g', 'o', 'o', 'g', 'l', 'e', '_',
        'l', 'i', 'g', 'h', 't', '_', 'n', 'o', 'r', 'm', 'a', 'l', '_', 'i', 'o', 's', '.', 's', 'v',
        'g'
    ]
}

/// The characters of an optional string slice.
pub open spec fn opt_str_view(s: Option<&str>) -> Option<Seq<char>> {
    match s {
        Some(x) => Some(x@),
        None => None,
    }
}

// ------------------------------------------------------------------
//  The browser's cookies
// ------------------------------------------------------------------

#[verifier::external_type_specification]
#[verifier::external_body]
pub struct ExCookieJar(cookie::CookieJar);

/// The cookies a `cookie::CookieJar` holds: each name with its value.
pub uninterp spec fn jar_cookies(jar: cookie::CookieJar) -> Map<Seq<char>, Seq<char>>;

/// What `cookie::Cookie::parse_encoded` reads a text as: the cookie's name
/// and value, percent-decoded, or `None` where it refuses the text.
pub uninterp spec fn parsed_cookie(s: Seq<char>) -> Option<(Seq<char>, Seq<char>)>;

/// What `cookie::Cookie::split_parse` yields for a `Cookie` header: for
/// each non-blank piece between semicolons, the cookie's name and value
/// (not percent-decoded), or `None` where the piece does not parse.
pub uninterp spec fn header_cookies(s: Seq<char>) -> Seq<Option<(Seq<char>, Seq<char>)>>;

/// The name and value of each parsed cookie, as plain text.
pub open spec fn pairs_view(v: Seq<Option<(String, String)>>) -> Seq<Option<(Seq<char>, Seq<char>)>> {
    v.map_values(
        |o: Option<(String, String)>|
            match o {
                Some(p) => Some((p.0@, p.1@)),
                None => None,
            },
    )
}

/// Calls `cookie::Cookie::split_parse` and takes each result's name and
/// value. Claimed: the list is the named function `header_cookies` of the
/// header, `None` standing for a piece the crate refuses.
#[verifier::external_body]
fn split_header_cookies(header: &str) -> (r: Vec<Option<(String, String)>>)
    ensures
        pairs_view(r@) == header_cookies(header@),
{
    cookie::Cookie::split_parse(header)
        .map(|c| c.ok().map(|c| (c.name().to_owned(), c.value().to_owned())))
        .collect()
}

/// The value of the first cookie named `session` among parsed cookies, or
/// the empty text when there is none.
pub open spec fn first_session(cs: Seq<Option<(Seq<char>, Seq<char>)>>) -> Seq<char>
    decreases cs.len(),
{
    if cs.len() == 0 {
        seq![]
    } else {
        match cs[0] {
            Some((n, v)) => if n == seq!['s', 'e', 's', 's', 'i', 'o', 'n'] {
                v
            } else {
                first_session(cs.drop_first())
            },
            None => first_session(cs.drop_first()),
        }
    }
}

/// The value of the session cookie in a request's `Cookie` header: that of
/// the first cookie named `session` that parses, or the empty text when
/// there is none or no header.
pub fn session_cookie(cookie_header: Option<&str>) -> (r: String)
    ensures
        r@ == match cookie_header {
            Some(h) => first_session(header_cookies(h@)),
            None => seq![],
        },
{
    proof {
        reveal_strlit("session");
        assert("session"@ =~= seq!['s', 'e', 's', 's', 'i', 'o', 'n']);
    }
    match cookie_header {
        None => String::new(),
        Some(h) => {
            let cs = split_header_cookies(h);
            let ghost all = pairs_view(cs@);
            assert(all.skip(0) =~= all);
            let mut i: usize = 0;
            while i < cs.len()
                invariant
                    all == pairs_view(cs@),
                    all == header_cookies(h@),
                    cookie_header == Some(h),
                    "session"@ == seq!['s', 'e', 's', 's', 'i', 'o', 'n'],
                    i <= cs@.len(),
                    first_session(all) == first_session(all.skip(i as int)),
                decreases cs.len() - i,
            {
                proof {
                    assert(all.skip(i as int).drop_first() =~= all.skip(i + 1));
                    assert(all.skip(i as int)[0] == all[i as int]);
                }
                let ghost rest = all.skip(i as int);
                match &cs[i] {
                    Some((n, v)) => {
                        assert(all[i as int] == Some((n@, v@)));
                        if crate::text::same_text(n.as_str(), "session") {
                            assert(first_session(rest) == v@);
                            let found = v.clone();
                            assert(found@ == v@);
                            return found;
                        }
                        assert(first_session(rest) == first_session(rest.drop_first()));
                    },
                    None => {
                        assert(all[i as int] is None);
                        assert(first_session(rest) == first_session(rest.drop_first()));
                    },
                }
                i = i + 1;
            }
            proof {
                assert(all.skip(i as int).len() == 0);
            }
            String::new()
        },
    }
}

/// Calls `cookie::CookieJar::new`. Claimed: the jar holds no cookie.
#[verifier::external_body]
fn jar_new() -> (r: cookie::CookieJar)
    ensures
        jar_cookies(r).dom() == Set::<Seq<char>>::empty(),
{
    cookie::CookieJar::new()
}

/// Calls `cookie::CookieJar::add` with a cookie of this name and value.
/// Claimed: the jar then maps the name to the value (a cookie of the same
/// name is replaced) and holds the others as before.
#[verifier::external_body]
fn jar_add(jar: &mut cookie::CookieJar, name: &str, value: &str)
    ensures
        jar_cookies(*final(jar)) == jar_cookies(*old(jar)).insert(name@, value@),
{
    jar.add(cookie::Cookie::new(name.to_owned(), value.to_owned()));
}

/// Calls `cookie::CookieJar::get` and takes the cookie's value. Claimed: the
/// value the jar holds under the name, if any.
#[verifier::external_body]
fn jar_get(jar: &cookie::CookieJar, name: &str) -> (r: Option<String>)
    ensures
        r.is_some() == jar_cookies(*jar).contains_key(name@),
        r.is_some() ==> r.unwrap()@ == jar_cookies(*jar)[name@],
{
    jar.get(name).map(|c| c.value().to_owned())
}

/// Calls `cookie::CookieJar::iter` and asks for a first cookie. Claimed: there
/// is none exactly when the jar holds no cookie.
#[verifier::external_body]
fn jar_is_empty(jar: &cookie::CookieJar) -> (r: bool)
    ensures
        r == (jar_cookies(*jar).dom() == Set::<Seq<char>>::empty()),
{
    jar.iter().next().is_none()
}

/// Calls `cookie::Cookie::parse_encoded`. Claimed: the outcome is the named
/// function `parsed_cookie` of the text, `None` standing for the crate's error.
#[verifier::external_body]
fn parse_cookie(s: &str) -> (r: Option<(String, String)>)
    ensures
        r.is_some() == parsed_cookie(s@).is_some(),
        r.is_some() ==> parsed_cookie(s@) == Some((r.unwrap().0@, r.unwrap().1@)),
{
    match cookie::Cookie::parse_encoded(s) {
        Ok(c) => Some((c.name().to_owned(), c.value().to_owned())),
        Err(_) => None,
    }
}

/// The cookies of the pieces of a cookie string, each name with its value
/// (a later cookie of the same name replaces an earlier one), or `None` when
/// a piece does not parse.
pub open spec fn cookie_map(pieces: Seq<Seq<char>>) -> Option<Map<Seq<char>, Seq<char>>>
    decreases pieces.len(),
{
    if pieces.len() == 0 {
        Some(Map::empty())
    } else {
        match (cookie_map(pieces.drop_last()), parsed_cookie(pieces.last())) {
            (Some(m), Some(c)) => Some(m.insert(c.0, c.1)),
            _ => None,
        }
    }
}

/// The cookies of the browser's cookie string (its pieces between `;`), or
/// `None` when a piece does not parse or there is no cookie at all.
pub open spec fn cookie_jar_of(s: Seq<char>) -> Option<Map<Seq<char>, Seq<char>>> {
    match cookie_map(split_on(s, ';')) {
        Some(m) => if m.dom() == Set::<Seq<char>>::empty() {
            None
        } else {
            Some(m)
        },
        None => None,
    }
}

proof fn lemma_cookie_map_fails_on(pieces: Seq<Seq<char>>, i: int)
    requires
        0 <= i <= pieces.len(),
        cookie_map(pieces.take(i)) is None,
    ensures
        cookie_map(pieces) is None,
    decreases pieces.len() - i,
{
    if i < pieces.len() {
        assert(pieces.take(i + 1).drop_last() =~= pieces.take(i));
        lemma_cookie_map_fails_on(pieces, i + 1);
    } else {
        assert(pieces.take(i) =~= pieces);
    }
}

/// The jar of the browser's cookie string: every piece between `;` parsed
/// as a cookie and added in order; `None` when a piece does not parse or no
/// cookie results.
pub fn cookies(cookie_string: &str) -> (r: Option<cookie::CookieJar>)
    ensures
        r.is_some() == cookie_jar_of(cookie_string@).is_some(),
        r.is_some() ==> cookie_jar_of(cookie_string@) == Some(jar_cookies(r.unwrap())),
{
    let pieces = split(cookie_string, ';');
    let ghost pv = strings_view(pieces@);
    let mut jar = jar_new();
    assert(pv.take(0) =~= Seq::<Seq<char>>::empty());
    assert(jar_cookies(jar) =~= Map::<Seq<char>, Seq<char>>::empty());
    let mut i: usize = 0;
    while i < pieces.len()
        invariant
            pv == strings_view(pieces@),
            pv == split_on(cookie_string@, ';'),
            i <= pieces@.len(),
            cookie_map(pv.take(i as int)) == Some(jar_cookies(jar)),
        decreases pieces.len() - i,
    {
        assert(pv.take(i + 1).drop_last() =~= pv.take(i as int));
        assert(pv.take(i + 1).last() == pieces@[i as int]@);
        match parse_cookie(pieces[i].as_str()) {
            Some((name, value)) => {
                jar_add(&mut jar, name.as_str(), value.as_str());
            },
            None => {
                proof {
                    lemma_cookie_map_fails_on(pv, i + 1);
                }
                return None;
            },
        }
        i = i + 1;
    }
    assert(pv.take(pieces@.len() as int) =~= pv);
    if jar_is_empty(&jar) {
        None
    } else {
        Some(jar)
    }
}

} // verus!
