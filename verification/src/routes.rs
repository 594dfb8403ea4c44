//! What the request handlers decide: who may upload and delete, which
//! address a request is counted under, what a read finds in the cache, and
//! when the cache is filled and invalidated. The handlers themselves talk to
//! the network, the database and the renderer, and call these in between.

use crate::cache::{find, stored, touched, without, HtmlCache};
use crate::codec::{decoded, token_of, token_shaped, Id, Mask};
use crate::config::{Config, IpOctets};
use crate::error::Error;
use vstd::prelude::*;
use vstd::string::StringExecFns;

verus! {

/// The form that an upload arrives in.
pub struct Upload {
    /// The password, where it was sent with the form.
    pub password: Option<String>,
    /// The display name of the paste.
    pub name: Option<String>,
    /// The syntax that the uploader declared.
    pub syntax: Option<String>,
    /// The text of the paste.
    pub content: String,
}

/// Why a request was turned away.
#[derive(Clone, Copy, Debug, PartialEq, Eq, Structural)]
pub enum Rejection {
    /// No route matched.
    NotFound,
    /// The token names no paste. The client is told what it is told of a
    /// token whose paste storage does not hold, so that an answer does not
    /// show whether a text is a token.
    InvalidId,
    /// The server failed: the database, the renderer or a template.
    Failed,
    /// The body could not be read as a form.
    BadBody,
    /// The method is not served.
    MethodNotAllowed,
    /// The body is larger than a paste may be.
    PayloadTooLarge,
    /// Anything else.
    Other,
}

/// What a read found.
#[derive(Debug)]
pub enum Lookup {
    /// The rendering was in the cache: it is served as it is.
    Cached(String),
    /// The cache holds nothing for the key: the paste is looked up in
    /// storage and rendered.
    Missing(Id),
}

/// Whether two addresses have the same octets.
pub fn same_octets(a: &IpOctets, b: &IpOctets) -> (same: bool)
    ensures
        same == (a@ == b@),
{
    if a.len() != b.len() {
        return false;
    }
    let mut i: usize = 0;
    while i < a.len()
        invariant
            i <= a.len(),
            a.len() == b.len(),
            forall|j: int| 0 <= j < i ==> a@[j] == b@[j],
        decreases a.len() - i,
    {
        if a[i] != b[i] {
            return false;
        }
        i += 1;
    }
    assert(a@ =~= b@);
    true
}

/// Whether an address is among the trusted ones.
pub open spec fn is_trusted(trusted: Seq<IpOctets>, origin: Seq<u8>) -> bool {
    exists|i: int| 0 <= i < trusted.len() && (#[trigger] trusted[i])@ == origin
}

/// The address that a request is counted under: the one that a forwarding
/// header names, where there is such a header and the peer is trusted, and
/// the peer's own otherwise.
pub fn client_ip(config: &Config, origin: IpOctets, header: Option<IpOctets>) -> (ip: IpOctets)
    ensures
        ip@ == (if header is Some && is_trusted(config.trusted_ips@, origin@) {
            header.unwrap()@
        } else {
            origin@
        }),
{
    match header {
        None => origin,
        Some(forwarded) => {
            let mut i: usize = 0;
            while i < config.trusted_ips.len()
                invariant
                    header == Some(forwarded),
                    i <= config.trusted_ips.len(),
                    forall|j: int| 0 <= j < i ==> (#[trigger] config.trusted_ips@[j])@ != origin@,
                decreases config.trusted_ips.len() - i,
            {
                if same_octets(&config.trusted_ips[i], &origin) {
                    assert(config.trusted_ips@[i as int]@ == origin@);
                    return forwarded;
                }
                i += 1;
            }
            origin
        },
    }
}

/// Whether a credential is the password.
pub open spec fn is_password(credential: Option<String>, password: Seq<char>) -> bool {
    credential is Some && credential.unwrap()@ == password
}

/// Whether the sender of a request holds the password: then any paste is
/// theirs to delete.
pub fn is_authorized(config: &Config, authorization: &Option<String>) -> (authorized: bool)
    ensures
        authorized == is_password(*authorization, config.password@),
{
    match authorization {
        Some(credential) => *credential == config.password,
        None => false,
    }
}

/// Whether an upload is taken: always on a public instance, and else with
/// the password, which is read from the header and, without one, from the
/// form.
pub fn upload_allowed(config: &Config, authorization: &Option<String>, upload: &Upload) -> (allowed:
    bool)
    ensures
        allowed == (config.public || is_password(
            if *authorization is Some {
                *authorization
            } else {
                upload.password
            },
            config.password@,
        )),
{
    let authorized = match authorization {
        Some(_) => is_authorized(config, authorization),
        None => is_authorized(config, &upload.password),
    };
    config.public || authorized
}

/// The address of a paste: the base URL of the site, a slash, and the token
/// of its key, which holds lowercase letters and hyphens only and so adds
/// one segment to the path.
pub fn paste_url(config: &Config, mask: &Mask, id: Id) -> (url: String)
    ensures
        url@ == config.site_url@ + "/"@ + token_of(mask@, id.0),
        token_shaped(token_of(mask@, id.0)),
{
    let token = id.encode(mask);
    config.site_url.clone().concat("/").concat(token.as_str())
}

/// The rejection that an error of the library becomes.
pub fn rejection_of(error: Error) -> (rejection: Rejection)
    ensures
        rejection == match error {
            Error::InvalidId => Rejection::InvalidId,
        },
{
    match error {
        Error::InvalidId => Rejection::InvalidId,
    }
}

/// Whether a rejection is answered with the page for a paste that is not
/// there: where no route matched, and where the token names no paste.
pub fn is_not_found(rejection: Rejection) -> (not_found: bool)
    ensures
        not_found == (rejection == Rejection::NotFound || rejection == Rejection::InvalidId),
{
    match rejection {
        Rejection::NotFound | Rejection::InvalidId => true,
        _ => false,
    }
}

/// The status that a rejection is answered with: 404 exactly where
/// `is_not_found` holds.
pub fn recover_status(rejection: Rejection) -> (status: u16)
    ensures
        status == match rejection {
            Rejection::NotFound => 404u16,
            Rejection::InvalidId => 404u16,
            Rejection::Failed => 500u16,
            Rejection::BadBody => 400u16,
            Rejection::MethodNotAllowed => 400u16,
            Rejection::PayloadTooLarge => 400u16,
            Rejection::Other => 500u16,
        },
        status == 404 <==> rejection == Rejection::NotFound || rejection == Rejection::InvalidId,
{
    match rejection {
        Rejection::NotFound | Rejection::InvalidId => 404,
        Rejection::Failed | Rejection::Other => 500,
        Rejection::BadBody | Rejection::MethodNotAllowed | Rejection::PayloadTooLarge => 400,
    }
}

/// The first step of a read: the token is decoded and the cache is asked.
/// A text that is no token leaves the cache alone; a token makes the entry
/// of its key, if there is one, the most recently used.
pub fn get(mask: &Mask, cache: &mut HtmlCache, token: &str) -> (step: Result<Lookup, Error>)
    requires
        old(cache).wf(),
    ensures
        final(cache).wf(),
        final(cache).limit() == old(cache).limit(),
        match decoded(mask@, token@) {
            Err(e) => step == Err::<Lookup, Error>(e) && final(cache)@ == old(cache)@,
            Ok(key) => final(cache)@ == touched(old(cache)@, key) && match find(old(cache)@, key) {
                Some(html) => step matches Ok(Lookup::Cached(served)) && served@ == html,
                None => step == Ok::<Lookup, Error>(Lookup::Missing(Id(key))),
            },
        },
{
    match Id::decode(mask, token) {
        Err(e) => Err(e),
        Ok(id) => match cache.get(id.0) {
            Some(html) => Ok(Lookup::Cached(html)),
            None => Ok(Lookup::Missing(id)),
        },
    }
}

/// The last step of a read that missed: what the renderer made is stored,
/// and where it made nothing the cache stays as it is.
pub fn store_rendered(cache: &mut HtmlCache, id: Id, rendered: &Option<String>)
    requires
        old(cache).wf(),
    ensures
        final(cache).wf(),
        final(cache).limit() == old(cache).limit(),
        final(cache)@ == match *rendered {
            Some(html) => stored(old(cache)@, old(cache).limit(), id.0, html@),
            None => old(cache)@,
        },
{
    match rendered {
        Some(html) => cache.put(id.0, html.clone()),
        None => {},
    }
}

/// The last step of a delete: the cache forgets the key if storage removed
/// a row, and only then. Tells whether the paste was removed.
pub fn delete(cache: &mut HtmlCache, id: Id, rows_affected: u64) -> (removed: bool)
    requires
        old(cache).wf(),
    ensures
        removed == (rows_affected > 0),
        final(cache).wf(),
        final(cache).limit() == old(cache).limit(),
        final(cache)@ == (if removed {
            without(old(cache)@, id.0)
        } else {
            old(cache)@
        }),
        removed ==> find(final(cache)@, id.0).is_none(),
{
    if rows_affected > 0 {
        cache.invalidate(id.0);
        true
    } else {
        false
    }
}

} // verus!
