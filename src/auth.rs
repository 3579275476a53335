//! The API-key check in front of the administrative routes.
use vstd::prelude::*;

verus! {

/// Whether a request that presented `presented` (or no key) passes a check
/// configured with `configured` (or with no key, which lets every request pass).
pub open spec fn key_accepted(configured: Option<String>, presented: Option<Seq<char>>) -> bool {
    match configured {
        None => true,
        Some(k) => presented == Some(k@),
    }
}

/// The text of an optional key.
pub open spec fn text_view(p: Option<&str>) -> Option<Seq<char>> {
    match p {
        Some(t) => Some(t@),
        None => None,
    }
}

fn accepts(configured: &Option<String>, presented: Option<&str>) -> (r: bool)
    ensures
        r == key_accepted(*configured, text_view(presented)),
{
    match configured {
        None => true,
        Some(key) => match presented {
            None => false,
            Some(p) => {
                let given = String::from_str(p);
                given == *key
            },
        },
    }
}

/// The API-key check as configured: an API key, or none.
pub struct ApiKeyMiddleware {
    api_key: Option<String>,
}

impl ApiKeyMiddleware {
    pub closed spec fn key(&self) -> Option<String> {
        self.api_key
    }

    pub fn new(api_key: Option<String>) -> (r: Self)
        ensures
            r.key() == api_key,
    {
        Self { api_key }
    }

    /// Puts the API-key check in front of `service`.
    pub fn wrap<S>(&self, service: S) -> (r: ApiKeyMiddlewareService<S>)
        ensures
            r.key() == self.key(),
            r.inner() == service,
    {
        let api_key = match &self.api_key {
            Some(k) => Some(k.clone()),
            None => None,
        };
        ApiKeyMiddlewareService { service, api_key }
    }

    /// Whether a request with the key `presented` (or none) passes.
    pub fn is_authorized(&self, presented: Option<&str>) -> (r: bool)
        ensures
            r == key_accepted(self.key(), text_view(presented)),
    {
        accepts(&self.api_key, presented)
    }
}

/// A service behind the API-key check.
pub struct ApiKeyMiddlewareService<S> {
    service: S,
    api_key: Option<String>,
}

impl<S> ApiKeyMiddlewareService<S> {
    pub closed spec fn key(&self) -> Option<String> {
        self.api_key
    }

    pub closed spec fn inner(&self) -> S {
        self.service
    }

    /// The service behind the API-key check.
    pub fn service(&self) -> (r: &S)
        ensures
            *r == self.inner(),
    {
        &self.service
    }

    /// Whether a request with the key `presented` (or none) passes.
    pub fn is_authorized(&self, presented: Option<&str>) -> (r: bool)
        ensures
            r == key_accepted(self.key(), text_view(presented)),
    {
        accepts(&self.api_key, presented)
    }
}

} // verus!
