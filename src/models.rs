//! Short-link records, the analytics attached to them, and list paging.
use vstd::prelude::*;

verus! {

/// One visit of a short link.
#[derive(Debug, PartialEq)]
pub struct Analytic {
    /// Milliseconds since the Unix epoch, UTC.
    pub created_at: i64,
    pub language: Option<String>,
    pub os: Option<String>,
    pub ip: Option<String>,
    pub location: Option<String>,
    pub referrer: Option<String>,
    pub device_type: Option<String>,
    pub browser: Option<String>,
    pub user_agent: Option<String>,
}

fn copy_text(o: &Option<String>) -> (r: Option<String>)
    ensures
        r == *o,
{
    match o {
        Some(s) => Some(s.clone()),
        None => None,
    }
}

impl Analytic {
    /// An equal copy.
    pub fn duplicate(&self) -> (r: Analytic)
        ensures
            r == *self,
    {
        Analytic {
            created_at: self.created_at,
            language: copy_text(&self.language),
            os: copy_text(&self.os),
            ip: copy_text(&self.ip),
            location: copy_text(&self.location),
            referrer: copy_text(&self.referrer),
            device_type: copy_text(&self.device_type),
            browser: copy_text(&self.browser),
            user_agent: copy_text(&self.user_agent),
        }
    }
}

/// A short link: its code, the URL it stands for, and its visits.
#[derive(Debug, PartialEq)]
pub struct LinkInfo {
    pub short_url: String,
    pub long_url: String,
    pub analytics: Option<Vec<Analytic>>,
}

/// What a short-link record holds.
pub struct LinkView {
    pub short_url: Seq<char>,
    pub long_url: Seq<char>,
    pub analytics: Option<Seq<Analytic>>,
}

impl View for LinkInfo {
    type V = LinkView;

    open spec fn view(&self) -> LinkView {
        LinkView {
            short_url: self.short_url@,
            long_url: self.long_url@,
            analytics: match self.analytics {
                Some(v) => Some(v@),
                None => None,
            },
        }
    }
}

/// A fresh record for `long_url` under `short_url`, with no visit yet.
pub open spec fn new_link_view(short_url: Seq<char>, long_url: Seq<char>) -> LinkView {
    LinkView { short_url, long_url, analytics: Some(Seq::empty()) }
}

fn copy_analytics(v: &Vec<Analytic>) -> (r: Vec<Analytic>)
    ensures
        r@ == v@,
{
    let mut r: Vec<Analytic> = Vec::new();
    let mut i: usize = 0;
    while i < v.len()
        invariant
            i <= v@.len(),
            r@ == v@.subrange(0, i as int),
        decreases v@.len() - i,
    {
        r.push(v[i].duplicate());
        assert(v@.subrange(0, i + 1) =~= v@.subrange(0, i as int).push(v@[i as int]));
        i = i + 1;
    }
    assert(v@.subrange(0, v@.len() as int) =~= v@);
    r
}

impl LinkInfo {
    /// A copy with the same view.
    pub fn duplicate(&self) -> (r: LinkInfo)
        ensures
            r@ == self@,
    {
        let analytics = match &self.analytics {
            Some(v) => Some(copy_analytics(v)),
            None => None,
        };
        LinkInfo { short_url: self.short_url.clone(), long_url: self.long_url.clone(), analytics }
    }

    /// The number of recorded visits.
    pub fn clicks(&self) -> (r: usize)
        ensures
            r == match self@.analytics {
                Some(a) => a.len(),
                None => 0,
            },
    {
        match &self.analytics {
            Some(v) => v.len(),
            None => 0,
        }
    }
}

/// A fresh record for `long_url` under `short_url`, with no visit yet.
pub fn build_link_info(short_url: String, long_url: String) -> (r: LinkInfo)
    ensures
        r@ == new_link_view(short_url@, long_url@),
{
    let r = LinkInfo { short_url, long_url, analytics: Some(Vec::new()) };
    assert(r@.analytics == Some(Seq::<Analytic>::empty()));
    r
}

/// The body of a request to shorten a URL.
#[derive(Debug, PartialEq)]
pub struct ShortenRequest {
    pub long_url: String,
}

/// Paging of a listing: `skip` entries are passed over, then at most `top`
/// are kept.
#[derive(Debug, Clone, Copy, PartialEq, Eq, Structural)]
pub struct QueryParams {
    pub top: Option<usize>,
    pub skip: Option<usize>,
}

/// The entries of `s` that a listing with `top` and `skip` returns: the first
/// `skip` are dropped (all of them where `skip` is larger), then at most `top`
/// remain (all where `top` is absent).
pub open spec fn page<T>(s: Seq<T>, top: Option<usize>, skip: Option<usize>) -> Seq<T> {
    let start = match skip {
        Some(k) => if k <= s.len() {
            k as int
        } else {
            s.len() as int
        },
        None => 0,
    };
    let end = match top {
        Some(t) => if start + t <= s.len() {
            start + t
        } else {
            s.len() as int
        },
        None => s.len() as int,
    };
    s.subrange(start, end)
}

/// The entries of `s` that a listing with `query` returns.
pub open spec fn page_of<T>(s: Seq<T>, query: Option<QueryParams>) -> Seq<T> {
    match query {
        Some(q) => page(s, q.top, q.skip),
        None => s,
    }
}

/// Applies `skip`, then `top`, to a listing.
pub fn paginate<T>(items: Vec<T>, query: Option<QueryParams>) -> (r: Vec<T>)
    ensures
        r@ == page_of(items@, query),
{
    let q = match query {
        Some(q) => q,
        None => {
            assert(items@.subrange(0, items@.len() as int) =~= items@);
            return items;
        },
    };
    let ghost orig = items@;
    let mut items = items;
    let len = items.len();
    let start = match q.skip {
        Some(k) => if k <= len {
            k
        } else {
            len
        },
        None => 0,
    };
    let mut rest = items.split_off(start);
    let remaining = rest.len();
    match q.top {
        Some(t) => if t <= remaining {
            rest.truncate(t);
        },
        None => {},
    }
    assert(rest@ =~= page(orig, q.top, q.skip));
    rest
}

} // verus!
