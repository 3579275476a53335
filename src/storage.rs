//! A storage node kept in memory: short codes mapped to records, in the order
//! they were first stored.
use crate::hashfunction::{hash, short_code_of};
use crate::models::{build_link_info, new_link_view, page_of, paginate, LinkInfo, LinkView, QueryParams};
use vstd::prelude::*;

verus! {

/// The stored entries: each short code with its record.
pub type Entries = Seq<(Seq<char>, LinkView)>;

/// Every short code occurs at most once.
pub open spec fn keys_unique(e: Entries) -> bool {
    forall|i: int, j: int| 0 <= i < j < e.len() ==> #[trigger] e[i].0 != #[trigger] e[j].0
}

/// Whether an entry is stored under `key`.
pub open spec fn has_key(e: Entries, key: Seq<char>) -> bool {
    exists|i: int| 0 <= i < e.len() && #[trigger] e[i].0 == key
}

/// The position of `key` in `e`, where it is stored.
pub open spec fn key_index(e: Entries, key: Seq<char>) -> int {
    choose|i: int| 0 <= i < e.len() && #[trigger] e[i].0 == key
}

/// The entries after storing `long_url`: unchanged where its short code is
/// already stored, else with a fresh record for it at the end.
pub open spec fn inserted(e: Entries, long_url: Seq<char>) -> Entries {
    let code = short_code_of(long_url);
    if has_key(e, code) {
        e
    } else {
        e.push((code, new_link_view(code, long_url)))
    }
}

/// The records, in the order they were stored.
pub open spec fn records(e: Entries) -> Seq<LinkView> {
    e.map_values(|p: (Seq<char>, LinkView)| p.1)
}

/// A storage node held in memory. The records are kept in a list with one
/// entry per short code rather than in a hash map, so that listings come out
/// in the order the records were first stored, stable from call to call.
pub struct InMemoryHashService {
    urls: Vec<(String, LinkInfo)>,
}

impl InMemoryHashService {
    pub closed spec fn entries(&self) -> Entries {
        self.urls@.map_values(|p: (String, LinkInfo)| (p.0@, p.1@))
    }

    pub closed spec fn wf(&self) -> bool {
        keys_unique(self.entries())
    }

    /// An empty store.
    pub fn new() -> (r: InMemoryHashService)
        ensures
            r.wf(),
            r.entries() == Seq::<(Seq<char>, LinkView)>::empty(),
    {
        let r = InMemoryHashService { urls: Vec::new() };
        assert(r.entries() =~= Seq::<(Seq<char>, LinkView)>::empty());
        r
    }

    /// Nothing to set up for a store in memory.
    pub fn init(&mut self)
        ensures
            final(self).entries() == old(self).entries(),
            final(self).wf() == old(self).wf(),
    {
    }

    fn position(&self, key: &str) -> (r: Option<usize>)
        ensures
            r matches Some(i) ==> i < self.entries().len() && self.entries()[i as int].0 == key@,
            r is None ==> !has_key(self.entries(), key@),
    {
        let wanted = String::from_str(key);
        let mut i: usize = 0;
        while i < self.urls.len()
            invariant
                i <= self.urls@.len(),
                wanted@ == key@,
                forall|j: int| 0 <= j < i ==> #[trigger] self.entries()[j].0 != key@,
            decreases self.urls@.len() - i,
        {
            if self.urls[i].0 == wanted {
                return Some(i);
            }
            assert(self.entries()[i as int].0 != key@);
            i = i + 1;
        }
        None
    }

    /// Stores a fresh record for `value` under its short code unless that
    /// code is already stored, and returns the fresh record either way: its
    /// short code, `value`, and no visit.
    pub fn insert(&mut self, value: &str) -> (r: LinkInfo)
        requires
            old(self).wf(),
        ensures
            final(self).wf(),
            final(self).entries() == inserted(old(self).entries(), value@),
            r@ == new_link_view(short_code_of(value@), value@),
    {
        let hash_value = hash(value);
        let ghost code = short_code_of(value@);
        let new_link = build_link_info(hash_value.clone(), String::from_str(value));
        match self.position(hash_value.as_str()) {
            Some(i) => {
                proof {
                    assert(self.entries()[i as int].0 == code);
                    assert(has_key(self.entries(), code));
                }
            },
            None => {
                let stored = new_link.duplicate();
                let ghost before = self.entries();
                self.urls.push((hash_value, stored));
                proof {
                    assert(self.entries() =~= before.push((code, new_link_view(code, value@))));
                }
            },
        }
        new_link
    }

    /// The record stored under `key`, if any.
    pub fn find(&self, key: &str) -> (r: Option<LinkInfo>)
        requires
            self.wf(),
        ensures
            r is Some <==> has_key(self.entries(), key@),
            r matches Some(l) ==> l@ == self.entries()[key_index(self.entries(), key@)].1,
    {
        match self.position(key) {
            Some(i) => {
                proof {
                    assert(has_key(self.entries(), key@));
                    assert(key_index(self.entries(), key@) == i as int);
                }
                Some(self.urls[i].1.duplicate())
            },
            None => None,
        }
    }

    /// Replaces the record stored under `key`; `false` where nothing is
    /// stored under it.
    pub fn update(&mut self, key: &str, value: &LinkInfo) -> (r: bool)
        requires
            old(self).wf(),
        ensures
            final(self).wf(),
            r == has_key(old(self).entries(), key@),
            r ==> final(self).entries() == old(self).entries().update(
                key_index(old(self).entries(), key@),
                (key@, value@),
            ),
            !r ==> final(self).entries() == old(self).entries(),
    {
        match self.position(key) {
            None => false,
            Some(i) => {
                proof {
                    assert(has_key(self.entries(), key@));
                    assert(key_index(self.entries(), key@) == i as int);
                }
                let ghost before = self.entries();
                let k = self.urls[i].0.clone();
                self.urls.set(i, (k, value.duplicate()));
                proof {
                    assert(self.entries() =~= before.update(i as int, (key@, value@)));
                    assert forall|a: int, b: int| 0 <= a < b < self.entries().len() implies
                        #[trigger] self.entries()[a].0 != #[trigger] self.entries()[b].0 by {
                        assert(self.entries()[a].0 == before[a].0);
                        assert(self.entries()[b].0 == before[b].0);
                    }
                }
                true
            },
        }
    }

    /// Removes the record stored under `key`; `false` where nothing is
    /// stored under it.
    pub fn delete(&mut self, key: &str) -> (r: bool)
        requires
            old(self).wf(),
        ensures
            final(self).wf(),
            r == has_key(old(self).entries(), key@),
            r ==> final(self).entries() == old(self).entries().remove(
                key_index(old(self).entries(), key@),
            ),
            !r ==> final(self).entries() == old(self).entries(),
    {
        match self.position(key) {
            None => false,
            Some(i) => {
                proof {
                    assert(has_key(self.entries(), key@));
                    assert(key_index(self.entries(), key@) == i as int);
                }
                let ghost before = self.entries();
                self.urls.remove(i);
                proof {
                    assert(self.entries() =~= before.remove(i as int));
                    assert forall|a: int, b: int| 0 <= a < b < self.entries().len() implies
                        #[trigger] self.entries()[a].0 != #[trigger] self.entries()[b].0 by {
                        let a0 = if a < i { a } else { a + 1 };
                        let b0 = if b < i { b } else { b + 1 };
                        assert(self.entries()[a].0 == before[a0].0);
                        assert(self.entries()[b].0 == before[b0].0);
                    }
                }
                true
            },
        }
    }

    /// The stored records in the order they were stored, paged by `query`.
    pub fn get_links(&self, query_params: Option<QueryParams>) -> (r: Vec<LinkInfo>)
        ensures
            r@.map_values(|l: LinkInfo| l@) == page_of(records(self.entries()), query_params),
    {
        let mut all: Vec<LinkInfo> = Vec::new();
        let mut i: usize = 0;
        while i < self.urls.len()
            invariant
                i <= self.urls@.len(),
                all@.map_values(|l: LinkInfo| l@) == records(self.entries()).subrange(0, i as int),
            decreases self.urls@.len() - i,
        {
            let ghost before = all@;
            all.push(self.urls[i].1.duplicate());
            proof {
                assert(all@.map_values(|l: LinkInfo| l@) =~= before.map_values(|l: LinkInfo| l@).push(self.entries()[i as int].1));
                assert(records(self.entries()).subrange(0, i + 1) =~= records(self.entries()).subrange(0, i as int).push(self.entries()[i as int].1));
            }
            i = i + 1;
        }
        assert(records(self.entries()).subrange(0, self.urls@.len() as int) =~= records(self.entries()));
        let ghost full = all@;
        let r = paginate(all, query_params);
        proof {
            lemma_page_of_map(full, query_params);
        }
        r
    }
}

/// Paging commutes with taking views.
proof fn lemma_page_of_map(s: Seq<LinkInfo>, query: Option<QueryParams>)
    ensures
        page_of(s, query).map_values(|l: LinkInfo| l@) == page_of(
            s.map_values(|l: LinkInfo| l@),
            query,
        ),
{
    assert(page_of(s, query).map_values(|l: LinkInfo| l@) =~= page_of(
        s.map_values(|l: LinkInfo| l@),
        query,
    ));
}

/// Storing the same long URL a second time changes nothing: the entries after
/// the second insert are those after the first.
pub proof fn lemma_insert_idempotent(e: Entries, long_url: Seq<char>)
    requires
        keys_unique(e),
    ensures
        inserted(inserted(e, long_url), long_url) == inserted(e, long_url),
        has_key(inserted(e, long_url), short_code_of(long_url)),
{
    let code = short_code_of(long_url);
    let once = inserted(e, long_url);
    if !has_key(e, code) {
        assert(once[e.len() as int].0 == code);
    }
}

} // verus!
