use vstd::prelude::*;

use crate::errors::UrlError;
use crate::link::{bumped, Link};

verus! {

/// No two links share an identifier.
pub open spec fn ids_unique(s: Seq<Link>) -> bool {
    forall|i: int, j: int|
        0 <= i < j < s.len() ==> (#[trigger] s[i]).id@ != (#[trigger] s[j]).id@
}

/// No two links share a long URL.
pub open spec fn urls_unique(s: Seq<Link>) -> bool {
    forall|i: int, j: int|
        0 <= i < j < s.len() ==> (#[trigger] s[i]).url@ != (#[trigger] s[j]).url@
}

/// Some link carries this identifier.
pub open spec fn has_id(s: Seq<Link>, id: Seq<char>) -> bool {
    exists|i: int| 0 <= i < s.len() && (#[trigger] s[i]).id@ == id
}

/// Some link carries this long URL.
pub open spec fn has_url(s: Seq<Link>, url: Seq<char>) -> bool {
    exists|i: int| 0 <= i < s.len() && (#[trigger] s[i]).url@ == url
}

/// The position of the link carrying this identifier; meaningful only where
/// `has_id` holds, and unique where identifiers are unique.
pub open spec fn id_index(s: Seq<Link>, id: Seq<char>) -> int {
    choose|i: int| 0 <= i < s.len() && (#[trigger] s[i]).id@ == id
}

/// The click count of the link carrying this identifier.
pub open spec fn clicks_of(s: Seq<Link>, id: Seq<char>) -> int {
    s[id_index(s, id)].clicks as int
}

/// The long URL of the link carrying this identifier.
pub open spec fn url_of(s: Seq<Link>, id: Seq<char>) -> Seq<char> {
    s[id_index(s, id)].url@
}

/// With unique identifiers, every position whose link carries `id` is the one
/// `id_index` picks.
pub proof fn lemma_id_index_unique(s: Seq<Link>, id: Seq<char>, k: int)
    requires
        ids_unique(s),
        0 <= k < s.len(),
        s[k].id@ == id,
    ensures
        has_id(s, id),
        id_index(s, id) == k,
{
    assert(has_id(s, id));
    let i = id_index(s, id);
    assert(0 <= i < s.len() && s[i].id@ == id);
    if i != k {
        if i < k {
            assert(s[i].id@ != s[k].id@);
        } else {
            assert(s[k].id@ != s[i].id@);
        }
    }
}

/// Which uniqueness constraint an attempted insert ran into.
#[derive(Clone, Copy, Debug, PartialEq, Eq)]
pub enum InsertConflict {
    /// The candidate identifier is already taken.
    IdCollision,
    /// The long URL is already shortened.
    UrlExists,
}

/// The link store: the durable mapping from identifier to long URL and click
/// count. It owns all persisted link state and enforces both uniqueness
/// invariants; services touch links only through its operations.
pub struct LinkStore {
    links: Vec<Link>,
}

impl View for LinkStore {
    type V = Seq<Link>;

    closed spec fn view(&self) -> Seq<Link> {
        self.links@
    }
}

impl LinkStore {
    /// Well-formedness: both uniqueness invariants hold.
    pub open spec fn wf(&self) -> bool {
        ids_unique(self@) && urls_unique(self@)
    }

    /// An empty store.
    pub fn new() -> (r: LinkStore)
        ensures
            r@ == Seq::<Link>::empty(),
            r.wf(),
    {
        LinkStore { links: Vec::new() }
    }

    /// How many links are stored.
    pub fn len(&self) -> (r: usize)
        ensures
            r == self@.len(),
    {
        self.links.len()
    }

    /// The position of the link with this identifier, if any.
    fn find_id(&self, id: &String) -> (r: Option<usize>)
        ensures
            match r {
                Some(k) => k < self@.len() && self@[k as int].id@ == id@,
                None => !has_id(self@, id@),
            },
    {
        let n = self.links.len();
        for k in 0..n
            invariant
                n == self@.len(),
                forall|j: int| 0 <= j < k ==> (#[trigger] self@[j]).id@ != id@,
        {
            if self.links[k].id == *id {
                return Some(k);
            }
        }
        None
    }

    /// The position of the link with this long URL, if any.
    fn find_url(&self, url: &String) -> (r: Option<usize>)
        ensures
            match r {
                Some(k) => k < self@.len() && self@[k as int].url@ == url@,
                None => !has_url(self@, url@),
            },
    {
        let n = self.links.len();
        for k in 0..n
            invariant
                n == self@.len(),
                forall|j: int| 0 <= j < k ==> (#[trigger] self@[j]).url@ != url@,
        {
            if self.links[k].url == *url {
                return Some(k);
            }
        }
        None
    }

    /// Attempt to create a new link. Atomic: either the full link is appended
    /// or the store is unchanged. A uniqueness violation reports which
    /// constraint fired; a duplicate long URL takes precedence over an
    /// identifier collision, so a resubmitted URL is always a `UrlExists`
    /// conflict. Succeeds exactly when both the identifier and the URL are
    /// fresh, and the new link starts with zero clicks.
    pub fn insert(&mut self, id: String, url: String) -> (r: Result<Link, InsertConflict>)
        requires
            old(self).wf(),
        ensures
            final(self).wf(),
            match r {
                Ok(l) => {
                    &&& !has_url(old(self)@, url@)
                    &&& !has_id(old(self)@, id@)
                    &&& l.id@ == id@
                    &&& l.url@ == url@
                    &&& l.clicks == 0
                    &&& final(self)@ == old(self)@.push(l)
                },
                Err(InsertConflict::UrlExists) => {
                    &&& has_url(old(self)@, url@)
                    &&& final(self)@ == old(self)@
                },
                Err(InsertConflict::IdCollision) => {
                    &&& !has_url(old(self)@, url@)
                    &&& has_id(old(self)@, id@)
                    &&& final(self)@ == old(self)@
                },
            },
    {
        if self.find_url(&url).is_some() {
            return Err(InsertConflict::UrlExists);
        }
        if self.find_id(&id).is_some() {
            return Err(InsertConflict::IdCollision);
        }
        let l = Link { id: id.clone(), url: url.clone(), clicks: 0 };
        self.links.push(l);
        proof {
            let s0 = old(self)@;
            let s1 = self@;
            assert(s1 == s0.push(Link { id: id, url: url, clicks: 0u64 }));
            assert forall|i: int, j: int| 0 <= i < j < s1.len() implies (#[trigger] s1[i]).id@
                != (#[trigger] s1[j]).id@ by {
                if j < s0.len() {
                    assert(s0[i].id@ != s0[j].id@);
                } else {
                    assert(s1[j].id@ == id@);
                    if s1[i].id@ == id@ {
                        assert(has_id(s0, id@));
                    }
                }
            }
            assert forall|i: int, j: int| 0 <= i < j < s1.len() implies (#[trigger] s1[i]).url@
                != (#[trigger] s1[j]).url@ by {
                if j < s0.len() {
                    assert(s0[i].url@ != s0[j].url@);
                } else {
                    assert(s1[j].url@ == url@);
                    if s1[i].url@ == url@ {
                        assert(has_url(s0, url@));
                    }
                }
            }
        }
        Ok(Link { id, url, clicks: 0 })
    }

    /// Look up a link by identifier; if present, increment its click count by
    /// exactly one and return its long URL in the same atomic operation; if
    /// absent, report `UrlNotFound` and change nothing. Everything but the
    /// matched link's click count is left as it was.
    pub fn fetch_and_increment(&mut self, id: &String) -> (r: Result<String, UrlError>)
        requires
            old(self).wf(),
            has_id(old(self)@, id@) ==> clicks_of(old(self)@, id@) < u64::MAX,
        ensures
            final(self).wf(),
            match r {
                Ok(u) => {
                    &&& has_id(old(self)@, id@)
                    &&& u@ == url_of(old(self)@, id@)
                    &&& final(self)@ == old(self)@.update(
                        id_index(old(self)@, id@),
                        bumped(old(self)@[id_index(old(self)@, id@)]),
                    )
                },
                Err(e) => {
                    &&& e matches UrlError::UrlNotFound(i) && i@ == id@
                    &&& !has_id(old(self)@, id@)
                    &&& final(self)@ == old(self)@
                },
            },
    {
        match self.find_id(id) {
            Some(k) => {
                proof {
                    lemma_id_index_unique(self@, id@, k as int);
                }
                let url = self.links[k].url.clone();
                let c = self.links[k].clicks;
                self.links[k].clicks = c + 1;
                proof {
                    let s0 = old(self)@;
                    let s1 = self@;
                    assert(s1 == s0.update(k as int, bumped(s0[k as int])));
                    assert forall|i: int, j: int| 0 <= i < j < s1.len() implies (#[trigger] s1[i]).id@
                        != (#[trigger] s1[j]).id@ by {
                        assert(s1[i].id@ == s0[i].id@ && s1[j].id@ == s0[j].id@);
                    }
                    assert forall|i: int, j: int| 0 <= i < j < s1.len() implies (#[trigger] s1[i]).url@
                        != (#[trigger] s1[j]).url@ by {
                        assert(s1[i].url@ == s0[i].url@ && s1[j].url@ == s0[j].url@);
                    }
                }
                Ok(url)
            },
            None => Err(UrlError::UrlNotFound(id.clone())),
        }
    }

    /// The click count of the link with this identifier, if any.
    pub fn get_clicks(&self, id: &String) -> (r: Option<u64>)
        requires
            self.wf(),
        ensures
            match r {
                Some(c) => has_id(self@, id@) && c as int == clicks_of(self@, id@),
                None => !has_id(self@, id@),
            },
    {
        match self.find_id(id) {
            Some(k) => {
                proof {
                    lemma_id_index_unique(self@, id@, k as int);
                }
                Some(self.links[k].clicks)
            },
            None => None,
        }
    }
}

} // verus!
