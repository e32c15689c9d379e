use vstd::prelude::*;

use crate::errors::UrlError;
use crate::idgen::{generate_id, valid_id};
use crate::link::{bumped, Link};
use crate::store::{
    clicks_of, has_id, has_url, id_index, ids_unique, InsertConflict, lemma_id_index_unique,
    LinkStore, url_of, urls_unique,
};

verus! {

/// Upper bound on identifier-allocation attempts before the shortening
/// service reports exhaustion instead of looping forever.
pub const MAX_ATTEMPTS: usize = 10;

/// A successful shortening step from `pre` to `post`: the submitted URL was
/// new, the allocated identifier was fresh, and exactly one new link was
/// appended, starting with zero clicks.
pub open spec fn shorten_ok(pre: Seq<Link>, post: Seq<Link>, l: Link, url: Seq<char>) -> bool {
    &&& !has_url(pre, url)
    &&& !has_id(pre, l.id@)
    &&& l.url@ == url
    &&& l.clicks == 0
    &&& post == pre.push(l)
}

/// A successful redirect step from `pre` to `post`: the identifier was
/// present, its click counter (below the counter's ceiling) moved up by
/// exactly one, and no other link changed.
pub open spec fn increments_click(pre: Seq<Link>, post: Seq<Link>, id: Seq<char>) -> bool {
    &&& has_id(pre, id)
    &&& clicks_of(pre, id) < u64::MAX
    &&& post == pre.update(id_index(pre, id), bumped(pre[id_index(pre, id)]))
}

/// Shortening service: allocate a fresh identifier for a long URL and create
/// the link. Each attempt draws a random candidate; an identifier collision
/// is retried with a fresh candidate, at most `MAX_ATTEMPTS` times in all; a
/// duplicate long URL is a terminal conflict and is never retried.
pub fn shorten(store: &mut LinkStore, url: String) -> (r: Result<Link, UrlError>)
    requires
        old(store).wf(),
    ensures
        final(store).wf(),
        match r {
            Ok(l) => shorten_ok(old(store)@, final(store)@, l, url@) && valid_id(l.id@),
            Err(e) => {
                &&& final(store)@ == old(store)@
                &&& match e {
                    UrlError::UrlExisted(u) => u@ == url@ && has_url(old(store)@, url@),
                    UrlError::TooManyCollisions => {
                        &&& !has_url(old(store)@, url@)
                        &&& old(store)@.len() >= 1
                    },
                    _ => false,
                }
            },
        },
{
    let mut attempt: usize = 0;
    while attempt < MAX_ATTEMPTS
        invariant
            store.wf(),
            store@ == old(store)@,
            attempt > 0 ==> !has_url(old(store)@, url@) && old(store)@.len() >= 1,
        decreases MAX_ATTEMPTS - attempt,
    {
        let id = generate_id();
        match store.insert(id, url.clone()) {
            Ok(l) => {
                return Ok(l);
            },
            Err(InsertConflict::UrlExists) => {
                return Err(UrlError::UrlExisted(url));
            },
            Err(InsertConflict::IdCollision) => {},
        }
        attempt = attempt + 1;
    }
    Err(UrlError::TooManyCollisions)
}

/// Deterministic core of shortening: try the given identifier candidates in
/// order. A duplicate long URL conflicts at the first attempt; otherwise the
/// first fresh candidate is allocated; if every candidate collides — in
/// particular when none is given — allocation is exhausted. The outcome is
/// exact for every store and candidate list.
pub fn shorten_with_candidates(
    store: &mut LinkStore,
    url: String,
    candidates: &Vec<String>,
) -> (r: Result<Link, UrlError>)
    requires
        old(store).wf(),
    ensures
        final(store).wf(),
        match r {
            Ok(l) => {
                &&& shorten_ok(old(store)@, final(store)@, l, url@)
                &&& exists|k: int|
                    {
                        &&& 0 <= k < candidates@.len()
                        &&& l.id@ == (#[trigger] candidates@[k])@
                        &&& forall|j: int|
                            0 <= j < k ==> has_id(old(store)@, (#[trigger] candidates@[j])@)
                    }
            },
            Err(e) => {
                &&& final(store)@ == old(store)@
                &&& match e {
                    UrlError::UrlExisted(u) => u@ == url@ && has_url(old(store)@, url@),
                    UrlError::TooManyCollisions => {
                        &&& candidates@.len() >= 1 ==> !has_url(old(store)@, url@)
                        &&& forall|j: int|
                            0 <= j < candidates@.len() ==> has_id(
                                old(store)@,
                                (#[trigger] candidates@[j])@,
                            )
                    },
                    _ => false,
                }
            },
        },
{
    let n = candidates.len();
    let mut k: usize = 0;
    while k < n
        invariant
            store.wf(),
            store@ == old(store)@,
            n == candidates@.len(),
            k <= n,
            forall|j: int| 0 <= j < k ==> has_id(old(store)@, (#[trigger] candidates@[j])@),
            k > 0 ==> !has_url(old(store)@, url@),
        decreases n - k,
    {
        let id = candidates[k].clone();
        match store.insert(id, url.clone()) {
            Ok(l) => {
                proof {
                    assert(0 <= k < candidates@.len() && l.id@ == candidates@[k as int]@);
                }
                return Ok(l);
            },
            Err(InsertConflict::UrlExists) => {
                return Err(UrlError::UrlExisted(url));
            },
            Err(InsertConflict::IdCollision) => {},
        }
        k = k + 1;
    }
    Err(UrlError::TooManyCollisions)
}

/// Redirect service: resolve an identifier to its long URL and count the
/// redirect, in one atomic store operation. Succeeds exactly when the
/// identifier exists; an unknown identifier is terminal and reported as-is.
pub fn resolve(store: &mut LinkStore, id: &String) -> (r: Result<String, UrlError>)
    requires
        old(store).wf(),
        has_id(old(store)@, id@) ==> clicks_of(old(store)@, id@) < u64::MAX,
    ensures
        final(store).wf(),
        match r {
            Ok(u) => increments_click(old(store)@, final(store)@, id@) && u@ == url_of(
                old(store)@,
                id@,
            ),
            Err(e) => {
                &&& e matches UrlError::UrlNotFound(i) && i@ == id@
                &&& !has_id(old(store)@, id@)
                &&& final(store)@ == old(store)@
            },
        },
{
    store.fetch_and_increment(id)
}

/// A chain of successful shortenings: each state is the previous one with
/// the next allocated link appended.
pub open spec fn shorten_chain(states: Seq<Seq<Link>>, links: Seq<Link>) -> bool {
    &&& states.len() == links.len() + 1
    &&& forall|k: int|
        0 <= k < links.len() ==> shorten_ok(states[k], states[k + 1], #[trigger] links[k], links[k].url@)
}

/// Law: along any chain of successful shortenings over a well-formed store
/// no insert is lost and no identifier or long URL is reused — every
/// allocated link is present in the final state with zero clicks, the
/// allocated identifiers and URLs are pairwise distinct, and the final state
/// keeps both uniqueness invariants, so each allocated identifier names
/// exactly one row.
pub proof fn lemma_all_inserts_kept_distinct(states: Seq<Seq<Link>>, links: Seq<Link>)
    requires
        shorten_chain(states, links),
        ids_unique(states[0]),
        urls_unique(states[0]),
    ensures
        ids_unique(states.last()),
        urls_unique(states.last()),
        forall|a: int|
            0 <= a < links.len() ==> states.last().contains(#[trigger] links[a])
                && links[a].clicks == 0,
        forall|a: int, b: int|
            0 <= a < b < links.len() ==> (#[trigger] links[a]).id@ != (#[trigger] links[b]).id@
                && links[a].url@ != links[b].url@,
    decreases links.len(),
{
    if links.len() == 0 {
    } else {
        let n = links.len() as int;
        let head_states = states.subrange(0, n);
        let head_links = links.subrange(0, n - 1);
        assert forall|k: int| 0 <= k < head_links.len() implies shorten_ok(
            head_states[k],
            head_states[k + 1],
            #[trigger] head_links[k],
            head_links[k].url@,
        ) by {
            assert(head_states[k] == states[k]);
            assert(head_states[k + 1] == states[k + 1]);
            assert(head_links[k] == links[k]);
            assert(shorten_ok(states[k], states[k + 1], links[k], links[k].url@));
        }
        assert(head_states[0] == states[0]);
        lemma_all_inserts_kept_distinct(head_states, head_links);
        let prev = states[n - 1];
        let last = states[n];
        assert(head_states.last() == prev);
        assert(shorten_ok(prev, last, links[n - 1], links[n - 1].url@));
        assert(last[prev.len() as int] == links[n - 1]);
        assert(states.last() == last);
        assert forall|a: int, b: int| 0 <= a < b < last.len() implies (#[trigger] last[a]).id@
            != (#[trigger] last[b]).id@ by {
            if b < prev.len() {
                assert(prev[a].id@ != prev[b].id@);
            } else {
                assert(last[b].id@ == links[n - 1].id@);
                if last[a].id@ == links[n - 1].id@ {
                    assert(has_id(prev, links[n - 1].id@));
                }
            }
        }
        assert forall|a: int, b: int| 0 <= a < b < last.len() implies (#[trigger] last[a]).url@
            != (#[trigger] last[b]).url@ by {
            if b < prev.len() {
                assert(prev[a].url@ != prev[b].url@);
            } else {
                assert(last[b].url@ == links[n - 1].url@);
                if last[a].url@ == links[n - 1].url@ {
                    assert(has_url(prev, links[n - 1].url@));
                }
            }
        }
        assert forall|a: int| 0 <= a < links.len() implies states.last().contains(
            #[trigger] links[a],
        ) && links[a].clicks == 0 by {
            assert(shorten_ok(states[a], states[a + 1], links[a], links[a].url@));
            if a < n - 1 {
                assert(head_links[a] == links[a]);
                assert(prev.contains(links[a]));
                let i = choose|i: int| 0 <= i < prev.len() && prev[i] == links[a];
                assert(last[i] == links[a]);
            }
            assert(last.contains(links[a]));
        }
        assert forall|a: int, b: int| 0 <= a < b < links.len() implies (#[trigger] links[a]).id@
            != (#[trigger] links[b]).id@ && links[a].url@ != links[b].url@ by {
            if b < n - 1 {
                assert(head_links[a] == links[a] && head_links[b] == links[b]);
            } else {
                assert(head_links[a] == links[a]);
                assert(prev.contains(links[a]));
                let i = choose|i: int| 0 <= i < prev.len() && prev[i] == links[a];
                if links[a].id@ == links[b].id@ {
                    assert(has_id(prev, links[b].id@));
                }
                if links[a].url@ == links[b].url@ {
                    assert(has_url(prev, links[b].url@));
                }
            }
        }
    }
}

/// Law: a long URL is shortened at most once — after a successful
/// shortening the store carries the URL, and no later shortening of the same
/// URL can succeed again, so a resubmission creates no second link.
pub proof fn lemma_duplicate_url_conflicts(pre: Seq<Link>, mid: Seq<Link>, l: Link, url: Seq<char>)
    requires
        shorten_ok(pre, mid, l, url),
    ensures
        has_url(mid, url),
        forall|post: Seq<Link>, l2: Link| !(#[trigger] shorten_ok(mid, post, l2, url)),
{
    assert(mid[pre.len() as int] == l);
    assert(has_url(mid, url));
}

/// Law: the read path changes nothing but the counter — a successful
/// redirect step leaves every identifier and every long URL as it was and
/// raises the matched link's click count by exactly one, so repeated
/// redirects of one identifier always return the same long URL.
pub proof fn lemma_redirect_changes_only_clicks(pre: Seq<Link>, post: Seq<Link>, id: Seq<char>)
    requires
        ids_unique(pre),
        increments_click(pre, post, id),
    ensures
        ids_unique(post),
        has_id(post, id),
        clicks_of(post, id) == clicks_of(pre, id) + 1,
        url_of(post, id) == url_of(pre, id),
        post.len() == pre.len(),
        forall|j: int|
            0 <= j < pre.len() ==> (#[trigger] post[j]).id@ == pre[j].id@ && post[j].url@
                == pre[j].url@,
        forall|j: int| 0 <= j < pre.len() && j != id_index(pre, id) ==> #[trigger] post[j] == pre[j],
{
    let i = id_index(pre, id);
    assert(0 <= i < pre.len() && pre[i].id@ == id);
    assert forall|a: int, b: int| 0 <= a < b < post.len() implies (#[trigger] post[a]).id@
        != (#[trigger] post[b]).id@ by {
        assert(post[a].id@ == pre[a].id@ && post[b].id@ == pre[b].id@);
    }
    assert(post[i].id@ == id);
    lemma_id_index_unique(post, id, i);
}

/// Law: redirects are counted exactly — along a chain of states each related
/// to the next by one successful redirect of the same identifier, the final
/// click count is the initial count plus the number of steps, no step lost,
/// and the identifier keeps its long URL throughout.
pub proof fn lemma_counts_every_redirect(states: Seq<Seq<Link>>, id: Seq<char>)
    requires
        states.len() >= 1,
        ids_unique(states[0]),
        forall|k: int|
            0 <= k < states.len() - 1 ==> increments_click(#[trigger] states[k], states[k + 1], id),
    ensures
        ids_unique(states.last()),
        clicks_of(states.last(), id) == clicks_of(states[0], id) + states.len() - 1,
        states.len() >= 2 ==> has_id(states.last(), id) && url_of(states.last(), id) == url_of(
            states[0],
            id,
        ),
    decreases states.len(),
{
    if states.len() == 1 {
        assert(states.last() == states[0]);
    } else {
        assert(increments_click(states[0], states[1], id));
        lemma_redirect_changes_only_clicks(states[0], states[1], id);
        let rest = states.subrange(1, states.len() as int);
        assert(rest[0] == states[1]);
        assert(rest.last() == states.last());
        assert forall|k: int| 0 <= k < rest.len() - 1 implies increments_click(
            #[trigger] rest[k],
            rest[k + 1],
            id,
        ) by {
            assert(rest[k] == states[k + 1]);
            assert(rest[k + 1] == states[k + 2]);
            assert(increments_click(states[k + 1], states[k + 2], id));
        }
        lemma_counts_every_redirect(rest, id);
        if states.len() == 2 {
            assert(states.last() == states[1]);
        }
    }
}

/// Law: round trip — a successful shortening followed by a redirect of the
/// allocated identifier returns exactly the submitted long URL and moves its
/// click count from zero to one.
pub proof fn lemma_round_trip(
    pre: Seq<Link>,
    mid: Seq<Link>,
    post: Seq<Link>,
    l: Link,
    url: Seq<char>,
)
    requires
        ids_unique(pre),
        shorten_ok(pre, mid, l, url),
        increments_click(mid, post, l.id@),
    ensures
        url_of(mid, l.id@) == url,
        clicks_of(mid, l.id@) == 0,
        url_of(post, l.id@) == url,
        clicks_of(post, l.id@) == 1,
{
    assert(mid[pre.len() as int] == l);
    assert forall|a: int, b: int| 0 <= a < b < mid.len() implies (#[trigger] mid[a]).id@
        != (#[trigger] mid[b]).id@ by {
        if b < pre.len() {
            assert(pre[a].id@ != pre[b].id@);
        } else {
            assert(mid[b].id@ == l.id@);
            if mid[a].id@ == l.id@ {
                assert(has_id(pre, l.id@));
            }
        }
    }
    lemma_id_index_unique(mid, l.id@, pre.len() as int);
    lemma_redirect_changes_only_clicks(mid, post, l.id@);
}

} // verus!
