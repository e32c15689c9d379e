use vstd::prelude::*;

verus! {

/// A persisted shortlink: a short identifier, the long URL it stands for,
/// and the number of successful redirects through it.
#[derive(Debug)]
pub struct Link {
    pub id: String,
    pub url: String,
    pub clicks: u64,
}

/// The same link after one successful redirect: identifier and URL are
/// immutable, only the click counter moves, by exactly one.
pub open spec fn bumped(l: Link) -> Link {
    Link { id: l.id, url: l.url, clicks: (l.clicks + 1) as u64 }
}

} // verus!
