use vstd::prelude::*;

use crate::errors::UrlError;
use crate::idgen::valid_id;
use crate::link::Link;
use crate::service::{shorten, shorten_ok};
use crate::store::{has_url, LinkStore};

verus! {

/// HTTP status a freshly created shortlink is reported with.
pub const STATUS_CREATED: u16 = 201;

/// HTTP status of a redirect to the stored long URL.
pub const STATUS_PERMANENT_REDIRECT: u16 = 308;

/// Body of a create-shortlink request: the long URL to shorten.
pub struct ShortenReq {
    pub url: String,
}

/// Body of a successful create-shortlink response: the full short link and
/// the link's click count.
#[derive(Debug)]
pub struct ShortenRes {
    pub url: String,
    pub clicks: u64,
}

/// Error envelope returned to clients: a single message, with no internal
/// detail beyond it.
pub struct MyError {
    pub error: String,
}

/// The full short link: the configured base address with the identifier
/// appended.
pub fn short_link_url(base: &String, id: &String) -> (r: String)
    ensures
        r@ == base@ + id@,
{
    let mut r = base.clone();
    r.append(id.as_str());
    r
}

/// Compute path of the create-shortlink operation: shorten the submitted URL
/// and build the response body — the base address with the new identifier
/// appended, and the new link's click count, which starts at zero.
pub fn handle_shorten(store: &mut LinkStore, base: &String, req: ShortenReq) -> (r: Result<
    ShortenRes,
    UrlError,
>)
    requires
        old(store).wf(),
    ensures
        final(store).wf(),
        match r {
            Ok(res) => exists|l: Link|
                {
                    &&& #[trigger] shorten_ok(old(store)@, final(store)@, l, req.url@)
                    &&& valid_id(l.id@)
                    &&& res.url@ == base@ + l.id@
                    &&& res.clicks == l.clicks
                },
            Err(e) => {
                &&& final(store)@ == old(store)@
                &&& match e {
                    UrlError::UrlExisted(u) => u@ == req.url@ && has_url(old(store)@, req.url@),
                    UrlError::TooManyCollisions => {
                        &&& !has_url(old(store)@, req.url@)
                        &&& old(store)@.len() >= 1
                    },
                    _ => false,
                }
            },
        },
{
    match shorten(store, req.url) {
        Ok(l) => {
            let res = ShortenRes { url: short_link_url(base, &l.id), clicks: l.clicks };
            proof {
                assert(shorten_ok(old(store)@, store@, l, req.url@) && valid_id(l.id@) && res.url@
                    == base@ + l.id@ && res.clicks == l.clicks);
            }
            Ok(res)
        },
        Err(e) => Err(e),
    }
}

/// Error envelope of a failed operation: the HTTP status code and the
/// client-visible error body.
pub fn error_response(e: &UrlError) -> (r: (u16, MyError))
    ensures
        r.0 == e.spec_status_code(),
        r.1.error@ == e.spec_message(),
{
    (e.status_code(), MyError { error: e.message() })
}

} // verus!
