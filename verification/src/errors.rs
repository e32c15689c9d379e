use vstd::prelude::*;

verus! {

/// Error taxonomy of the shortener core. Identifier collisions are recovered
/// inside the shortening service and never surface here.
#[derive(Debug)]
pub enum UrlError {
    /// The underlying storage failed; the payload describes the failure.
    Storage(String),
    /// The long URL was already shortened once; it may not be shortened again.
    UrlExisted(String),
    /// No link with the requested identifier exists.
    UrlNotFound(String),
    /// Identifier allocation gave up after a bounded number of collisions.
    TooManyCollisions,
}

impl UrlError {
    /// The HTTP status this error is reported with: storage failures and
    /// allocation exhaustion are server errors, a duplicate URL is
    /// unprocessable, an unknown identifier is not found.
    pub open spec fn spec_status_code(&self) -> u16 {
        match self {
            UrlError::Storage(_) => 500,
            UrlError::UrlExisted(_) => 422,
            UrlError::UrlNotFound(_) => 404,
            UrlError::TooManyCollisions => 500,
        }
    }

    pub fn status_code(&self) -> (r: u16)
        ensures
            r == self.spec_status_code(),
    {
        match self {
            UrlError::Storage(_) => 500,
            UrlError::UrlExisted(_) => 422,
            UrlError::UrlNotFound(_) => 404,
            UrlError::TooManyCollisions => 500,
        }
    }

    /// The description used in the error envelope sent to clients.
    pub open spec fn spec_message(&self) -> Seq<char> {
        match self {
            UrlError::Storage(d) => "sql error: "@ + d@,
            UrlError::UrlExisted(u) => "url already existed: "@ + u@,
            UrlError::UrlNotFound(i) => "url not found: "@ + i@,
            UrlError::TooManyCollisions => "too many identifier collisions"@,
        }
    }

    pub fn message(&self) -> (r: String)
        ensures
            r@ == self.spec_message(),
    {
        let mut m = String::new();
        match self {
            UrlError::Storage(d) => {
                m.append("sql error: ");
                m.append(d.as_str());
            },
            UrlError::UrlExisted(u) => {
                m.append("url already existed: ");
                m.append(u.as_str());
            },
            UrlError::UrlNotFound(i) => {
                m.append("url not found: ");
                m.append(i.as_str());
            },
            UrlError::TooManyCollisions => {
                m.append("too many identifier collisions");
            },
        }
        proof {
            assert(m@ =~= self.spec_message());
        }
        m
    }
}

/// Which uniqueness constraint a storage-level violation names.
#[derive(Clone, Copy, Debug, PartialEq, Eq)]
pub enum DbConflict {
    /// The identifier (primary key) is already taken: retry with a fresh one.
    IdTaken,
    /// The long URL is already shortened: a semantic conflict, not retried.
    UrlTaken,
    /// Anything else: a generic storage failure.
    Other,
}

/// Whether an error code is the SQLSTATE for a uniqueness violation.
pub open spec fn is_unique_violation(code: Option<String>) -> bool {
    match code {
        Some(c) => c@ == "23505"@,
        None => false,
    }
}

/// Whether a reported constraint is exactly the one called `name`.
pub open spec fn names_constraint(constraint: Option<String>, name: Seq<char>) -> bool {
    match constraint {
        Some(k) => k@ == name,
        None => false,
    }
}

/// Decision kernel for insert-time storage errors: a uniqueness violation
/// (SQLSTATE 23505) on the identifier's primary-key constraint `urls_pkey`
/// calls for a retry with a fresh identifier, one on the long URL's unique
/// constraint `urls_url_key` is a semantic conflict, and everything else is a
/// plain storage failure.
pub fn classify_db_conflict(code: &Option<String>, constraint: &Option<String>) -> (r: DbConflict)
    ensures
        (r == DbConflict::IdTaken) <==> (is_unique_violation(*code) && names_constraint(
            *constraint,
            "urls_pkey"@,
        )),
        (r == DbConflict::UrlTaken) <==> (is_unique_violation(*code) && names_constraint(
            *constraint,
            "urls_url_key"@,
        )),
{
    let mut unique_code = String::new();
    unique_code.append("23505");
    let is_uv = match code {
        Some(c) => *c == unique_code,
        None => false,
    };
    proof {
        assert(unique_code@ =~= "23505"@);
    }
    if !is_uv {
        return DbConflict::Other;
    }
    let mut pkey = String::new();
    pkey.append("urls_pkey");
    let mut url_key = String::new();
    url_key.append("urls_url_key");
    proof {
        assert(pkey@ =~= "urls_pkey"@);
        assert(url_key@ =~= "urls_url_key"@);
        // The two constraint names differ, so at most one branch below fits.
        reveal_strlit("urls_pkey");
        reveal_strlit("urls_url_key");
    }
    match constraint {
        Some(k) => {
            if *k == pkey {
                DbConflict::IdTaken
            } else if *k == url_key {
                DbConflict::UrlTaken
            } else {
                DbConflict::Other
            }
        },
        None => DbConflict::Other,
    }
}

} // verus!
