use vstd::prelude::*;

verus! {

/// Length of every generated identifier, in characters.
pub const ID_LEN: usize = 6;

/// Characters of the URL-safe alphabet the generator draws from:
/// underscore, hyphen, digits, and ASCII letters of both cases.
pub open spec fn is_id_char(c: char) -> bool {
    ||| c == '_'
    ||| c == '-'
    ||| '0' <= c && c <= '9'
    ||| 'a' <= c && c <= 'z'
    ||| 'A' <= c && c <= 'Z'
}

/// A well-formed identifier: exactly `ID_LEN` characters, all from the
/// URL-safe alphabet.
pub open spec fn valid_id(s: Seq<char>) -> bool {
    &&& s.len() == ID_LEN
    &&& forall|i: int| 0 <= i < s.len() ==> is_id_char(#[trigger] s[i])
}

/// Relies on `nanoid::format` with `nanoid::rngs::default` and nanoid's
/// URL-safe alphabet (`_`, `-`, `0-9`, `a-z`, `A-Z`, 64 symbols): it returns a
/// randomly drawn string of exactly the requested number of characters, each
/// taken from that alphabet. The result is random, so nothing more than its
/// shape is promised; uniqueness is enforced by the store, not here.
#[verifier::external_body]
pub(crate) fn generate_id() -> (r: String)
    ensures
        valid_id(r@),
{
    nanoid::format(nanoid::rngs::default, &nanoid::alphabet::SAFE, ID_LEN)
}

} // verus!
