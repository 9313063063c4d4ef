//! The delegated-helper protocol of the privileged account gateway: the
//! request lines the broker writes to the helper channel and the reading of
//! the helper's answer.
//!
//! The channel itself is plain file I/O and lives with the caller; what
//! stands here is every decision: how a request is spelled, and that exactly
//! the trimmed token `SUCCESS` counts as success.

use crate::broker::GatewayError;
use vstd::prelude::*;
use vstd::string::{StrSliceExecFns, StringExecFns};

verus! {

/// The whitespace characters stripped from a helper answer.
pub open spec fn is_ws(c: char) -> bool {
    c == ' ' || c == '\t' || c == '\r' || c == '\n'
}

pub open spec fn drop_leading_ws(s: Seq<char>) -> Seq<char>
    decreases s.len(),
{
    if s.len() > 0 && is_ws(s.first()) {
        drop_leading_ws(s.drop_first())
    } else {
        s
    }
}

pub open spec fn drop_trailing_ws(s: Seq<char>) -> Seq<char>
    decreases s.len(),
{
    if s.len() > 0 && is_ws(s.last()) {
        drop_trailing_ws(s.drop_last())
    } else {
        s
    }
}

/// A helper answer with surrounding whitespace stripped.
pub open spec fn spec_trim(s: Seq<char>) -> Seq<char> {
    drop_trailing_ws(drop_leading_ws(s))
}

fn is_ws_char(c: char) -> (r: bool)
    ensures
        r == is_ws(c),
{
    c == ' ' || c == '\t' || c == '\r' || c == '\n'
}

/// Strip leading and trailing whitespace from a helper answer.
pub fn trim_answer(s: &str) -> (r: &str)
    ensures
        r@ == spec_trim(s@),
{
    let mut t: &str = s;
    let mut n = t.unicode_len();
    loop
        invariant
            n == t@.len(),
            drop_leading_ws(t@) == drop_leading_ws(s@),
        ensures
            n == t@.len(),
            t@ == drop_leading_ws(s@),
        decreases n,
    {
        if n > 0 && is_ws_char(t.get_char(0)) {
            let t2 = t.substring_char(1, n);
            proof {
                assert(t2@ =~= t@.drop_first());
            }
            t = t2;
            n = n - 1;
        } else {
            break ;
        }
    }
    let ghost led = t@;
    loop
        invariant
            n == t@.len(),
            drop_trailing_ws(t@) == drop_trailing_ws(led),
        ensures
            t@ == drop_trailing_ws(led),
        decreases n,
    {
        if n > 0 && is_ws_char(t.get_char(n - 1)) {
            let t2 = t.substring_char(0, n - 1);
            proof {
                assert(t2@ =~= t@.drop_last());
            }
            t = t2;
            n = n - 1;
        } else {
            break ;
        }
    }
    t
}

/// The request line that asks the helper to create an account:
/// `create|<username>|<secret>`.
pub fn format_create_request(username: &str, secret: &str) -> (r: String)
    ensures
        r@ == "create|"@ + username@ + "|"@ + secret@,
{
    let mut out = String::from_str("create|");
    out.append(username);
    out.append("|");
    out.append(secret);
    proof {
        assert(out@ =~= "create|"@ + username@ + "|"@ + secret@);
    }
    out
}

/// The request line that asks the helper to remove an account:
/// `remove|<username>`.
pub fn format_remove_request(username: &str) -> (r: String)
    ensures
        r@ == "remove|"@ + username@,
{
    let mut out = String::from_str("remove|");
    out.append(username);
    out
}

/// Read the helper's answer: exactly the trimmed token `SUCCESS` counts as
/// success; any other text is a failure carrying that text.
pub fn interpret_helper_answer(answer: &str) -> (r: Result<(), GatewayError>)
    ensures
        r is Ok <==> spec_trim(answer@) == "SUCCESS"@,
        r matches Err(e) ==> (match e {
            GatewayError::ServiceError(m) => m@ == spec_trim(answer@),
            _ => false,
        }),
{
    let t = trim_answer(answer);
    let owned: String = t.to_owned();
    let token: String = String::from_str("SUCCESS");
    proof {
        reveal_strlit("SUCCESS");
    }
    if owned == token {
        Ok(())
    } else {
        Err(GatewayError::ServiceError(owned))
    }
}

} // verus!
