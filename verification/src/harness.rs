//! Support for the interactive configuration test harness: which parts of
//! the configuration to exercise, and the masking applied before any
//! credential is printed.

use vstd::prelude::*;
use vstd::string::*;

verus! {

/// What the configuration test harness exercises.
#[derive(Clone)]
pub enum TestMode {
    /// Every configured provider, one request each.
    All,
    /// Gateway rotation only, with repeated requests.
    Gateway,
    /// One named provider.
    Provider(String),
}

/// A masked credential: fully starred when no longer than `limit`
/// characters, otherwise its first `head` and last `tail` characters
/// around a literal ellipsis.
pub open spec fn spec_masked(s: Seq<char>, head: int, tail: int, limit: int) -> Seq<char>
    recommends
        0 <= head,
        0 <= tail,
        head + tail <= limit,
{
    if s.len() <= limit {
        Seq::new(s.len(), |i: int| '*')
    } else {
        s.take(head) + "..."@ + s.skip(s.len() - tail)
    }
}

fn stars(n: usize) -> (r: String)
    ensures
        r@ == Seq::new(n as nat, |i: int| '*'),
{
    let mut out = String::new();
    let mut i: usize = 0;
    while i < n
        invariant
            i <= n,
            out@.len() == i,
            forall|j: int| 0 <= j < i ==> out@[j] == '*',
        decreases n - i,
    {
        proof {
            reveal_strlit("*");
        }
        out.append("*");
        i = i + 1;
    }
    proof {
        assert(out@ =~= Seq::new(n as nat, |i: int| '*'));
    }
    out
}

/// Mask a string for display: at most eight characters become all stars,
/// a longer one shows only its first and last four characters.
pub fn mask_string(s: &str) -> (r: String)
    ensures
        r@ == spec_masked(s@, 4, 4, 8),
{
    let len = s.unicode_len();
    if len <= 8 {
        stars(len)
    } else {
        let mut out = String::from_str(s.substring_char(0, 4));
        out.append("...");
        out.append(s.substring_char(len - 4, len));
        proof {
            assert(s@.subrange(0, 4) =~= s@.take(4));
            assert(s@.subrange(len - 4, len as int) =~= s@.skip(s@.len() - 4));
        }
        out
    }
}

/// Mask an API key for display: at most ten characters become all stars,
/// a longer one shows only its first six and last four characters.
pub fn mask_api_key(key: &str) -> (r: String)
    ensures
        r@ == spec_masked(key@, 6, 4, 10),
{
    let len = key.unicode_len();
    if len <= 10 {
        stars(len)
    } else {
        let mut out = String::from_str(key.substring_char(0, 6));
        out.append("...");
        out.append(key.substring_char(len - 4, len));
        proof {
            assert(key@.subrange(0, 6) =~= key@.take(6));
            assert(key@.subrange(len - 4, len as int) =~= key@.skip(key@.len() - 4));
        }
        out
    }
}

} // verus!
