//! The graph store's service endpoint: written without surrounding whitespace or
//! trailing slashes, and only over HTTP or HTTPS.

use vstd::prelude::*;
use crate::errors::CustomError;
use crate::text::{char_is_whitespace, is_whitespace_char};

verus! {

/// A text without its leading whitespace.
pub open spec fn without_leading_whitespace(s: Seq<char>) -> Seq<char>
    decreases s.len(),
{
    if s.len() > 0 && is_whitespace_char(s[0]) {
        without_leading_whitespace(s.drop_first())
    } else {
        s
    }
}

/// A text without its trailing whitespace.
pub open spec fn without_trailing_whitespace(s: Seq<char>) -> Seq<char>
    decreases s.len(),
{
    if s.len() > 0 && is_whitespace_char(s.last()) {
        without_trailing_whitespace(s.drop_last())
    } else {
        s
    }
}

/// A text without its trailing slashes.
pub open spec fn without_trailing_slashes(s: Seq<char>) -> Seq<char>
    decreases s.len(),
{
    if s.len() > 0 && s.last() == '/' {
        without_trailing_slashes(s.drop_last())
    } else {
        s
    }
}

/// An endpoint as it is kept: trimmed of whitespace, then of trailing slashes.
pub open spec fn endpoint_text(s: Seq<char>) -> Seq<char> {
    without_trailing_slashes(without_trailing_whitespace(without_leading_whitespace(s)))
}

/// Whether a text starts with `prefix`.
pub open spec fn starts_with(s: Seq<char>, prefix: Seq<char>) -> bool {
    s.len() >= prefix.len() && s.subrange(0, prefix.len() as int) == prefix
}

/// Whether an endpoint is served over HTTP or HTTPS.
pub open spec fn is_http_endpoint(s: Seq<char>) -> bool {
    starts_with(s, "http://"@) || starts_with(s, "https://"@)
}

/// The message refusing an endpoint that is not served over HTTP or HTTPS.
pub open spec fn endpoint_scheme_message() -> Seq<char> {
    "Oxigraph service endpoint must start with http:// or https://"@
}

proof fn lemma_leading(s: Seq<char>, i: int)
    requires
        0 <= i <= s.len(),
        forall|j: int| 0 <= j < i ==> is_whitespace_char(#[trigger] s[j]),
    ensures
        without_leading_whitespace(s) == without_leading_whitespace(s.subrange(i, s.len() as int)),
    decreases i,
{
    if i > 0 {
        assert(s.drop_first() =~= s.subrange(1, s.len() as int));
        let t = s.drop_first();
        assert forall|j: int| 0 <= j < i - 1 implies is_whitespace_char(#[trigger] t[j]) by {
            assert(t[j] == s[j + 1]);
        }
        lemma_leading(t, i - 1);
        assert(t.subrange(i - 1, t.len() as int) =~= s.subrange(i, s.len() as int));
    } else {
        assert(s.subrange(0, s.len() as int) =~= s);
    }
}

proof fn lemma_trailing_ws(s: Seq<char>, k: int)
    requires
        0 <= k <= s.len(),
        forall|j: int| k <= j < s.len() ==> is_whitespace_char(#[trigger] s[j]),
    ensures
        without_trailing_whitespace(s) == without_trailing_whitespace(s.subrange(0, k)),
    decreases s.len() - k,
{
    if k < s.len() {
        let t = s.drop_last();
        assert forall|j: int| k <= j < t.len() implies is_whitespace_char(#[trigger] t[j]) by {
            assert(t[j] == s[j]);
        }
        lemma_trailing_ws(t, k);
        assert(t.subrange(0, k) =~= s.subrange(0, k));
    } else {
        assert(s.subrange(0, k) =~= s);
    }
}

proof fn lemma_trailing_slashes(s: Seq<char>, k: int)
    requires
        0 <= k <= s.len(),
        forall|j: int| k <= j < s.len() ==> #[trigger] s[j] == '/',
    ensures
        without_trailing_slashes(s) == without_trailing_slashes(s.subrange(0, k)),
    decreases s.len() - k,
{
    if k < s.len() {
        let t = s.drop_last();
        assert forall|j: int| k <= j < t.len() implies #[trigger] t[j] == '/' by {
            assert(t[j] == s[j]);
        }
        lemma_trailing_slashes(t, k);
        assert(t.subrange(0, k) =~= s.subrange(0, k));
    } else {
        assert(s.subrange(0, k) =~= s);
    }
}

fn has_prefix(s: &str, prefix: &str) -> (r: bool)
    ensures
        r == starts_with(s@, prefix@),
{
    let n = s.unicode_len();
    let m = prefix.unicode_len();
    if n < m {
        return false;
    }
    let mut i: usize = 0;
    while i < m
        invariant
            m == prefix@.len(),
            n == s@.len(),
            m <= n,
            i <= m,
            forall|j: int| 0 <= j < i ==> s@[j] == prefix@[j],
        decreases m - i,
    {
        if s.get_char(i) != prefix.get_char(i) {
            assert(s@.subrange(0, m as int)[i as int] != prefix@[i as int]);
            return false;
        }
        i = i + 1;
    }
    assert(s@.subrange(0, m as int) =~= prefix@);
    true
}

/// The service endpoint a graph store is reached at: `endpoint` trimmed of
/// surrounding whitespace and then of trailing slashes, refused unless it starts
/// with `http://` or `https://`.
pub fn graph_service_endpoint(endpoint: &str) -> (r: Result<String, CustomError>)
    ensures
        is_http_endpoint(endpoint_text(endpoint@)) ==> (r matches Ok(e) && e@ == endpoint_text(endpoint@)),
        !is_http_endpoint(endpoint_text(endpoint@)) ==> (r matches Err(CustomError::ConfigParseError(m)) && m@ == endpoint_scheme_message()),
{
    let n = endpoint.unicode_len();
    let mut start: usize = 0;
    while start < n && char_is_whitespace(endpoint.get_char(start))
        invariant
            n == endpoint@.len(),
            start <= n,
            forall|j: int| 0 <= j < start ==> is_whitespace_char(#[trigger] endpoint@[j]),
        decreases n - start,
    {
        start = start + 1;
    }
    proof {
        lemma_leading(endpoint@, start as int);
    }
    let ghost lead = endpoint@.subrange(start as int, n as int);
    let mut end: usize = n;
    while end > start && char_is_whitespace(endpoint.get_char(end - 1))
        invariant
            n == endpoint@.len(),
            start <= end <= n,
            forall|j: int| end <= j < n ==> is_whitespace_char(#[trigger] endpoint@[j]),
        decreases end,
    {
        end = end - 1;
    }
    proof {
        if start < n {
            assert(!is_whitespace_char(endpoint@[start as int]));
            assert(without_leading_whitespace(lead) == lead);
        } else {
            assert(lead.len() == 0);
            assert(without_leading_whitespace(lead) == lead);
        }
        assert forall|j: int| (end - start) as int <= j < lead.len() implies is_whitespace_char(#[trigger] lead[j]) by {
            assert(lead[j] == endpoint@[start + j]);
        }
        lemma_trailing_ws(lead, (end - start) as int);
        assert(lead.subrange(0, (end - start) as int) =~= endpoint@.subrange(start as int, end as int));
    }
    let ghost trimmed = endpoint@.subrange(start as int, end as int);
    proof {
        if end > start {
            assert(!is_whitespace_char(trimmed.last()));
        }
        assert(without_trailing_whitespace(trimmed) == trimmed);
    }
    let mut stop: usize = end;
    while stop > start && endpoint.get_char(stop - 1) == '/'
        invariant
            n == endpoint@.len(),
            start <= stop <= end,
            end <= n,
            forall|j: int| stop <= j < end ==> #[trigger] endpoint@[j] == '/',
        decreases stop,
    {
        stop = stop - 1;
    }
    proof {
        assert forall|j: int| (stop - start) as int <= j < trimmed.len() implies #[trigger] trimmed[j] == '/' by {
            assert(trimmed[j] == endpoint@[start + j]);
        }
        lemma_trailing_slashes(trimmed, (stop - start) as int);
        assert(trimmed.subrange(0, (stop - start) as int) =~= endpoint@.subrange(start as int, stop as int));
        let kept = endpoint@.subrange(start as int, stop as int);
        if stop > start {
            assert(kept.last() != '/');
        }
        assert(without_trailing_slashes(kept) == kept);
        assert(endpoint_text(endpoint@) == kept);
    }
    let kept = endpoint.substring_char(start, stop);
    proof {
        reveal_strlit("http://");
        reveal_strlit("https://");
    }
    if has_prefix(kept, "http://") || has_prefix(kept, "https://") {
        Ok(kept.to_string())
    } else {
        proof {
            reveal_strlit("Oxigraph service endpoint must start with http:// or https://");
        }
        Err(CustomError::ConfigParseError(String::from_str("Oxigraph service endpoint must start with http:// or https://")))
    }
}

} // verus!
