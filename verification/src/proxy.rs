//! The reverse-proxy forwarder's logic: outbound URL reconstruction,
//! query extraction, path segmentation for the diagnostic trie, and the
//! response assembled from what the upstream answered.
//!
//! The network call itself happens in the serving layer; everything it
//! needs and everything it hands back goes through the plain values here.

use vstd::prelude::*;
use vstd::string::StrSliceExecFns;
use vstd::string::StringExecFns;
use crate::uri::{parse_url_normalized, url_normalized};

verus! {

/// What can go wrong while forwarding one request.
#[derive(Clone, Debug)]
pub enum ProxyError {
    /// The reconstructed outbound URL does not parse; carries the text.
    InvalidReconstructedUrl(String),
    /// The upstream did not answer; carries the transport diagnostic.
    UpstreamUnreachable(String),
}

impl ProxyError {
    /// A human-readable description for the 500 response body.
    pub fn message(&self) -> (r: String)
        ensures
            self matches ProxyError::InvalidReconstructedUrl(url) ==> r@
                == "Reconstructing target uri "@ + url@,
            self matches ProxyError::UpstreamUnreachable(detail) ==> r@
                == "Sending request/receiving response from upstream: "@ + detail@,
    {
        match self {
            ProxyError::InvalidReconstructedUrl(url) => {
                let mut s = String::from_str("Reconstructing target uri ");
                s.append(url.as_str());
                s
            },
            ProxyError::UpstreamUnreachable(detail) => {
                let mut s = String::from_str("Sending request/receiving response from upstream: ");
                s.append(detail.as_str());
                s
            },
        }
    }
}

/// The query component of a request target: the text after the first `?`,
/// if any.
pub open spec fn spec_query_of(s: Seq<char>) -> Option<Seq<char>>
    decreases s.len(),
{
    if s.len() == 0 {
        None
    } else if s[0] == '?' {
        Some(s.drop_first())
    } else {
        spec_query_of(s.drop_first())
    }
}

/// The query suffix glued back onto an outbound URL: `?query`, or nothing.
pub open spec fn spec_query_suffix(s: Seq<char>) -> Seq<char> {
    match spec_query_of(s) {
        Some(q) => "?"@ + q,
        None => Seq::empty(),
    }
}

/// Extracts the query component of a request target.
pub fn query_of_uri(uri: &str) -> (r: Option<String>)
    ensures
        match r {
            Some(q) => spec_query_of(uri@) == Some(q@),
            None => spec_query_of(uri@) is None,
        },
{
    let n = uri.unicode_len();
    let mut k: usize = 0;
    proof {
        assert(uri@.skip(0) =~= uri@);
    }
    while k < n
        invariant
            n == uri@.len(),
            0 <= k <= n,
            spec_query_of(uri@) == spec_query_of(uri@.skip(k as int)),
        decreases n - k,
    {
        proof {
            assert(uri@.skip(k as int)[0] == uri@[k as int]);
            assert(uri@.skip(k as int).drop_first() =~= uri@.skip(k + 1 as int));
        }
        if uri.get_char(k) == '?' {
            let q = uri.substring_char(k + 1, n);
            return Some(q.to_owned());
        }
        k = k + 1;
    }
    proof {
        assert(uri@.skip(n as int).len() == 0);
    }
    None
}

/// The outbound URL text: upstream base, then the trailing path, then the
/// request's query suffix.
pub fn build_outbound_url(target_url: &String, target_path: &String, request_uri: &String) -> (r:
    String)
    ensures
        r@ == target_url@ + target_path@ + spec_query_suffix(request_uri@),
{
    let mut url = target_url.clone();
    url.append(target_path.as_str());
    match query_of_uri(request_uri.as_str()) {
        Some(q) => {
            url.append("?");
            url.append(q.as_str());
            proof {
                assert(target_url@ + target_path@ + ("?"@ + q@) =~= target_url@ + target_path@
                    + "?"@ + q@);
            }
        },
        None => {
            proof {
                assert(target_url@ + target_path@ + Seq::<char>::empty() =~= target_url@
                    + target_path@);
            }
        },
    }
    url
}

/// Reconstructs and checks the outbound URL for one forwarded request:
/// base + trailing path + query, which must parse as an absolute URL.
pub fn reconstruct_target_url(
    target_url: &String,
    target_path: &String,
    request_uri: &String,
) -> (r: Result<String, ProxyError>)
    ensures
        ({
            let built = target_url@ + target_path@ + spec_query_suffix(request_uri@);
            match r {
                Ok(u) => Some(u@) == url_normalized(built),
                Err(e) => url_normalized(built) is None && (e matches
                    ProxyError::InvalidReconstructedUrl(t) && t@ == built),
            }
        }),
{
    let built = build_outbound_url(target_url, target_path, request_uri);
    match parse_url_normalized(built.as_str()) {
        Some(u) => Ok(u),
        None => Err(ProxyError::InvalidReconstructedUrl(built)),
    }
}

/// Splits a trailing path into the segments the diagnostic trie records:
/// the pieces between `/` separators, empty pieces included.
pub fn split_segments(path: &str) -> (r: Vec<String>)
    ensures
        r.deep_view() == spec_split(path@),
{
    let n = path.unicode_len();
    let mut out: Vec<String> = Vec::new();
    let mut start: usize = 0;
    let mut k: usize = 0;
    proof {
        assert(path@.skip(0) =~= path@);
        assert(out.deep_view() =~= Seq::<Seq<char>>::empty());
        assert(Seq::<Seq<char>>::empty() + spec_split_from(path@, 0, 0) =~= spec_split_from(
            path@,
            0,
            0,
        ));
    }
    while k < n
        invariant
            n == path@.len(),
            0 <= start <= k <= n,
            forall|i: int| start <= i < k ==> path@[i] != '/',
            spec_split(path@) == out.deep_view() + spec_split_from(path@, start as int, k as int),
        decreases n - k,
    {
        if path.get_char(k) == '/' {
            let seg = path.substring_char(start, k);
            let ghost out0 = out.deep_view();
            out.push(seg.to_owned());
            proof {
                assert(out.deep_view() =~= out0.push(path@.subrange(start as int, k as int)));
                lemma_split_from_sep(path@, start as int, k as int);
                assert(out.deep_view() + spec_split_from(path@, k + 1 as int, k + 1 as int)
                    =~= out0.push(path@.subrange(start as int, k as int)) + spec_split_from(
                    path@,
                    k + 1 as int,
                    k + 1 as int,
                ));
                assert(out0 + (seq![path@.subrange(start as int, k as int)] + spec_split_from(
                    path@,
                    k + 1 as int,
                    k + 1 as int,
                )) =~= out0.push(path@.subrange(start as int, k as int)) + spec_split_from(
                    path@,
                    k + 1 as int,
                    k + 1 as int,
                ));
            }
            start = k + 1;
        } else {
            proof {
                lemma_split_from_grow(path@, start as int, k as int);
            }
        }
        k = k + 1;
    }
    let last = path.substring_char(start, n);
    let ghost out0 = out.deep_view();
    out.push(last.to_owned());
    proof {
        lemma_split_from_end(path@, start as int);
        assert(out.deep_view() =~= out0.push(path@.subrange(start as int, n as int)));
        assert(out0 + seq![path@.subrange(start as int, path@.len() as int)] =~= out0.push(
            path@.subrange(start as int, n as int),
        ));
    }
    out
}

/// The segments of `s` split on `/`, empty pieces included: splitting the
/// empty text gives one empty segment, as the splitter reports it.
pub open spec fn spec_split(s: Seq<char>) -> Seq<Seq<char>> {
    spec_split_from(s, 0, 0)
}

/// The segments of `s[from..]`, where the current segment began at
/// `start <= from` and holds no separator so far.
pub open spec fn spec_split_from(s: Seq<char>, start: int, from: int) -> Seq<Seq<char>>
    decreases s.len() - from,
{
    if !(0 <= start <= from <= s.len()) {
        Seq::empty()
    } else if from == s.len() {
        seq![s.subrange(start, s.len() as int)]
    } else if s[from] == '/' {
        seq![s.subrange(start, from)] + spec_split_from(s, from + 1, from + 1)
    } else {
        spec_split_from(s, start, from + 1)
    }
}

/// Scanning past a non-separator leaves the split unchanged.
proof fn lemma_split_from_grow(s: Seq<char>, start: int, from: int)
    requires
        0 <= start <= from < s.len(),
        s[from] != '/',
    ensures
        spec_split_from(s, start, from) == spec_split_from(s, start, from + 1),
{
}

/// Hitting a separator emits the pending segment.
proof fn lemma_split_from_sep(s: Seq<char>, start: int, from: int)
    requires
        0 <= start <= from < s.len(),
        s[from] == '/',
    ensures
        spec_split_from(s, start, from) == seq![s.subrange(start, from)] + spec_split_from(
            s,
            from + 1,
            from + 1,
        ),
{
}

/// Reaching the end emits the pending segment, alone.
proof fn lemma_split_from_end(s: Seq<char>, start: int)
    requires
        0 <= start <= s.len(),
    ensures
        spec_split_from(s, start, s.len() as int) == seq![s.subrange(start, s.len() as int)],
{
}

/// What the serving layer sends back for one forwarded request: the
/// upstream's status and body verbatim, and its content type where it
/// sent one, `text/plain` otherwise.
#[derive(Debug)]
pub struct UpstreamResponseParts {
    pub status: u16,
    pub content_type: String,
    pub body: Vec<u8>,
}

/// Assembles the response for one forwarded request from what the
/// upstream answered.
pub fn upstream_response(status: u16, content_type: Option<String>, body: Vec<u8>) -> (r:
    UpstreamResponseParts)
    ensures
        r.status == status,
        r.body@ == body@,
        r.content_type@ == (match content_type {
            Some(c) => c@,
            None => "text/plain"@,
        }),
{
    let ct = match content_type {
        Some(c) => c,
        None => String::from_str("text/plain"),
    };
    UpstreamResponseParts { status, content_type: ct, body }
}

} // verus!
