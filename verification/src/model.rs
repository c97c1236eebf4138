//! The immutable domain model: endpoints, rules, api sets, systems.
//!
//! Everything here is plain data.  HTTP methods, routes and upstream
//! addresses are kept as validated text; status codes as validated numbers.

use vstd::prelude::*;
use crate::status::StatusCode;
use crate::template::RuleBodyCore;

verus! {

/// An upper-case ASCII letter, the only characters an HTTP verb may use here.
pub open spec fn is_upper_alpha(c: char) -> bool {
    'A' <= c && c <= 'Z'
}

/// A method token: one or more upper-case ASCII letters.
pub open spec fn valid_method_text(s: Seq<char>) -> bool {
    &&& s.len() > 0
    &&& forall|i: int| 0 <= i < s.len() ==> is_upper_alpha(#[trigger] s[i])
}

/// A character a route may contain: printable ASCII, no space, no `#`.
pub open spec fn valid_route_char(c: char) -> bool {
    &&& '!' <= c && c <= '~'
    &&& c != '#'
}

/// A route: starts with `/`, every character printable ASCII without
/// spaces or `#`.  Path parameters (`:id`) and a query component (`?a=b`)
/// fit this grammar; control characters and whitespace do not.
pub open spec fn valid_route_text(s: Seq<char>) -> bool {
    &&& s.len() > 0
    &&& s[0] == '/'
    &&& forall|i: int| 0 <= i < s.len() ==> valid_route_char(#[trigger] s[i])
}

/// A reachable route: an HTTP verb plus a path pattern.
/// Equality is structural: same method text, same route text.
#[derive(Debug)]
pub struct EndpointCore {
    /// Path pattern, possibly with `:name` parameters and a query part.
    pub route: String,
    /// HTTP verb, upper-case.
    pub method: String,
}

impl Clone for EndpointCore {
    fn clone(&self) -> (r: Self)
        ensures
            r == *self,
    {
        EndpointCore { route: self.route.clone(), method: self.method.clone() }
    }
}

impl EndpointCore {
    pub open spec fn wf(self) -> bool {
        &&& valid_method_text(self.method@)
        &&& valid_route_text(self.route@)
    }

    /// Structural equality of endpoints.
    pub open spec fn spec_same(self, other: EndpointCore) -> bool {
        self.method@ == other.method@ && self.route@ == other.route@
    }

    pub fn same(&self, other: &EndpointCore) -> (r: bool)
        ensures
            r == self.spec_same(*other),
    {
        self.method == other.method && self.route == other.route
    }

    /// The endpoint written as `METHOD -> /path`, as diagnostics print it.
    pub fn display_string(&self) -> (r: String)
        ensures
            r@ == self.method@ + " -> "@ + self.route@,
    {
        let mut s = self.method.clone();
        s.append(" -> ");
        s.append(self.route.as_str());
        s
    }
}

/// How long to wait before answering: a fixed delay in milliseconds.
#[derive(Clone, Copy, Debug)]
pub enum LatencyCore {
    Constant(u32),
}

/// The header-and-URL part of a template's facet flags, for callers that
/// care only whether a rule reads the request line and headers (the body
/// flags live in `HasVariables`).
#[derive(Clone, Copy, Debug)]
pub struct RuleContentFeaturesCore {
    pub headers: bool,
    pub url_path: bool,
    pub url_query: bool,
}

impl RuleContentFeaturesCore {
    /// The reduction of a template's full facet flags.
    pub fn of_flags(flags: &crate::template::HasVariables) -> (r: RuleContentFeaturesCore)
        ensures
            r.headers == flags.has_headers,
            r.url_path == flags.has_url_path,
            r.url_query == flags.has_url_query,
    {
        RuleContentFeaturesCore {
            headers: flags.has_headers,
            url_path: flags.has_url_path,
            url_query: flags.has_url_query,
        }
    }
}

/// One configured response recipe bound to an endpoint.
#[derive(Clone, Debug)]
pub struct RuleCore {
    pub endpoint: EndpointCore,
    /// Header predicate inherited from the owning api group: header name
    /// to required exact value; empty means "match unconditionally".
    pub headers: Vec<(String, String)>,
    /// Effective latency: the rule's own override, else the group default.
    pub latency: Option<LatencyCore>,
    pub status: StatusCode,
    /// Content type sent back with the response.
    pub format: String,
    pub body: Option<RuleBodyCore>,
}

impl RuleCore {
    pub open spec fn wf(self) -> bool {
        &&& self.endpoint.wf()
        &&& self.status.wf()
    }
}

/// An ordered list of rules from one configuration unit, sharing one
/// header predicate and one default latency.
#[derive(Clone, Debug)]
pub struct ApiCore(pub Vec<RuleCore>);

impl ApiCore {
    pub open spec fn wf(self) -> bool {
        forall|i: int| 0 <= i < self.0@.len() ==> (#[trigger] self.0@[i]).wf()
    }
}

/// An upstream base address requests may be delegated to, kept in the
/// normalized text form its parser reported.
#[derive(Clone, Debug)]
pub struct ProxyCore(pub String);

/// A named collection of api groups with an optional shape contract and
/// an optional proxy target.
#[derive(Clone, Debug)]
pub struct ApiSetCore {
    pub name: String,
    pub shape: Option<Vec<EndpointCore>>,
    pub apis: Vec<ApiCore>,
    pub proxy: Option<ProxyCore>,
}

impl ApiSetCore {
    pub open spec fn wf(self) -> bool {
        forall|i: int| 0 <= i < self.apis@.len() ==> (#[trigger] self.apis@[i]).wf()
    }
}

/// The unnamed api set mounted at a system's base path.
#[derive(Clone, Debug)]
pub struct ApiSetRootCore {
    pub shape: Option<Vec<EndpointCore>>,
    pub apis: Vec<ApiCore>,
    pub proxy: Option<ProxyCore>,
}

impl ApiSetRootCore {
    pub open spec fn wf(self) -> bool {
        forall|i: int| 0 <= i < self.apis@.len() ==> (#[trigger] self.apis@[i]).wf()
    }
}

/// One mocked system: a root api set plus named api sets.
#[derive(Clone, Debug)]
pub struct SystemCore {
    pub name: String,
    pub root_api_set: ApiSetRootCore,
    pub api_sets: Vec<ApiSetCore>,
}

impl SystemCore {
    pub open spec fn wf(self) -> bool {
        &&& self.root_api_set.wf()
        &&& forall|i: int| 0 <= i < self.api_sets@.len() ==> (#[trigger] self.api_sets@[i]).wf()
    }
}

/// The whole loaded configuration: every system that loaded cleanly.
#[derive(Clone, Debug)]
pub struct ConfCore {
    pub systems: Vec<SystemCore>,
}

impl ConfCore {
    pub open spec fn wf(self) -> bool {
        forall|i: int| 0 <= i < self.systems@.len() ==> (#[trigger] self.systems@[i]).wf()
    }
}

/// A fully qualified route key: the (method, route text) pair the rule
/// index is keyed by.
#[derive(Clone, Debug)]
pub struct HttpRoute {
    pub route: String,
    pub method: String,
}

impl HttpRoute {
    /// Structural equality of route keys.
    pub open spec fn spec_same(self, other: HttpRoute) -> bool {
        self.method@ == other.method@ && self.route@ == other.route@
    }

    pub fn same(&self, other: &HttpRoute) -> (r: bool)
        ensures
            r == self.spec_same(*other),
    {
        self.method == other.method && self.route == other.route
    }

    /// Whether this key is the (method, route) pair given.
    pub fn matches_parts(&self, method: &String, route: &String) -> (r: bool)
        ensures
            r == (self.method@ == method@ && self.route@ == route@),
    {
        self.method == *method && self.route == *route
    }
}

} // verus!
