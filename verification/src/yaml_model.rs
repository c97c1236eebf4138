//! The raw configuration tree, as the filesystem loader hands it in.
//!
//! These mirror the YAML documents one system folder holds.  The loader
//! (outside this crate) parses the files and delivers plain values; the
//! domain builder turns them into the immutable core model.

use vstd::prelude::*;

verus! {

/// A latency policy as configured: a fixed delay in milliseconds.
#[derive(Clone, Copy, Debug)]
pub enum LatencyYaml {
    Constant(u32),
}

/// A rule's response source: a reference into the data-file map, or an
/// inline (status, body, content-type) triple.
#[derive(Clone, Debug)]
pub enum Response {
    File(String),
    Inline(u16, Option<String>, Option<String>),
}

/// One data file: `data/*.yml`, keyed by its path under `data/`.
#[derive(Debug)]
pub struct ResponseDataYaml {
    pub status: u16,
    pub description: Option<String>,
    pub format: Option<String>,
    pub data: Option<String>,
}

impl Clone for ResponseDataYaml {
    fn clone(&self) -> (r: Self)
        ensures
            r == *self,
    {
        ResponseDataYaml {
            status: self.status,
            description: match &self.description {
                Some(s) => Some(s.clone()),
                None => None,
            },
            format: match &self.format {
                Some(s) => Some(s.clone()),
                None => None,
            },
            data: match &self.data {
                Some(s) => Some(s.clone()),
                None => None,
            },
        }
    }
}

/// One rule as configured: the `METHOD /path` text, an optional latency
/// override, and the response source.
#[derive(Clone, Debug)]
pub struct RuleYaml {
    pub matches: String,
    pub latency: Option<LatencyYaml>,
    pub response: Response,
}

/// One api group file: a shared header predicate, a default latency, and
/// the ordered rules.
#[derive(Clone, Debug)]
pub struct ApiYaml {
    pub headers: Option<Vec<(String, String)>>,
    pub latency: Option<LatencyYaml>,
    pub rules: Vec<RuleYaml>,
}

/// One shape file: the declared endpoints, as `METHOD /path` texts.
#[derive(Clone, Debug)]
pub struct ApiShapeYaml {
    pub shape: Vec<String>,
}

/// One proxy file: the upstream base address.
#[derive(Clone, Debug)]
pub struct ProxyYaml {
    pub url: String,
}

/// One named sub-folder of a system folder: a named api set's sources.
#[derive(Clone, Debug)]
pub struct ApiFolder {
    pub name: String,
    pub shape: Option<ApiShapeYaml>,
    pub apis: Vec<ApiYaml>,
    pub proxy: Option<ProxyYaml>,
    pub data: Vec<(String, ResponseDataYaml)>,
}

/// One system folder: its own files define the root api set; its named
/// sub-folders define named api sets.
#[derive(Clone, Debug)]
pub struct SystemFolder {
    pub name: String,
    pub api_folders: Vec<ApiFolder>,
    pub shape: Option<ApiShapeYaml>,
    pub apis: Vec<ApiYaml>,
    pub proxy: Option<ProxyYaml>,
    pub data: Vec<(String, ResponseDataYaml)>,
}

/// The whole configuration folder: one entry per system folder.
#[derive(Clone, Debug)]
pub struct ConfFolder {
    pub systems: Vec<SystemFolder>,
}

} // verus!
