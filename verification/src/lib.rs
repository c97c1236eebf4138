//! A configuration-driven HTTP stub server core.
//!
//! Operators describe, in declarative rules, which responses a fake API
//! returns for which request patterns.  This crate holds the request-serving
//! engine: the rule-resolution machinery that picks a response for an
//! incoming request, the template-driven body synthesizer, the reverse-proxy
//! URL reconstruction and its diagnostic path trie, and the shape-contract
//! validator that ties declared API shapes to implemented rules.
//!
//! All I/O (file loading, the HTTP transport, timers, metrics backends)
//! lives outside this crate; the functions here work on plain values.

pub mod domain;
pub mod endpoint;
pub mod errors;
pub mod fsmodel;
mod hb;
pub mod index;
mod json;
pub mod matcher;
pub mod model;
pub mod proxy;
pub mod render;
mod seqx;
pub mod shape;
pub mod status;
pub mod strings;
pub mod template;
pub mod trie;
mod uri;
pub mod xpath;
pub mod yaml_model;

pub use errors::ConfigError;
pub use fsmodel::{
    Config, ConfigurationFolder, FsConfig, FsData, FsDataFile, FsSystem, FsSystemFile,
    ServerConfig,
};
pub use index::RuleIndex;
pub use model::{
    ApiCore, ApiSetCore, ApiSetRootCore, ConfCore, EndpointCore, HttpRoute, LatencyCore,
    ProxyCore, RuleContentFeaturesCore, RuleCore, SystemCore,
};
pub use render::{ExtractionPlan, RequestFacets, ResponseParts};
pub use status::StatusCode;
pub use template::{EngineFactory, HasVariables, PlainEngineFactory, RuleBodyCore};
pub use trie::{NodePath, ProxyState};
pub use xpath::XpathHelper;
pub use yaml_model::{
    ApiFolder, ApiShapeYaml, ApiYaml, ConfFolder, LatencyYaml, ProxyYaml, Response,
    ResponseDataYaml, RuleYaml, SystemFolder,
};
