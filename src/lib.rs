//! Interpretation and trust-policy layer of a content-provenance service:
//! which remote URLs may be fetched, how trust anchors are handed to the
//! verification engine, and how the engine's output becomes a report.

pub mod allow;
mod engine;
pub mod error;
pub mod interpret;
pub mod pem;
pub mod remote;
pub mod report;
pub mod trust;

pub use allow::{parse_allow_list, serialize_allow_list, AllowedUrl, UrlParts};
pub use error::ProvenanceError;
pub use interpret::interpret_bytes;
pub use pem::parse_pem_chain;
pub use remote::{check_status, RemoteLoader};
pub use report::{
    assemble_report, build_report, engine_error, ActionRecord, ActiveRecord, AgentInfo, ClaimSummary, Edit, IngredientRecord,
    IngredientSummary, Interpretation, ManifestRecord, ValidationState,
};
pub use trust::{multiline_value, EngineSettings, TrustedIssuers};
