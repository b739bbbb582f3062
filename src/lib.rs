//! Single-target web reconnaissance: candidate path discovery, probe
//! classification, per-document intelligence extraction and cross-document
//! aggregation.
pub mod text;
pub mod discovery;
pub mod naming;
pub mod markup;
pub mod intel;
pub mod probe;
