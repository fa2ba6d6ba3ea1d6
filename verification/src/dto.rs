//! The shapes of the HTTP surface: what requests carry and what responses
//! hold, written as plain data. The serialized forms live at the process
//! boundary; these types document and carry the surface inside the
//! library. Shapes whose fields are floating-point measurements — search
//! and rerank hits with their distances — belong to the index backend and
//! are not declared here.

use vstd::prelude::*;

verus! {

// --- spaces ---------------------------------------------------------------

/// A space-creation request, beyond the fields the core models; the index
/// configuration rides along as raw text.
pub struct SpaceRequest {
    pub name: Vec<char>,
    pub dimension: Option<u64>,
    pub metric: Option<Vec<char>>,
}

pub struct SpaceErrorResponse {
    pub error: Vec<char>,
}

pub struct HnswConfig {
    pub ef_construct: Option<u32>,
    pub m: Option<u32>,
}

pub struct SparseConfig {
    pub metric: Option<Vec<char>>,
}

pub struct ProductQuantizationConfig {
    pub always_ram: bool,
    pub compression: Vec<char>,
}

pub struct SpaceInfo {
    pub spacename: Vec<char>,
    pub id: u64,
}

pub struct ListSpacesResponse {
    pub values: Vec<SpaceInfo>,
}

// --- versions --------------------------------------------------------------

pub struct VersionRequest {
    pub name: Vec<char>,
    pub description: Option<Vec<char>>,
    pub tag: Option<Vec<char>>,
    pub is_default: Option<bool>,
}

pub struct VersionResponse {
    pub id: u64,
    pub description: Option<Vec<char>>,
    pub is_default: bool,
    pub name: Vec<char>,
    pub tag: Option<Vec<char>>,
}

pub struct VersionErrorResponse {
    pub error: Vec<char>,
}

pub struct VersionInfo {
    pub id: u64,
    pub name: Vec<char>,
    pub description: Option<Vec<char>>,
    pub is_default: bool,
    pub tag: Option<Vec<char>>,
}

pub struct ListVersionsResponse {
    pub values: Vec<VersionInfo>,
    pub total_count: usize,
}

// --- vectors ---------------------------------------------------------------

pub struct VectorResponse {
    pub result: Vec<char>,
}

pub struct VectorErrorResponse {
    pub error: Vec<char>,
}

// --- search and rerank -----------------------------------------------------

pub struct SearchErrorResponse {
    pub error: Vec<char>,
}

/// A rerank request: the candidates of a first search, and the query terms
/// the rerank scores them by.
pub struct RerankRequest {
    pub space_name: Vec<char>,
    pub version_unique_id: i32,
    pub vector_ids: Vec<u64>,
    pub query_terms: Vec<Vec<char>>,
}

pub struct RerankErrorResponse {
    pub error: Vec<char>,
}

// --- snapshots ---------------------------------------------------------------

pub struct CreateSnapshotRequest {
    pub spacename: Vec<char>,
}

pub struct SnapshotResponse {
    pub result: Vec<char>,
}

pub struct SnapshotErrorResponse {
    pub error: Vec<char>,
}

pub struct SnapshotInfo {
    pub file_name: Vec<char>,
}

pub struct ListSnapshotsResponse {
    pub snapshots: Vec<SnapshotInfo>,
}

// --- security ----------------------------------------------------------------

pub struct RbacTokenRequest {
    pub space_id: u64,
    pub system: u8,
    pub space: u8,
    pub version: u8,
    pub vector: u8,
    pub snapshot: u8,
    pub security: u8,
    pub keyvalue: u8,
}

pub struct RbacTokenResponse {
    pub result: Vec<char>,
    pub token: Vec<char>,
}

pub struct ListRbacTokensResponse {
    pub tokens: Vec<TokenDetails>,
}

pub struct TokenDetails {
    pub id: u64,
    pub space_id: u64,
    pub token: Vec<char>,
    pub expire_time_utc: u64,
    pub system: u8,
    pub space: u8,
    pub version: u8,
    pub vector: u8,
    pub search: u8,
    pub snapshot: u8,
    pub security: u8,
    pub keyvalue: u8,
}

pub struct RbacTokenErrorResponse {
    pub error: Vec<char>,
}

// --- key-value ----------------------------------------------------------------

pub struct KeyValueRequest {
    pub text: Vec<char>,
}

pub struct KeyValueResponse {
    pub result: Vec<char>,
}

pub struct KeyValueErrorResponse {
    pub error: Vec<char>,
}

pub struct ListKeysResponse {
    pub keys: Vec<Vec<char>>,
    pub total_count: usize,
}

} // verus!
