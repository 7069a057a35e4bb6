//! Data carried through the ingestion pipeline.
//!
//! Every field is a plain value; values that the remote services exchange
//! as floating-point numbers are carried as their IEEE-754 bit patterns
//! (the pipeline forwards them and never computes with them).

use vstd::prelude::*;

verus! {

/// Camera id, date, time and frame sequence extracted from a filename.
#[derive(Debug)]
pub struct ParsedFilename {
    pub camera_id: String,
    pub date: String,
    pub time: String,
    pub sequence: String,
}

/// A classifier label attached to an image.
#[derive(Debug)]
pub struct AiLabel {
    pub class_name: String,
    /// Classifier confidence, carried as the bit pattern of the 64-bit
    /// floating-point value the service reported.
    pub confidence: u64,
}

/// One image descriptor from the metadata service. Immutable after
/// creation; consumed once per pipeline run.
#[derive(Debug)]
pub struct CctvImageData {
    /// Source-assigned id; doubles as the vector-store point id, which is
    /// what makes re-ingestion idempotent.
    pub id: u32,
    pub cctv_id: String,
    pub date: String,
    pub time: String,
    pub frame: u32,
    pub vehicle_type: u32,
    pub yolo_id: u32,
    pub filename: String,
    /// The reference handed to the embedding service; the correlation key.
    pub file_path: String,
    pub ai_label: Option<AiLabel>,
    pub created_at: Option<String>,
}

/// The body of a metadata fetch: camera filter, window bounds in
/// `YYYY-MM-DD HH:MM:SS` form, and a record limit.
pub struct CctvMetadataRequest {
    pub cctv_id: String,
    pub date_start: String,
    pub date_stop: String,
    pub limit: u32,
}

/// The metadata service's reply: an application-level success flag beside
/// the records. A transport-level success with `success == false` is still
/// a failure.
pub struct CctvMetadataResponse {
    pub success: bool,
    pub count: u32,
    pub data: Vec<CctvImageData>,
}

impl CctvMetadataResponse {
    /// The records, but only when the service reported success; the
    /// documented error otherwise.
    pub fn into_result(self) -> (r: Result<Vec<CctvImageData>, String>)
        ensures
            self.success ==> (r matches Ok(d) && d == self.data),
            !self.success ==> (r matches Err(e) && e@ == "API returned success=false"@),
    {
        if self.success {
            Ok(self.data)
        } else {
            Err("API returned success=false".to_owned())
        }
    }
}

/// One entry of a batch embedding reply: the reference it belongs to, the
/// vector if one was computed (each element the bit pattern of a 32-bit
/// floating-point value), and an in-band error otherwise.
pub struct BatchImageEmbeddingResult {
    pub path: String,
    pub embedding: Option<Vec<u32>>,
    pub error: Option<String>,
}

/// A batch embedding reply: per-reference results in service-defined order.
pub struct BatchImageEmbeddingResponse {
    pub response_type: String,
    pub results: Vec<BatchImageEmbeddingResult>,
}

/// One camera of the metadata service's camera list.
pub struct CctvItem {
    pub cctv_id: String,
}

/// The metadata service's camera list reply.
pub struct CctvListResponse {
    pub success: bool,
    pub data: Vec<CctvItem>,
}

impl CctvListResponse {
    /// The camera ids of the listed cameras, in order.
    pub fn cctv_ids(self) -> (r: Vec<String>)
        ensures
            r@.len() == self.data@.len(),
            forall|i: int| 0 <= i < r@.len() ==> #[trigger] r@[i]@ == self.data@[i].cctv_id@,
    {
        let n = self.data.len();
        let mut r: Vec<String> = Vec::new();
        let mut i: usize = 0;
        while i < n
            invariant
                0 <= i <= n == self.data@.len(),
                r@.len() == i,
                forall|t: int| 0 <= t < i ==> #[trigger] r@[t]@ == self.data@[t].cctv_id@,
            decreases n - i,
        {
            r.push(self.data[i].cctv_id.clone());
            i += 1;
        }
        r
    }
}

/// The body of a token request to the issuer.
pub struct GetTokenRequest {
    pub authorize_code: String,
    pub user_auth: String,
    pub client_id: String,
    pub scope: Vec<String>,
}

/// The payload of a token reply.
pub struct TokenData {
    pub token_type: String,
    pub access_token: String,
    pub status: bool,
}

/// A token reply from the issuer.
pub struct GetTokenResponse {
    pub code: u32,
    pub message: String,
    pub data: TokenData,
}

/// A search request: free-text query, result count, and an optional
/// datetime range in the canonical wire form.
pub struct SearchRequest {
    pub query: String,
    pub top_k: Option<u64>,
    pub start_date: Option<String>,
    pub end_date: Option<String>,
}

/// Configuration the pipeline consumes; loaded outside the library.
#[derive(Clone)]
pub struct Config {
    pub qdrant_url: String,
    pub qdrant_api_key: String,
    pub ai_service_url: String,
    pub collection_name: String,
    pub cctv_api_url: String,
    pub cctv_auth_token: String,
    pub cctv_id: String,
    pub server_port: u16,
    pub fetch_limit: u32,
    pub fetch_days_range: u64,
    pub fetch_every_time: u64,
}

} // verus!
