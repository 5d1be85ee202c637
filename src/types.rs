//! The service's request and response shapes, as plain data.  Encoding
//! and decoding them as JSON happens outside the library.
use vstd::prelude::*;

verus! {

/// Lifecycle state of a vector bucket.
#[derive(Clone, Copy, Debug, PartialEq, Eq, Structural)]
pub enum BucketStatus {
    Creating,
    Active,
    Deleting,
    Failed,
}

/// Lifecycle state of an index.
#[derive(Clone, Copy, Debug, PartialEq, Eq, Structural)]
pub enum IndexStatus {
    Creating,
    Active,
    Deleting,
    Failed,
}

/// Type of a metadata field.
#[derive(Clone, Copy, Debug, PartialEq, Eq, Structural)]
pub enum MetadataFieldType {
    String,
    Number,
    Boolean,
}

/// Element type of stored vectors.
#[derive(Clone, Copy, Debug, PartialEq, Eq, Structural)]
pub enum DataType {
    Float32,
}

impl Default for DataType {
    fn default() -> (r: Self)
        ensures
            r == DataType::Float32,
    {
        DataType::Float32
    }
}

/// How an index measures the distance between vectors.
#[derive(Clone, Copy, Debug, PartialEq, Eq, Structural)]
pub enum DistanceMetric {
    Cosine,
    Euclidean,
}

impl Default for DistanceMetric {
    fn default() -> (r: Self)
        ensures
            r == DistanceMetric::Cosine,
    {
        DistanceMetric::Cosine
    }
}

/// Server-side encryption settings of a bucket.
#[derive(Clone, Debug)]
pub struct EncryptionConfiguration {
    pub kms_key_arn: Option<String>,
    pub sse_type: Option<String>,
}

#[derive(Clone, Debug)]
pub struct CreateVectorBucketRequest {
    pub vector_bucket_name: String,
}

/// The service answers a bucket creation with an empty body.
#[derive(Clone, Debug)]
pub struct CreateVectorBucketResponse {}

#[derive(Clone, Debug)]
pub struct DeleteVectorBucketRequest {
    pub vector_bucket_name: String,
}

#[derive(Clone, Debug)]
pub struct ListVectorBucketsRequest {
    pub max_results: Option<u32>,
    pub next_token: Option<String>,
    pub prefix: Option<String>,
}

#[derive(Clone, Debug)]
pub struct CreateIndexRequest {
    pub vector_bucket_name: String,
    pub index_name: String,
    pub dimension: u32,
    pub data_type: DataType,
    pub distance_metric: DistanceMetric,
    pub metadata_configuration: Option<MetadataConfiguration>,
}

#[derive(Clone, Debug)]
pub struct MetadataConfiguration {
    pub non_filterable_metadata_keys: Option<Vec<String>>,
}

#[derive(Clone, Debug)]
pub struct MetadataField {
    pub name: String,
    pub field_type: MetadataFieldType,
    pub filterable: bool,
}

#[derive(Clone, Debug)]
pub struct DeleteIndexRequest {
    pub vector_bucket_name: String,
    pub index_name: String,
}

#[derive(Clone, Debug)]
pub struct DescribeIndexRequest {
    pub vector_bucket_name: String,
    pub index_name: String,
}

#[derive(Clone, Debug)]
pub struct ListIndexesRequest {
    pub vector_bucket_name: String,
    pub max_results: Option<u32>,
    pub next_token: Option<String>,
}

#[derive(Clone, Debug)]
pub struct GetIndexRequest {
    pub vector_bucket_name: String,
    pub index_name: String,
}

#[derive(Clone, Debug)]
pub struct GetIndexResponse {
    pub index: IndexInfo,
}

#[derive(Clone, Debug)]
pub struct IndexInfo {
    pub dimension: u32,
    pub index_name: String,
    pub vector_bucket_name: String,
    pub created_at: String,
    pub status: IndexStatus,
    pub vector_count: Option<u64>,
}

#[derive(Clone, Debug)]
pub struct GetVectorsRequest {
    pub vector_bucket_name: String,
    pub index_name: String,
    pub keys: Vec<String>,
    pub return_vector: bool,
    pub return_metadata: bool,
}

#[derive(Clone, Debug)]
pub struct DeleteVectorsRequest {
    pub vector_bucket_name: String,
    pub index_name: String,
    pub keys: Vec<String>,
}

#[derive(Clone, Debug)]
pub struct ListVectorsRequest {
    pub vector_bucket_name: String,
    pub index_name: String,
    pub max_results: Option<u32>,
    pub next_token: Option<String>,
}

#[derive(Clone, Debug)]
pub struct ListVectorsResponse {
    pub keys: Vec<String>,
    pub next_token: Option<String>,
}

/// A failure reported by the service: its error-type tag, message and request id.
#[derive(Clone, Debug)]
pub struct ServiceError {
    pub error_type: Option<String>,
    pub message: String,
    pub request_id: Option<String>,
}

/// The default of the boolean request flags.
pub fn default_true() -> (r: bool)
    ensures
        r,
{
    true
}

} // verus!
