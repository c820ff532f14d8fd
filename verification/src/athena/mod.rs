//! The Athena adapter: S3 layout, partitions, Glue tables and their documentation.

pub mod auth;
pub mod aws;
pub mod aws_laws;
pub mod cleanup;
pub mod dispatch;
pub mod dispatch_laws;
pub mod doc_laws;
pub mod docs;
pub mod driver;
pub mod facts;
pub mod glue;
pub mod glue_laws;
pub mod grants;
pub mod lakeformation;
pub mod laws;
pub mod metadata;
pub mod metadata_laws;
pub mod methods;
pub mod partition;
pub mod persist;
pub mod profile_laws;
pub mod s3;
pub mod s3_laws;
pub mod session;
pub mod spark;
pub mod spark_laws;
pub mod storage;
pub mod swap;
pub mod table_type;
pub mod versions;
