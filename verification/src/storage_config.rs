//! Settings of the object-store providers, as read from the environment.
//!
//! The server reads the environment variables; these constructors decide
//! what each setting becomes from what was read (`None` for a variable that
//! is not set).

use vstd::prelude::*;

verus! {

/// The view of an optional string.
pub open spec fn opt_view(o: Option<String>) -> Option<Seq<char>> {
    match o {
        Some(s) => Some(s@),
        None => None,
    }
}

/// The view of an optional string, or `d` when absent.
pub open spec fn or_default(o: Option<String>, d: Seq<char>) -> Seq<char> {
    match o {
        Some(s) => s@,
        None => d,
    }
}

fn string_or(o: Option<String>, d: &str) -> (r: String)
    ensures
        r@ == or_default(o, d@),
{
    match o {
        Some(s) => s,
        None => d.to_owned(),
    }
}

/// Settings of the S3 (or S3-compatible) store.
#[derive(Clone, Debug)]
pub struct S3Config {
    pub bucket: String,
    pub region: String,
    pub access_key_id: Option<String>,
    pub secret_access_key: Option<String>,
    pub endpoint: Option<String>,
}

impl S3Config {
    /// The settings from `AWS_DEFAULT_REGION` (default `us-east-1`),
    /// `AWS_DEFAULT_BUCKET` (default empty), `AWS_ACCESS_KEY_ID`,
    /// `AWS_SECRET_ACCESS_KEY` and `S3_ENDPOINT`.
    pub fn from_vars(
        region: Option<String>,
        bucket: Option<String>,
        access_key_id: Option<String>,
        secret_access_key: Option<String>,
        endpoint: Option<String>,
    ) -> (c: Self)
        ensures
            c.region@ == or_default(region, "us-east-1"@),
            c.bucket@ == or_default(bucket, Seq::empty()),
            opt_view(c.access_key_id) == opt_view(access_key_id),
            opt_view(c.secret_access_key) == opt_view(secret_access_key),
            opt_view(c.endpoint) == opt_view(endpoint),
    {
        proof {
            reveal_strlit("");
        }
        S3Config {
            bucket: string_or(bucket, ""),
            region: string_or(region, "us-east-1"),
            access_key_id,
            secret_access_key,
            endpoint,
        }
    }
}

/// Settings of the Google Cloud Storage store.
#[derive(Clone, Debug)]
pub struct GcsConfig {
    pub bucket: String,
    pub service_account_key_path: Option<String>,
    pub service_account_key_json: Option<String>,
}

impl GcsConfig {
    /// The settings from `GCS_BUCKET` (default empty),
    /// `GOOGLE_APPLICATION_CREDENTIALS` and `GCS_SERVICE_ACCOUNT_KEY`.
    pub fn from_vars(
        bucket: Option<String>,
        service_account_key_path: Option<String>,
        service_account_key_json: Option<String>,
    ) -> (c: Self)
        ensures
            c.bucket@ == or_default(bucket, Seq::empty()),
            opt_view(c.service_account_key_path) == opt_view(service_account_key_path),
            opt_view(c.service_account_key_json) == opt_view(service_account_key_json),
    {
        proof {
            reveal_strlit("");
        }
        GcsConfig {
            bucket: string_or(bucket, ""),
            service_account_key_path,
            service_account_key_json,
        }
    }
}

/// Settings of the Azure Blob Storage store.
#[derive(Clone, Debug)]
pub struct AzureBlobConfig {
    pub container: String,
    pub account_name: String,
    pub account_key: Option<String>,
    pub endpoint: Option<String>,
}

impl AzureBlobConfig {
    /// The settings from `AZURE_STORAGE_CONTAINER` (default empty),
    /// `AZURE_STORAGE_ACCOUNT` (default empty), `AZURE_STORAGE_KEY` and
    /// `AZURE_STORAGE_ENDPOINT`.
    pub fn from_vars(
        container: Option<String>,
        account_name: Option<String>,
        account_key: Option<String>,
        endpoint: Option<String>,
    ) -> (c: Self)
        ensures
            c.container@ == or_default(container, Seq::empty()),
            c.account_name@ == or_default(account_name, Seq::empty()),
            opt_view(c.account_key) == opt_view(account_key),
            opt_view(c.endpoint) == opt_view(endpoint),
    {
        proof {
            reveal_strlit("");
        }
        AzureBlobConfig {
            container: string_or(container, ""),
            account_name: string_or(account_name, ""),
            account_key,
            endpoint,
        }
    }
}

} // verus!
