use oxify::storage_config::{AzureBlobConfig, GcsConfig, S3Config};

fn s(v: &str) -> Option<String> {
    Some(v.to_string())
}

#[test]
fn test_s3_config_from_env_defaults() {
    let cfg = S3Config::from_vars(None, None, None, None, None);
    assert_eq!(cfg.region, "us-east-1", "default region must be us-east-1");
    assert_eq!(cfg.bucket, "");
    assert!(cfg.access_key_id.is_none());
    assert!(cfg.secret_access_key.is_none());
    assert!(cfg.endpoint.is_none());
}

#[test]
fn test_s3_config_with_endpoint() {
    let cfg = S3Config::from_vars(s("eu-west-1"), None, None, None, s("http://localhost:9000"));
    assert_eq!(
        cfg.endpoint.as_deref(),
        Some("http://localhost:9000"),
        "endpoint must be captured from S3_ENDPOINT"
    );
    assert_eq!(cfg.region, "eu-west-1");
}

#[test]
fn test_s3_config_with_credentials() {
    let cfg = S3Config::from_vars(None, None, s("AKIATEST"), s("secret123"), None);
    assert_eq!(cfg.access_key_id.as_deref(), Some("AKIATEST"));
    assert_eq!(cfg.secret_access_key.as_deref(), Some("secret123"));
}

#[test]
fn test_gcs_config_from_env_defaults() {
    let cfg = GcsConfig::from_vars(None, None, None);
    assert_eq!(cfg.bucket, "");
    assert!(cfg.service_account_key_path.is_none());
    assert!(cfg.service_account_key_json.is_none());
}

#[test]
fn test_gcs_config_with_credentials_path() {
    let cfg = GcsConfig::from_vars(s("my-bucket"), s("/tmp/key.json"), None);
    assert_eq!(cfg.service_account_key_path.as_deref(), Some("/tmp/key.json"));
    assert_eq!(cfg.bucket, "my-bucket");
}

#[test]
fn test_gcs_config_with_key_json() {
    let cfg = GcsConfig::from_vars(None, None, s(r#"{"type":"service_account"}"#));
    assert_eq!(
        cfg.service_account_key_json.as_deref(),
        Some(r#"{"type":"service_account"}"#)
    );
}

#[test]
fn test_azure_blob_config_from_env_defaults() {
    let cfg = AzureBlobConfig::from_vars(None, None, None, None);
    assert_eq!(cfg.container, "");
    assert_eq!(cfg.account_name, "");
    assert!(cfg.account_key.is_none());
    assert!(cfg.endpoint.is_none());
}

#[test]
fn test_azure_blob_config_with_account_key() {
    let cfg = AzureBlobConfig::from_vars(
        s("my-container"),
        s("mystorageaccount"),
        s("base64encodedkey=="),
        None,
    );
    assert_eq!(cfg.account_name, "mystorageaccount");
    assert_eq!(cfg.container, "my-container");
    assert_eq!(cfg.account_key.as_deref(), Some("base64encodedkey=="));
}

#[test]
fn test_azure_blob_config_with_endpoint() {
    let cfg = AzureBlobConfig::from_vars(None, None, None, s("http://localhost:10000"));
    assert_eq!(cfg.endpoint.as_deref(), Some("http://localhost:10000"));
}
