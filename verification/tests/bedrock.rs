use oxify::llm::{bedrock_credentials_from_env, bedrock_endpoint_url, bedrock_max_tokens, LlmError};

#[test]
fn test_bedrock_endpoint_url() {
    let url = bedrock_endpoint_url("us-east-1", "test-model");
    assert!(url.contains("us-east-1"));
    assert!(url.contains("test-model"));
    assert!(url.contains("bedrock-runtime"));
}

#[test]
fn bedrock_endpoint_url_exact() {
    assert_eq!(
        bedrock_endpoint_url("eu-west-1", "m"),
        "https://bedrock-runtime.eu-west-1.amazonaws.com/model/m/invoke"
    );
}

#[test]
fn bedrock_credentials() {
    let (a, s) =
        bedrock_credentials_from_env(Some("access-key".to_string()), Some("secret-key".to_string()))
            .unwrap();
    assert_eq!(a, "access-key");
    assert_eq!(s, "secret-key");
    match bedrock_credentials_from_env(Some("a".to_string()), None) {
        Err(LlmError::ConfigError(m)) => assert_eq!(
            m,
            "AWS credentials not found in environment variables. Set AWS_ACCESS_KEY_ID and AWS_SECRET_ACCESS_KEY."
        ),
        _ => panic!("expected ConfigError"),
    }
    assert_eq!(bedrock_max_tokens(None), 4096);
    assert_eq!(bedrock_max_tokens(Some(10)), 10);
}
