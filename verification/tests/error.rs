use alpine::provider::embed_unsupported;
use alpine::ProviderError;

#[test]
fn api_error_display() {
    let e = ProviderError::Api {
        status: 429,
        message: "rate limit".into(),
    };
    let s = e.to_string();
    assert!(s.contains("429"));
    assert!(s.contains("rate limit"));
    assert_eq!(s, "API error (429): rate limit");
}

#[test]
fn stream_error_display() {
    let e = ProviderError::Stream("broken pipe".into());
    assert!(e.to_string().contains("broken pipe"));
    assert_eq!(e.to_string(), "Stream error: broken pipe");
}

#[test]
fn unsupported_display() {
    let e = ProviderError::Unsupported("embed".into());
    assert!(e.to_string().contains("embed"));
    assert_eq!(e.to_string(), "Unsupported operation: embed");
}

#[test]
fn other_display() {
    let e = ProviderError::Other("oops".into());
    assert_eq!(e.to_string(), "oops");
}

#[test]
fn json_error_from_serde() {
    let err = serde_json::from_str::<serde_json::Value>("not json").unwrap_err();
    let text = err.to_string();
    let pe = ProviderError::from(err);
    assert!(pe.to_string().contains("JSON serialization error"));
    assert_eq!(pe.to_string(), format!("JSON serialization error: {text}"));
}

#[test]
fn http_error_from_reqwest() {
    // Build a reqwest error by sending to an invalid URL
    let rt = tokio::runtime::Runtime::new().unwrap();
    let err = rt.block_on(async { reqwest::get("http://[::0]:0/invalid").await.unwrap_err() });
    let pe = ProviderError::from(err);
    assert!(pe.to_string().contains("HTTP error"));
}

#[test]
fn default_embed_returns_unsupported() {
    match embed_unsupported() {
        ProviderError::Unsupported(msg) => assert!(msg.contains("embedding")),
        other => panic!("expected Unsupported, got: {}", other.to_string()),
    }
}
