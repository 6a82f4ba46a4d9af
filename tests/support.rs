use quckchat_records::config::Config;
use quckchat_records::error::ServiceError;
use quckchat_records::ids::parse_record_id;
use quckchat_records::paging::{effective_limit, page_capacity};

#[test]
fn limit_defaults_and_caps() {
    assert_eq!(effective_limit(None), 50);
    assert_eq!(effective_limit(Some(7)), 7);
    assert_eq!(effective_limit(Some(100)), 100);
    assert_eq!(effective_limit(Some(101)), 100);
}

#[test]
fn record_id_is_lowered() {
    assert_eq!(parse_record_id("ABCDEF0123456789abcdefAB").unwrap(), "abcdef0123456789abcdefab");
    assert_eq!(parse_record_id("abc").unwrap_err(), ServiceError::InvalidArgument);
    assert_eq!(parse_record_id("abcdef0123456789abcdefabc").unwrap_err(), ServiceError::InvalidArgument);
}

#[test]
fn status_codes() {
    assert_eq!(ServiceError::InvalidArgument.status_code(), 400);
    assert_eq!(ServiceError::NotFound.status_code(), 404);
    assert_eq!(ServiceError::StorageFailure("x".to_string()).status_code(), 500);
}

#[test]
fn config_defaults() {
    let c = Config::from_values(None, None, None, None, None);
    assert_eq!(c.port, 3004);
    assert_eq!(c.mongodb_uri, "mongodb://localhost:27017");
    assert_eq!(c.database_name, "quckchat_messages");
    assert!(c.redis_url.is_none());
    assert_eq!(c.kafka_brokers, "localhost:9092");
}

#[test]
fn config_values_and_port_parsing() {
    let c = Config::from_values(
        Some("8080".to_string()),
        Some("mongodb://db".to_string()),
        Some("d".to_string()),
        Some("redis://r".to_string()),
        Some("k:1".to_string()),
    );
    assert_eq!(c.port, 8080);
    assert_eq!(c.mongodb_uri, "mongodb://db");
    assert_eq!(c.database_name, "d");
    assert_eq!(c.redis_url.as_deref(), Some("redis://r"));
    assert_eq!(c.kafka_brokers, "k:1");
    assert_eq!(Config::from_values(Some("abc".to_string()), None, None, None, None).port, 3004);
    assert_eq!(Config::from_values(Some("70000".to_string()), None, None, None, None).port, 3004);
    assert_eq!(Config::from_values(Some("+12".to_string()), None, None, None, None).port, 12);
}

#[test]
fn page_capacity_clamps_at_zero() {
    assert_eq!(page_capacity(5), 5);
    assert_eq!(page_capacity(0), 0);
    assert_eq!(page_capacity(-3), 0);
}

#[test]
fn refused_port_text_takes_default() {
    for p in ["+", "+x", "-1", "", "99999"] {
        assert_eq!(Config::from_values(Some(p.to_string()), None, None, None, None).port, 3004);
    }
}
