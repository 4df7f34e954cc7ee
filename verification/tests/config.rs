use kiek_kafka::config::{connect, create_config, create_msk_consumer};
use kiek_kafka::error::KafkaError;

#[test]
fn basic_config() {
    let config = create_config("broker1:9092,broker2:9092");
    assert_eq!(config.get("bootstrap.servers"), Some("broker1:9092,broker2:9092"));
    assert_eq!(config.get("group.id"), Some("kieker"));
    assert_eq!(config.get("enable.auto.commit"), Some("false"));
    assert_eq!(config.get("security.protocol"), None);
    assert_eq!(config.config_map().len(), 3);
}

#[test]
fn msk_config() {
    let consumer = create_msk_consumer("b:9098", "eu-west-1", 10);
    let config = consumer.client_config;
    assert_eq!(config.get("bootstrap.servers"), Some("b:9098"));
    assert_eq!(config.get("group.id"), Some("kieker"));
    assert_eq!(config.get("enable.auto.commit"), Some("false"));
    assert_eq!(config.get("security.protocol"), Some("SASL_SSL"));
    assert_eq!(config.get("sasl.mechanism"), Some("OAUTHBEARER"));
    assert_eq!(config.config_map().len(), 5);
    assert_eq!(consumer.client_context.region(), "eu-west-1");
    assert_eq!(consumer.client_context.timeout_secs(), 10);
}

#[test]
fn pending_first_poll_is_a_connection() {
    assert_eq!(connect(false), Ok(()));
}

#[test]
fn ready_first_poll_is_a_failure() {
    assert_eq!(connect(true), Err(KafkaError::ConnectionFailed));
}
