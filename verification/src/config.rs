//! The settings with which the client is created, and the verdict on its
//! first poll.

use crate::error::KafkaError;
use crate::token::IamContext;
use rdkafka::config::ClientConfig;
use vstd::prelude::*;

verus! {

/// The configuration type of the client library: a set of parameters, each
/// with one value.
#[verifier::external_type_specification]
#[verifier::external_body]
pub struct ExClientConfig(ClientConfig);

/// The parameters that a configuration holds, each with its value.
pub uninterp spec fn config_entries(config: ClientConfig) -> Map<Seq<char>, Seq<char>>;

/// The configuration without any parameter.
pub open spec fn no_settings() -> Map<Seq<char>, Seq<char>> {
    Map::empty()
}

/// Calls `ClientConfig::new`, which makes a configuration without parameters.
#[verifier::external_body]
fn new_config() -> (config: ClientConfig)
    ensures
        config_entries(config) == no_settings(),
{
    ClientConfig::new()
}

/// Calls `ClientConfig::set`, which gives the parameter `key` the value
/// `value`, in place of the value it had if it had one, and leaves the other
/// parameters as they are.
#[verifier::external_body]
fn set_parameter(config: &mut ClientConfig, key: &str, value: &str)
    ensures
        config_entries(*final(config)) == config_entries(*old(config)).insert(key@, value@),
{
    config.set(key, value);
}

/// The parameters that every client starts from.
pub open spec fn basic_settings(bootstrap_servers: Seq<char>) -> Map<Seq<char>, Seq<char>> {
    no_settings().insert("bootstrap.servers"@, bootstrap_servers).insert(
        "group.id"@,
        "kieker"@,
    ).insert("enable.auto.commit"@, "false"@)
}

/// The parameters of a client that authenticates with tokens.
pub open spec fn msk_settings(bootstrap_servers: Seq<char>) -> Map<Seq<char>, Seq<char>> {
    basic_settings(bootstrap_servers).insert("security.protocol"@, "SASL_SSL"@).insert(
        "sasl.mechanism"@,
        "OAUTHBEARER"@,
    )
}

/// Create basic client configuration with the provided bootstrap servers.
pub fn create_config(bootstrap_servers: &str) -> (client_config: ClientConfig)
    ensures
        config_entries(client_config) == basic_settings(bootstrap_servers@),
{
    let mut client_config = new_config();
    set_parameter(&mut client_config, "bootstrap.servers", bootstrap_servers);
    set_parameter(&mut client_config, "group.id", "kieker");
    set_parameter(&mut client_config, "enable.auto.commit", "false");
    client_config
}

/// What a consumer with token authentication is created from.
pub struct MskConsumer {
    pub client_config: ClientConfig,
    pub client_context: IamContext,
}

/// Prepares a consumer that connects to a cluster with token authentication:
/// its configuration, and the context that generates its tokens for `region`
/// under the deadline `timeout_secs`.
pub fn create_msk_consumer(bootstrap_servers: &str, region: &str, timeout_secs: u64) -> (consumer:
    MskConsumer)
    ensures
        config_entries(consumer.client_config) == msk_settings(bootstrap_servers@),
        consumer.client_context.region_name() == region@,
        consumer.client_context.deadline() == timeout_secs,
{
    let mut client_config = create_config(bootstrap_servers);
    set_parameter(&mut client_config, "security.protocol", "SASL_SSL");
    set_parameter(&mut client_config, "sasl.mechanism", "OAUTHBEARER");
    MskConsumer { client_config, client_context: IamContext::new(region, timeout_secs) }
}

/// Judges the first poll of a new consumer. A poll that is still pending
/// means that the connection is being made; one that came back at once,
/// with a record or an error, means that it failed.
pub fn connect(first_poll_ready: bool) -> (result: Result<(), KafkaError>)
    ensures
        first_poll_ready ==> result == Err::<(), KafkaError>(KafkaError::ConnectionFailed),
        !first_poll_ready ==> result == Ok::<(), KafkaError>(()),
{
    if first_poll_ready {
        Err(KafkaError::ConnectionFailed)
    } else {
        Ok(())
    }
}

} // verus!
