//! The ways in which an operation of this library ends without a result.

use crate::text::{append_decimal, decimal};
use vstd::prelude::*;
use vstd::string::*;

verus! {

/// A terminal failure of one operation. Nothing is retried.
#[derive(Debug, Clone, PartialEq, Eq)]
pub enum KafkaError {
    /// The cluster has no topic at all.
    NoTopicsAvailable,
    /// Several topics exist, none was named, and nobody can be asked.
    AmbiguousTopicSelection,
    /// The named topic does not exist; the message offers what comes close.
    UnknownTopic(String),
    /// The requested partition index, and the number of partitions the topic has.
    PartitionOutOfRange(usize, usize),
    /// No token arrived within the time allowed.
    TokenGenerationTimeout,
    /// The credential provider or the signing failed; the cause is kept.
    TokenGenerationFailed(String),
    /// The cluster answered the first poll at once instead of connecting.
    ConnectionFailed,
}

/// The text that describes an out-of-range partition.
pub open spec fn out_of_range_text(requested: nat, available: nat) -> Seq<char> {
    "Partition "@ + decimal(requested) + " is out of range for a topic with "@ + decimal(available)
        + " partitions."@
}

impl KafkaError {
    /// The text of `message` for each error.
    pub open spec fn message_text(&self) -> Seq<char> {
        match self {
            KafkaError::NoTopicsAvailable => "No topics available in the Kafka cluster."@,
            KafkaError::AmbiguousTopicSelection => "Multiple topics available in the Kafka cluster. Please specify a topic."@,
            KafkaError::UnknownTopic(message) => message@,
            KafkaError::PartitionOutOfRange(requested, available) => out_of_range_text(
                *requested as nat,
                *available as nat,
            ),
            KafkaError::TokenGenerationTimeout => "deadline has elapsed"@,
            KafkaError::TokenGenerationFailed(cause) => cause@,
            KafkaError::ConnectionFailed => "Failed to connect to Kafka cluster."@,
        }
    }

    /// What to tell the user about this error.
    pub fn message(&self) -> (text: String)
        ensures
            text@ == self.message_text(),
    {
        match self {
            KafkaError::NoTopicsAvailable => String::from_str(
                "No topics available in the Kafka cluster.",
            ),
            KafkaError::AmbiguousTopicSelection => String::from_str(
                "Multiple topics available in the Kafka cluster. Please specify a topic.",
            ),
            KafkaError::UnknownTopic(message) => message.clone(),
            KafkaError::PartitionOutOfRange(requested, available) => {
                let mut text = String::from_str("Partition ");
                append_decimal(&mut text, *requested);
                text.append(" is out of range for a topic with ");
                append_decimal(&mut text, *available);
                text.append(" partitions.");
                text
            },
            KafkaError::TokenGenerationTimeout => String::from_str("deadline has elapsed"),
            KafkaError::TokenGenerationFailed(cause) => cause.clone(),
            KafkaError::ConnectionFailed => String::from_str("Failed to connect to Kafka cluster."),
        }
    }
}

} // verus!
