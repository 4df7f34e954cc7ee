//! Turning an absent or unchecked topic reference into a target that the
//! cluster has: alone where the cluster leaves no choice, by asking the user
//! where it does.

use crate::error::KafkaError;
use crate::matcher::unknown_topic_text;
use crate::planner::unknown_topic;
use crate::style::{Highlighting, Style};
use crate::text::{decimal, decimal_string, names_of};
use crate::topology::{
    has_topic, lemma_partitions_of_known, topic_names_of, ClusterTopology, TopicOrPartition,
};
use vstd::prelude::*;
use vstd::string::*;

verus! {

/// How many topics the topic prompt shows at a time.
pub const TOPIC_PROMPT_ROWS: usize = 15;

/// How many lines the partition prompt shows at a time.
pub const PARTITION_PROMPT_ROWS: usize = 13;

/// What resolving a target came to.
#[derive(Debug, Clone, PartialEq)]
pub enum Resolution {
    /// The target is settled. `announce` tells the caller to report a choice
    /// that was made on the user's behalf.
    Resolved { target: TopicOrPartition, announce: bool },
    /// The user has to choose: the caller runs the prompt.
    Prompt,
}

/// Settles the target of a search against a snapshot of the cluster.
///
/// A cluster without topics has no target. A named target stands if its topic
/// exists. Without one, a single topic is taken, several topics are left to
/// the user, and in silent mode they are an error.
pub fn select_topic_or_partition(
    topology: &ClusterTopology,
    hint: Option<&TopicOrPartition>,
    silent: bool,
    highlighting: &Highlighting,
) -> (result: Result<Resolution, KafkaError>)
    ensures
        topology@.len() == 0 ==> result == Err::<Resolution, KafkaError>(
            KafkaError::NoTopicsAvailable,
        ),
        topology@.len() > 0 ==> match hint {
            Some(wanted) => if has_topic(topology@, wanted.name()) {
                result matches Ok(Resolution::Resolved { target, announce }) && target.name()
                    == wanted.name() && target.pinned() == wanted.pinned() && !announce
            } else {
                result matches Err(KafkaError::UnknownTopic(message)) && message@
                    == unknown_topic_text(wanted.name(), topic_names_of(topology@), *highlighting)
            },
            None => if topology@.len() == 1 {
                result matches Ok(Resolution::Resolved { target, announce }) && target.name()
                    == topology@[0].0 && target.pinned() is None && announce
            } else if silent {
                result == Err::<Resolution, KafkaError>(KafkaError::AmbiguousTopicSelection)
            } else {
                result == Ok::<Resolution, KafkaError>(Resolution::Prompt)
            },
        },
{
    if topology.topics.len() == 0 {
        return Err(KafkaError::NoTopicsAvailable);
    }
    match hint {
        Some(wanted) => {
            proof {
                lemma_partitions_of_known(topology@, wanted.name());
            }
            match topology.partition_count(wanted.topic()) {
                Some(_) => Ok(Resolution::Resolved { target: wanted.duplicate(), announce: false }),
                None => Err(unknown_topic(topology, wanted.topic(), highlighting)),
            }
        },
        None => {
            if topology.topics.len() == 1 {
                let only = TopicOrPartition::Topic(topology.topics[0].name.clone());
                Ok(Resolution::Resolved { target: only, announce: true })
            } else if silent {
                Err(KafkaError::AmbiguousTopicSelection)
            } else {
                Ok(Resolution::Prompt)
            }
        },
    }
}

/// The notice for a topic that was taken without asking.
pub fn using_notice(topic: &str) -> (notice: String)
    ensures
        notice@ == "topic "@ + topic@,
{
    let mut notice = String::from_str("topic ");
    notice.append(topic);
    notice
}

/// Where a prompt stands.
#[derive(Debug, Clone, Copy, PartialEq, Eq)]
pub enum PromptState {
    /// Nothing was asked yet.
    Start,
    /// The list of topics is shown.
    ChoosingTopic,
    /// The partitions of the topic at this place in the snapshot are shown.
    ChoosingPartition(usize),
    /// The target is chosen.
    Done,
}

/// What the caller does next for a prompt.
#[derive(Debug, Clone, PartialEq)]
pub enum PromptAction {
    /// Show these topic names and report the place of the chosen one.
    AskTopic(Vec<String>),
    /// Show the partitions of the named topic, which has this many of them,
    /// behind a first line for all partitions, and report the chosen line.
    AskPartition(String, usize),
    /// The prompt is over with this target.
    Finish(TopicOrPartition),
}

/// Holds when the prompt can go on from `state` with the line `selection`:
/// the line was on the list that the state showed.
pub open spec fn prompt_accepts(
    topics: Seq<(Seq<char>, nat)>,
    state: PromptState,
    selection: nat,
) -> bool {
    match state {
        PromptState::Start => true,
        PromptState::ChoosingTopic => selection < topics.len(),
        PromptState::ChoosingPartition(topic) => topic < topics.len() && selection
            <= topics[topic as int].1,
        PromptState::Done => false,
    }
}

/// The partition that a line of the partition prompt stands for: none for
/// the first line, which stands for the whole topic.
pub open spec fn line_partition(line: nat) -> Option<nat> {
    if line == 0 {
        None
    } else {
        Some((line - 1) as nat)
    }
}

/// A line that the partition prompt of a topic accepts stands for the whole
/// topic or for a partition that the topic has.
pub proof fn lemma_line_within_topic(topics: Seq<(Seq<char>, nat)>, topic: usize, line: nat)
    requires
        prompt_accepts(topics, PromptState::ChoosingPartition(topic), line),
    ensures
        line_partition(line) matches Some(partition) ==> partition < topics[topic as int].1,
{
}

/// Tells whether the prompt can go on from `state` with the line `selection`.
pub fn accepts_selection(topology: &ClusterTopology, state: PromptState, selection: usize) -> (ok:
    bool)
    ensures
        ok == prompt_accepts(topology@, state, selection as nat),
{
    match state {
        PromptState::Start => true,
        PromptState::ChoosingTopic => selection < topology.topics.len(),
        PromptState::ChoosingPartition(topic) => topic < topology.topics.len() && selection
            <= topology.topics[topic].partitions,
        PromptState::Done => false,
    }
}

/// One step of the prompt for a topic and then a partition of it.
///
/// From the start the topics are asked for; the chosen topic brings the
/// question for its partitions; the chosen line ends the prompt: the first
/// line stands for the whole topic, every other line for the partition one
/// less than its place. At the start `selection` is not read.
pub fn prompt_topic_or_partition(
    topology: &ClusterTopology,
    state: PromptState,
    selection: usize,
) -> (step: (PromptState, PromptAction))
    requires
        prompt_accepts(topology@, state, selection as nat),
    ensures
        match state {
            PromptState::Start => step.0 == PromptState::ChoosingTopic && (step.1 matches PromptAction::AskTopic(
                items,
            ) && names_of(items@) == topic_names_of(topology@)),
            PromptState::ChoosingTopic => step.0 == PromptState::ChoosingPartition(selection) && (
            step.1 matches PromptAction::AskPartition(name, count) && name@
                == topology@[selection as int].0 && count == topology@[selection as int].1),
            PromptState::ChoosingPartition(topic) => step.0 == PromptState::Done && (
            step.1 matches PromptAction::Finish(target) && target.name() == topology@[topic as int].0
                && target.pinned() == line_partition(selection as nat)),
            PromptState::Done => true,
        },
{
    match state {
        PromptState::Start => (
            PromptState::ChoosingTopic,
            PromptAction::AskTopic(topology.topic_names()),
        ),
        PromptState::ChoosingTopic => {
            let chosen = &topology.topics[selection];
            (
                PromptState::ChoosingPartition(selection),
                PromptAction::AskPartition(chosen.name.clone(), chosen.partitions),
            )
        },
        PromptState::ChoosingPartition(topic) => {
            let name = topology.topics[topic].name.clone();
            let target = if selection == 0 {
                TopicOrPartition::Topic(name)
            } else {
                TopicOrPartition::TopicPartition(name, selection - 1)
            };
            (PromptState::Done, PromptAction::Finish(target))
        },
        PromptState::Done => unreached(),
    }
}

/// The two styles in which the lines of a partition are written.
#[derive(Debug, Clone, PartialEq, Eq)]
pub struct PartitionStyle {
    pub color: Style,
    pub dimmed: Style,
}

/// The line that stands for all partitions of a topic.
pub open spec fn all_partitions_line(topic: Seq<char>) -> Seq<char> {
    topic + " (all partitions)"@
}

/// The line of one partition: topic, dash and number, each in its style.
pub open spec fn partition_line(topic: Seq<char>, partition: nat, style: PartitionStyle) -> Seq<
    char,
> {
    style.color.paint(topic) + style.dimmed.paint("-"@) + style.color.paint(decimal(partition))
}

/// The lines of the partition prompt for a topic: one for all partitions,
/// then one for each partition that a style was given for, in order.
pub fn partition_items(topic: &str, styles: &Vec<PartitionStyle>) -> (items: Vec<String>)
    ensures
        items@.len() == styles@.len() + 1,
        items@[0]@ == all_partitions_line(topic@),
        forall|p: int|
            0 <= p < styles@.len() ==> (#[trigger] items@[p + 1])@ == partition_line(
                topic@,
                p as nat,
                styles@[p],
            ),
{
    let mut items: Vec<String> = Vec::new();
    let mut all = String::from_str(topic);
    all.append(" (all partitions)");
    items.push(all);
    let mut partition: usize = 0;
    while partition < styles.len()
        invariant
            partition <= styles.len(),
            items@.len() == partition + 1,
            items@[0]@ == all_partitions_line(topic@),
            forall|p: int|
                0 <= p < partition ==> (#[trigger] items@[p + 1])@ == partition_line(
                    topic@,
                    p as nat,
                    styles@[p],
                ),
        decreases styles.len() - partition,
    {
        let style = &styles[partition];
        let number = decimal_string(partition);
        let mut line = String::new();
        style.color.append_painted(&mut line, topic);
        style.dimmed.append_painted(&mut line, "-");
        style.color.append_painted(&mut line, number.as_str());
        items.push(line);
        partition += 1;
    }
    items
}

} // verus!
