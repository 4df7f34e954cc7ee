//! Assignment plans: which partitions a search reads, and from where.

use crate::error::KafkaError;
use crate::matcher::{unknown_topic_message, unknown_topic_text};
use crate::partition::{partition_for_key, partition_of_key};
use crate::style::Highlighting;
use crate::text::{decimal, decimal_string};
use crate::topology::{
    marker_of, offset_for, partitions_of, topic_names_of, ClusterTopology, OffsetMarker,
    StartOffset, TopicOrPartition,
};
use vstd::prelude::*;
use vstd::string::*;

verus! {

/// One line of a plan: a partition of a topic and where to start reading it.
#[derive(Debug, Clone, PartialEq, Eq)]
pub struct PlanEntry {
    pub topic: String,
    pub partition: usize,
    pub offset: OffsetMarker,
}

impl PlanEntry {
    /// The topic and partition that this entry is about.
    pub open spec fn key(&self) -> (Seq<char>, nat) {
        (self.topic@, self.partition as nat)
    }
}

/// The partitions that the client is to read, each with its starting point.
#[derive(Debug, Clone, PartialEq, Eq)]
pub struct PartitionAssignmentPlan {
    pub entries: Vec<PlanEntry>,
}

impl View for PartitionAssignmentPlan {
    type V = Map<(Seq<char>, nat), OffsetMarker>;

    /// The plan as a mapping from topic and partition to starting point.
    open spec fn view(&self) -> Map<(Seq<char>, nat), OffsetMarker> {
        Map::new(
            |k: (Seq<char>, nat)| self.has_key(k),
            |k: (Seq<char>, nat)| self.entries@[self.index_of(k)].offset,
        )
    }
}

impl PartitionAssignmentPlan {
    /// Holds when some entry is about the partition `k`.
    pub open spec fn has_key(&self, k: (Seq<char>, nat)) -> bool {
        exists|i: int| 0 <= i < self.entries@.len() && self.entries@[i].key() == k
    }

    /// The place of an entry about the partition `k`.
    pub open spec fn index_of(&self, k: (Seq<char>, nat)) -> int {
        choose|i: int| 0 <= i < self.entries@.len() && self.entries@[i].key() == k
    }

    /// Holds when no partition has two entries.
    pub open spec fn well_formed(&self) -> bool {
        forall|i: int, j: int|
            0 <= i < j < self.entries@.len() ==> self.entries@[i].key() != self.entries@[j].key()
    }

    /// The number of partitions in the plan.
    pub fn len(&self) -> (n: usize)
        ensures
            n == self.entries@.len(),
    {
        self.entries.len()
    }

    /// The starting point that the plan gives to a partition, if it holds it.
    pub fn get(&self, topic: &str, partition: usize) -> (marker: Option<OffsetMarker>)
        requires
            self.well_formed(),
        ensures
            marker == if self@.dom().contains((topic@, partition as nat)) {
                Some(self@[(topic@, partition as nat)])
            } else {
                None
            },
    {
        let wanted = String::from_str(topic);
        let mut i: usize = 0;
        while i < self.entries.len()
            invariant
                i <= self.entries.len(),
                wanted@ == topic@,
                self.well_formed(),
                forall|k: int| 0 <= k < i ==> self.entries@[k].key() != (topic@, partition as nat),
            decreases self.entries.len() - i,
        {
            if self.entries[i].partition == partition && self.entries[i].topic == wanted {
                return Some(self.entries[i].offset);
            }
            i += 1;
        }
        None
    }
}

/// The mapping that a plan for the topic `name` with `count` partitions
/// stands for: the pinned partition alone, or every partition below `count`,
/// each starting at `marker`.
pub open spec fn assignment(
    name: Seq<char>,
    pinned: Option<nat>,
    count: nat,
    marker: OffsetMarker,
) -> Map<(Seq<char>, nat), OffsetMarker> {
    Map::new(
        |k: (Seq<char>, nat)|
            k.0 == name && match pinned {
                Some(p) => k.1 == p,
                None => k.1 < count,
            },
        |k: (Seq<char>, nat)| marker,
    )
}

/// The partition count to plan with: that of the first topic named `name`,
/// unless it has no partition.
pub open spec fn live_partitions(topics: Seq<(Seq<char>, nat)>, name: Seq<char>) -> Option<nat> {
    match partitions_of(topics, name) {
        Some(count) => if count > 0 {
            Some(count)
        } else {
            None
        },
        None => None,
    }
}

/// Generates the error for an unknown topic: it names a very similar topic
/// or lists the available topics by similarity.
pub fn unknown_topic(topology: &ClusterTopology, topic: &str, highlighting: &Highlighting) -> (error:
    KafkaError)
    ensures
        error matches KafkaError::UnknownTopic(message) && message@ == unknown_topic_text(
            topic@,
            topic_names_of(topology@),
            *highlighting,
        ),
{
    let topic_names = topology.topic_names();
    KafkaError::UnknownTopic(unknown_topic_message(topic, &topic_names, highlighting))
}

/// Looks up the number of partitions of the topic with the given name.
pub fn fetch_number_of_partitions(
    topology: &ClusterTopology,
    topic: &str,
    highlighting: &Highlighting,
) -> (result: Result<usize, KafkaError>)
    ensures
        match live_partitions(topology@, topic@) {
            Some(count) => result == Ok::<usize, KafkaError>(count as usize) && count
                <= usize::MAX,
            None => result matches Err(KafkaError::UnknownTopic(message)) && message@
                == unknown_topic_text(topic@, topic_names_of(topology@), *highlighting),
        },
{
    match topology.partition_count(topic) {
        Some(count) => if count > 0 {
            Ok(count)
        } else {
            Err(unknown_topic(topology, topic, highlighting))
        },
        None => Err(unknown_topic(topology, topic, highlighting)),
    }
}

/// A plan for every partition of a topic with `count` partitions.
pub fn plan_all_partitions(topic: &str, count: usize, offset: OffsetMarker) -> (plan:
    PartitionAssignmentPlan)
    ensures
        plan.well_formed(),
        plan@ == assignment(topic@, None, count as nat, offset),
        plan.entries@.len() == count,
        forall|i: int| 0 <= i < count ==> (#[trigger] plan.entries@[i]).key() == (topic@, i as nat),
{
    let mut entries: Vec<PlanEntry> = Vec::new();
    let mut partition: usize = 0;
    while partition < count
        invariant
            partition <= count,
            entries.len() == partition,
            forall|i: int|
                0 <= i < partition ==> (#[trigger] entries@[i]).key() == (topic@, i as nat)
                    && entries@[i].offset == offset,
        decreases count - partition,
    {
        entries.push(PlanEntry { topic: String::from_str(topic), partition, offset });
        partition += 1;
    }
    let plan = PartitionAssignmentPlan { entries };
    proof {
        let expected = assignment(topic@, None, count as nat, offset);
        assert forall|k: (Seq<char>, nat)| plan@.dom().contains(k) <==> expected.dom().contains(
            k,
        ) by {
            if expected.dom().contains(k) {
                assert(plan.entries@[k.1 as int].key() == k);
            }
        }
    }
    plan
}

/// A plan for one partition of a topic.
pub fn plan_single_partition(topic: &str, partition: usize, offset: OffsetMarker) -> (plan:
    PartitionAssignmentPlan)
    ensures
        plan.well_formed(),
        plan@ == assignment(topic@, Some(partition as nat), 0, offset),
        plan.entries@.len() == 1,
        plan.entries@[0].key() == (topic@, partition as nat),
{
    let mut entries: Vec<PlanEntry> = Vec::new();
    entries.push(PlanEntry { topic: String::from_str(topic), partition, offset });
    let plan = PartitionAssignmentPlan { entries };
    proof {
        let expected = assignment(topic@, Some(partition as nat), 0, offset);
        assert forall|k: (Seq<char>, nat)| plan@.dom().contains(k) <==> expected.dom().contains(
            k,
        ) by {
            if expected.dom().contains(k) {
                assert(plan.entries@[0].key() == k);
            }
        }
    }
    plan
}

/// What planning for a target yields on a topic with `count` partitions: a
/// pinned partition that the topic does not have is refused; otherwise the
/// plan holds the pinned partition, or all of them, from the start policy's
/// marker on.
pub open spec fn planned(
    result: Result<PartitionAssignmentPlan, KafkaError>,
    target: TopicOrPartition,
    count: nat,
    start_offset: StartOffset,
) -> bool {
    match target.pinned() {
        Some(p) => if p >= count {
            result matches Err(KafkaError::PartitionOutOfRange(requested, available))
                && requested == p && available == count
        } else {
            result matches Ok(plan) && plan.well_formed() && plan.entries@.len() == 1 && plan@
                == assignment(target.name(), Some(p), count, marker_of(start_offset))
        },
        None => result matches Ok(plan) && plan.well_formed() && plan.entries@.len() == count
            && plan@ == assignment(target.name(), None, count, marker_of(start_offset)),
    }
}

/// Builds the plan for a target on a topic that has `count` partitions.
pub fn plan_for_count(
    topic_or_partition: &TopicOrPartition,
    count: usize,
    start_offset: StartOffset,
) -> (result: Result<PartitionAssignmentPlan, KafkaError>)
    ensures
        planned(result, *topic_or_partition, count as nat, start_offset),
{
    let offset = offset_for(start_offset);
    match topic_or_partition {
        TopicOrPartition::Topic(topic) => Ok(plan_all_partitions(topic.as_str(), count, offset)),
        TopicOrPartition::TopicPartition(topic, partition) => {
            if *partition >= count {
                Err(KafkaError::PartitionOutOfRange(*partition, count))
            } else {
                let plan = plan_single_partition(topic.as_str(), *partition, offset);
                assert(assignment(topic@, Some(*partition as nat), 0, offset) =~= assignment(
                    topic@,
                    Some(*partition as nat),
                    count as nat,
                    offset,
                ));
                Ok(plan)
            }
        },
    }
}

/// Looks up the number of partitions of the target's topic in the snapshot
/// and builds the plan: for a pinned partition that the topic has, that
/// partition; for a topic, all its partitions; each from the start policy's
/// marker on.
pub fn assign_topic_or_partition(
    topology: &ClusterTopology,
    topic_or_partition: &TopicOrPartition,
    start_offset: StartOffset,
    highlighting: &Highlighting,
) -> (result: Result<PartitionAssignmentPlan, KafkaError>)
    ensures
        match live_partitions(topology@, topic_or_partition.name()) {
            Some(count) => planned(result, *topic_or_partition, count, start_offset),
            None => result matches Err(KafkaError::UnknownTopic(message)) && message@
                == unknown_topic_text(
                topic_or_partition.name(),
                topic_names_of(topology@),
                *highlighting,
            ),
        },
{
    let topic = topic_or_partition.topic();
    match fetch_number_of_partitions(topology, topic, highlighting) {
        Ok(count) => plan_for_count(topic_or_partition, count, start_offset),
        Err(error) => Err(error),
    }
}

/// A plan never refers to a partition that its topic does not have, nor to
/// another topic, and starts every partition at the start policy's marker.
pub proof fn lemma_plan_within_topic(
    result: Result<PartitionAssignmentPlan, KafkaError>,
    target: TopicOrPartition,
    count: nat,
    start_offset: StartOffset,
)
    requires
        planned(result, target, count, start_offset),
        result is Ok,
    ensures
        forall|k: (Seq<char>, nat)| #[trigger]
            result->Ok_0@.dom().contains(k) ==> k.0 == target.name() && k.1 < count
                && result->Ok_0@[k] == marker_of(start_offset),
        forall|i: int|
            0 <= i < result->Ok_0.entries@.len() ==> (#[trigger] result->Ok_0.entries@[i]).partition
                < count,
{
    let plan = result->Ok_0;
    assert forall|i: int| 0 <= i < plan.entries@.len() implies (#[trigger] plan.entries@[i]).partition
        < count by {
        let k = plan.entries@[i].key();
        assert(plan@.dom().contains(k));
    }
}

/// What was found out about a key: the plan to read, the partition in which
/// default partitioning places the key, and a warning where the target pins
/// another partition.
#[derive(Debug, Clone, PartialEq, Eq)]
pub struct KeyAssignment {
    pub plan: PartitionAssignmentPlan,
    pub expected_partition: usize,
    pub warning: Option<String>,
}

/// The warning for a key that default partitioning places in `expected`
/// while the target pins `configured`.
pub open spec fn mismatch_text(
    key: Seq<char>,
    expected: nat,
    configured: nat,
    highlighting: Highlighting,
) -> Seq<char> {
    "Key "@ + highlighting.bold.paint(key) + " would be expected in partition "@
        + highlighting.success.paint(decimal(expected))
        + " with default partitioning, not in configured partition "@ + highlighting.error.paint(
        decimal(configured),
    ) + "."@
}

/// Writes the warning for a pinned partition that differs from the expected one.
pub fn mismatch_warning(key: &str, expected: usize, configured: usize, highlighting: &Highlighting) -> (
    warning: String)
    ensures
        warning@ == mismatch_text(key@, expected as nat, configured as nat, *highlighting),
{
    let expected_text = decimal_string(expected);
    let configured_text = decimal_string(configured);
    let mut warning = String::from_str("Key ");
    highlighting.bold.append_painted(&mut warning, key);
    warning.append(" would be expected in partition ");
    highlighting.success.append_painted(&mut warning, expected_text.as_str());
    warning.append(" with default partitioning, not in configured partition ");
    highlighting.error.append_painted(&mut warning, configured_text.as_str());
    warning.append(".");
    warning
}

/// What planning for a key yields on a topic with `count` partitions, when
/// default partitioning places the key in `expected`: the plan holds the pinned
/// partition if there is one, else `expected`; a pinned partition other than
/// `expected` brings a warning, and one that the topic does not have is refused.
pub open spec fn planned_for_key(
    result: Result<KeyAssignment, KafkaError>,
    target: TopicOrPartition,
    count: nat,
    expected: nat,
    key: Seq<char>,
    start_offset: StartOffset,
    highlighting: Highlighting,
) -> bool {
    match target.pinned() {
        Some(p) => if p >= count {
            result matches Err(KafkaError::PartitionOutOfRange(requested, available))
                && requested == p && available == count
        } else {
            result matches Ok(found) && found.plan.well_formed() && found.plan.entries@.len() == 1
                && found.plan@ == assignment(
                target.name(),
                Some(p),
                count,
                marker_of(start_offset),
            ) && found.expected_partition == expected && if p == expected {
                found.warning is None
            } else {
                found.warning matches Some(text) && text@ == mismatch_text(
                    key,
                    expected,
                    p,
                    highlighting,
                )
            }
        },
        None => result matches Ok(found) && found.plan.well_formed() && found.plan.entries@.len()
            == 1 && found.plan@ == assignment(
            target.name(),
            Some(expected),
            count,
            marker_of(start_offset),
        ) && found.expected_partition == expected && found.warning is None,
    }
}

/// Builds the plan for a key whose expected partition is known: the pinned
/// partition wins over the expected one, with a warning where they differ.
pub fn assign_expected_partition(
    topic_or_partition: &TopicOrPartition,
    count: usize,
    expected: usize,
    key: &str,
    start_offset: StartOffset,
    highlighting: &Highlighting,
) -> (result: Result<KeyAssignment, KafkaError>)
    requires
        expected < count,
    ensures
        planned_for_key(
            result,
            *topic_or_partition,
            count as nat,
            expected as nat,
            key@,
            start_offset,
            *highlighting,
        ),
{
    let offset = offset_for(start_offset);
    match topic_or_partition {
        TopicOrPartition::Topic(topic) => {
            let plan = plan_single_partition(topic.as_str(), expected, offset);
            assert(assignment(topic@, Some(expected as nat), 0, offset) =~= assignment(
                topic@,
                Some(expected as nat),
                count as nat,
                offset,
            ));
            Ok(KeyAssignment { plan, expected_partition: expected, warning: None })
        },
        TopicOrPartition::TopicPartition(topic, configured) => {
            if *configured >= count {
                return Err(KafkaError::PartitionOutOfRange(*configured, count));
            }
            let warning = if expected != *configured {
                Some(mismatch_warning(key, expected, *configured, highlighting))
            } else {
                None
            };
            let plan = plan_single_partition(topic.as_str(), *configured, offset);
            assert(assignment(topic@, Some(*configured as nat), 0, offset) =~= assignment(
                topic@,
                Some(*configured as nat),
                count as nat,
                offset,
            ));
            Ok(KeyAssignment { plan, expected_partition: expected, warning })
        },
    }
}

/// Looks up the number of partitions of the target's topic in the snapshot,
/// calculates the partition for the given key and builds the plan that reads
/// it from the start policy's marker on.
pub fn assign_partition_for_key(
    topology: &ClusterTopology,
    topic_or_partition: &TopicOrPartition,
    key: &str,
    start_offset: StartOffset,
    highlighting: &Highlighting,
) -> (result: Result<KeyAssignment, KafkaError>)
    ensures
        match live_partitions(topology@, topic_or_partition.name()) {
            Some(count) => planned_for_key(
                result,
                *topic_or_partition,
                count,
                partition_of_key(key@, count),
                key@,
                start_offset,
                *highlighting,
            ),
            None => result matches Err(KafkaError::UnknownTopic(message)) && message@
                == unknown_topic_text(
                topic_or_partition.name(),
                topic_names_of(topology@),
                *highlighting,
            ),
        },
{
    let topic = topic_or_partition.topic();
    match fetch_number_of_partitions(topology, topic, highlighting) {
        Ok(count) => {
            let expected = partition_for_key(key, count);
            assign_expected_partition(
                topic_or_partition,
                count,
                expected,
                key,
                start_offset,
                highlighting,
            )
        },
        Err(error) => Err(error),
    }
}

} // verus!
