//! What a search is aimed at, where it starts, and the snapshot of the
//! cluster that both are checked against.

use crate::text::names_of;
use vstd::prelude::*;
use vstd::string::*;

verus! {

/// The target of a search: every partition of a topic, or one partition of it.
#[derive(Debug, Clone, PartialEq)]
pub enum TopicOrPartition {
    Topic(String),
    TopicPartition(String, usize),
}

impl TopicOrPartition {
    /// The name of the topic that the target lies in.
    pub open spec fn name(&self) -> Seq<char> {
        match self {
            TopicOrPartition::Topic(topic) => topic@,
            TopicOrPartition::TopicPartition(topic, _) => topic@,
        }
    }

    /// The partition that the target pins, if it pins one.
    pub open spec fn pinned(&self) -> Option<nat> {
        match self {
            TopicOrPartition::Topic(_) => None,
            TopicOrPartition::TopicPartition(_, partition) => Some(*partition as nat),
        }
    }

    /// The name of the topic that the target lies in.
    pub fn topic(&self) -> (topic: &str)
        ensures
            topic@ == self.name(),
    {
        match self {
            TopicOrPartition::Topic(topic) => topic.as_str(),
            TopicOrPartition::TopicPartition(topic, _) => topic.as_str(),
        }
    }

    /// A copy of this target.
    pub fn duplicate(&self) -> (copy: TopicOrPartition)
        ensures
            copy.name() == self.name(),
            copy.pinned() == self.pinned(),
    {
        match self {
            TopicOrPartition::Topic(topic) => TopicOrPartition::Topic(topic.clone()),
            TopicOrPartition::TopicPartition(topic, partition) => TopicOrPartition::TopicPartition(
                topic.clone(),
                *partition,
            ),
        }
    }
}

/// Where reading starts: at the beginning, or a number of records before the
/// current end (none: only what arrives from now on).
#[derive(Debug, Clone, Copy, PartialEq, Eq)]
pub enum StartOffset {
    Earliest,
    Latest(i64),
}

/// The position at which the client starts to read a partition.
#[derive(Debug, Clone, Copy, PartialEq, Eq)]
pub enum OffsetMarker {
    Beginning,
    End,
    TailOffset(i64),
}

/// The marker that a start policy stands for.
pub open spec fn marker_of(start_offset: StartOffset) -> OffsetMarker {
    match start_offset {
        StartOffset::Earliest => OffsetMarker::Beginning,
        StartOffset::Latest(n) => if n == 0 {
            OffsetMarker::End
        } else {
            OffsetMarker::TailOffset(n)
        },
    }
}

/// Derives the offset marker from the start policy.
pub fn offset_for(start_offset: StartOffset) -> (marker: OffsetMarker)
    ensures
        marker == marker_of(start_offset),
{
    match start_offset {
        StartOffset::Earliest => OffsetMarker::Beginning,
        StartOffset::Latest(0) => OffsetMarker::End,
        StartOffset::Latest(offset) => OffsetMarker::TailOffset(offset),
    }
}

/// One topic of the cluster: its name and how many partitions it has.
#[derive(Debug, Clone, PartialEq, Eq)]
pub struct TopicMetadata {
    pub name: String,
    pub partitions: usize,
}

impl View for TopicMetadata {
    type V = (Seq<char>, nat);

    open spec fn view(&self) -> (Seq<char>, nat) {
        (self.name@, self.partitions as nat)
    }
}

/// A snapshot of the topics of a cluster, in the order the cluster gave them.
#[derive(Debug, Clone, PartialEq, Eq)]
pub struct ClusterTopology {
    pub topics: Vec<TopicMetadata>,
}

impl View for ClusterTopology {
    type V = Seq<(Seq<char>, nat)>;

    open spec fn view(&self) -> Seq<(Seq<char>, nat)> {
        Seq::new(self.topics@.len(), |i: int| self.topics@[i]@)
    }
}

/// The names of the topics of a snapshot, in its order.
pub open spec fn topic_names_of(topics: Seq<(Seq<char>, nat)>) -> Seq<Seq<char>> {
    Seq::new(topics.len(), |i: int| topics[i].0)
}

/// The partition count of the first topic of the snapshot that is named
/// `name`, if there is one.
pub open spec fn partitions_of(topics: Seq<(Seq<char>, nat)>, name: Seq<char>) -> Option<nat>
    decreases topics.len(),
{
    if topics.len() == 0 {
        None
    } else if topics.first().0 == name {
        Some(topics.first().1)
    } else {
        partitions_of(topics.drop_first(), name)
    }
}

/// Holds when some topic of the snapshot is named `name`.
pub open spec fn has_topic(topics: Seq<(Seq<char>, nat)>, name: Seq<char>) -> bool {
    exists|i: int| 0 <= i < topics.len() && topics[i].0 == name
}

/// A name has a partition count exactly when the snapshot has a topic of that name.
pub proof fn lemma_partitions_of_known(topics: Seq<(Seq<char>, nat)>, name: Seq<char>)
    ensures
        partitions_of(topics, name) is Some <==> has_topic(topics, name),
    decreases topics.len(),
{
    if topics.len() > 0 {
        if topics.first().0 == name {
            assert(topics[0].0 == name);
        } else {
            let rest = topics.drop_first();
            lemma_partitions_of_known(rest, name);
            if has_topic(rest, name) {
                let i = choose|i: int| 0 <= i < rest.len() && rest[i].0 == name;
                assert(topics[i + 1].0 == name);
            }
            if has_topic(topics, name) {
                let i = choose|i: int| 0 <= i < topics.len() && topics[i].0 == name;
                assert(rest[i - 1].0 == name);
            }
        }
    }
}

impl ClusterTopology {
    /// A snapshot of the given topics.
    pub fn new(topics: Vec<TopicMetadata>) -> (topology: ClusterTopology)
        ensures
            topology.topics == topics,
    {
        ClusterTopology { topics }
    }

    /// The names of all topics, in the order of the snapshot.
    pub fn topic_names(&self) -> (names: Vec<String>)
        ensures
            names_of(names@) == topic_names_of(self@),
    {
        let mut names: Vec<String> = Vec::new();
        let mut i: usize = 0;
        while i < self.topics.len()
            invariant
                i <= self.topics.len(),
                names.len() == i,
                forall|k: int| 0 <= k < i ==> names@[k]@ == self.topics@[k].name@,
            decreases self.topics.len() - i,
        {
            names.push(self.topics[i].name.clone());
            i += 1;
        }
        names
    }

    /// Looks up how many partitions the topic named `name` has.
    pub fn partition_count(&self, name: &str) -> (count: Option<usize>)
        ensures
            count is Some <==> partitions_of(self@, name@) is Some,
            count is Some ==> count->0 as nat == partitions_of(self@, name@)->0,
    {
        let wanted = String::from_str(name);
        let mut i: usize = 0;
        assert(self@.skip(0) =~= self@);
        while i < self.topics.len()
            invariant
                i <= self.topics.len(),
                wanted@ == name@,
                partitions_of(self@, name@) == partitions_of(self@.skip(i as int), name@),
            decreases self.topics.len() - i,
        {
            assert(self@.skip(i as int).drop_first() =~= self@.skip(i as int + 1));
            if self.topics[i].name == wanted {
                return Some(self.topics[i].partitions);
            }
            i += 1;
        }
        None
    }
}

} // verus!
