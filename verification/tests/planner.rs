use kiek_kafka::error::KafkaError;
use kiek_kafka::partition::partition_for_key;
use kiek_kafka::planner::{
    assign_expected_partition, assign_partition_for_key, assign_topic_or_partition,
    fetch_number_of_partitions, mismatch_warning, plan_all_partitions, plan_for_count,
    plan_single_partition, unknown_topic, PlanEntry,
};
use kiek_kafka::style::{Highlighting, Style};
use kiek_kafka::topology::{
    offset_for, ClusterTopology, OffsetMarker, StartOffset, TopicMetadata, TopicOrPartition,
};

fn cluster_of(topics: &[(&str, usize)]) -> ClusterTopology {
    ClusterTopology::new(
        topics
            .iter()
            .map(|(name, partitions)| TopicMetadata { name: name.to_string(), partitions: *partitions })
            .collect(),
    )
}

fn entry(topic: &str, partition: usize, offset: OffsetMarker) -> PlanEntry {
    PlanEntry { topic: topic.to_string(), partition, offset }
}

#[test]
fn offset_markers_follow_the_start_policy() {
    assert_eq!(offset_for(StartOffset::Earliest), OffsetMarker::Beginning);
    assert_eq!(offset_for(StartOffset::Latest(0)), OffsetMarker::End);
    assert_eq!(offset_for(StartOffset::Latest(1)), OffsetMarker::TailOffset(1));
    assert_eq!(offset_for(StartOffset::Latest(250)), OffsetMarker::TailOffset(250));
    assert_eq!(offset_for(StartOffset::Latest(i64::MAX)), OffsetMarker::TailOffset(i64::MAX));
    assert_eq!(offset_for(StartOffset::Latest(-3)), OffsetMarker::TailOffset(-3));
}

#[test]
fn plan_for_a_topic_holds_every_partition() {
    let cluster = cluster_of(&[("t", 4)]);
    let plan = assign_topic_or_partition(
        &cluster,
        &TopicOrPartition::Topic("t".to_string()),
        StartOffset::Earliest,
        &Highlighting::plain(),
    )
    .unwrap();
    assert_eq!(plan.len(), 4);
    assert_eq!(
        plan.entries,
        vec![
            entry("t", 0, OffsetMarker::Beginning),
            entry("t", 1, OffsetMarker::Beginning),
            entry("t", 2, OffsetMarker::Beginning),
            entry("t", 3, OffsetMarker::Beginning),
        ]
    );
    for partition in 0..4 {
        assert_eq!(plan.get("t", partition), Some(OffsetMarker::Beginning));
    }
    assert_eq!(plan.get("t", 4), None);
    assert_eq!(plan.get("u", 0), None);
}

#[test]
fn plan_for_a_partition_out_of_range_fails() {
    let cluster = cluster_of(&[("t", 4)]);
    let result = assign_topic_or_partition(
        &cluster,
        &TopicOrPartition::TopicPartition("t".to_string(), 9),
        StartOffset::Earliest,
        &Highlighting::plain(),
    );
    assert_eq!(result, Err(KafkaError::PartitionOutOfRange(9, 4)));
}

#[test]
fn plan_refuses_the_partition_count_itself() {
    let cluster = cluster_of(&[("t", 4)]);
    let result = assign_topic_or_partition(
        &cluster,
        &TopicOrPartition::TopicPartition("t".to_string(), 4),
        StartOffset::Latest(0),
        &Highlighting::plain(),
    );
    assert_eq!(result, Err(KafkaError::PartitionOutOfRange(4, 4)));
}

#[test]
fn plan_for_a_pinned_partition_holds_it_alone() {
    let cluster = cluster_of(&[("s", 2), ("t", 4)]);
    let plan = assign_topic_or_partition(
        &cluster,
        &TopicOrPartition::TopicPartition("t".to_string(), 3),
        StartOffset::Latest(10),
        &Highlighting::plain(),
    )
    .unwrap();
    assert_eq!(plan.entries, vec![entry("t", 3, OffsetMarker::TailOffset(10))]);
    assert_eq!(plan.get("t", 3), Some(OffsetMarker::TailOffset(10)));
    assert_eq!(plan.get("t", 0), None);
}

#[test]
fn plan_from_the_end() {
    let cluster = cluster_of(&[("t", 2)]);
    let plan = assign_topic_or_partition(
        &cluster,
        &TopicOrPartition::Topic("t".to_string()),
        StartOffset::Latest(0),
        &Highlighting::plain(),
    )
    .unwrap();
    assert_eq!(plan.entries, vec![entry("t", 0, OffsetMarker::End), entry("t", 1, OffsetMarker::End)]);
}

#[test]
fn plan_for_an_unknown_topic_suggests() {
    let cluster = cluster_of(&[("topic", 4), ("something-totally-different", 1)]);
    let result = assign_topic_or_partition(
        &cluster,
        &TopicOrPartition::Topic("topik".to_string()),
        StartOffset::Earliest,
        &Highlighting::plain(),
    );
    assert_eq!(
        result,
        Err(KafkaError::UnknownTopic("Topic topik does not exist. Did you mean topic?".to_string()))
    );
}

#[test]
fn plan_for_a_topic_without_partitions_is_unknown() {
    let cluster = cluster_of(&[("empty", 0), ("other-topic-name", 3)]);
    let result = assign_topic_or_partition(
        &cluster,
        &TopicOrPartition::TopicPartition("empty".to_string(), 0),
        StartOffset::Earliest,
        &Highlighting::plain(),
    );
    assert_eq!(
        result,
        Err(KafkaError::UnknownTopic("Topic empty does not exist. Did you mean empty?".to_string()))
    );
}

#[test]
fn plan_on_an_empty_cluster() {
    let cluster = cluster_of(&[]);
    let result = assign_topic_or_partition(
        &cluster,
        &TopicOrPartition::Topic("t".to_string()),
        StartOffset::Earliest,
        &Highlighting::plain(),
    );
    assert_eq!(
        result,
        Err(KafkaError::UnknownTopic(
            "Topic t does not exist. In fact, there are no topics on the broker.".to_string()
        ))
    );
}

#[test]
fn fetch_number_of_partitions_reads_the_snapshot() {
    let cluster = cluster_of(&[("a", 1), ("b", 12), ("a", 7)]);
    assert_eq!(fetch_number_of_partitions(&cluster, "a", &Highlighting::plain()), Ok(1));
    assert_eq!(fetch_number_of_partitions(&cluster, "b", &Highlighting::plain()), Ok(12));
    assert_eq!(
        fetch_number_of_partitions(&cluster, "c", &Highlighting::plain()),
        Err(KafkaError::UnknownTopic("Topic c does not exist. Did you mean a?".to_string()))
    );
}

#[test]
fn unknown_topic_lists_what_is_there() {
    let cluster = cluster_of(&[("abcdefghi", 1), ("abcdefgh", 1), ("abcdefg", 1)]);
    assert_eq!(
        unknown_topic(&cluster, "topic", &Highlighting::plain()),
        KafkaError::UnknownTopic(
            "Topic topic does not exist. Available topics are:\n - abcdefg\n - abcdefgh\n - abcdefghi"
                .to_string()
        )
    );
}

#[test]
fn plan_builders() {
    assert_eq!(plan_all_partitions("t", 0, OffsetMarker::End).entries, Vec::new());
    assert_eq!(
        plan_all_partitions("t", 2, OffsetMarker::End).entries,
        vec![entry("t", 0, OffsetMarker::End), entry("t", 1, OffsetMarker::End)]
    );
    assert_eq!(
        plan_single_partition("t", 5, OffsetMarker::Beginning).entries,
        vec![entry("t", 5, OffsetMarker::Beginning)]
    );
    assert_eq!(
        plan_for_count(&TopicOrPartition::Topic("t".to_string()), 3, StartOffset::Latest(2))
            .unwrap()
            .len(),
        3
    );
    assert_eq!(
        plan_for_count(&TopicOrPartition::TopicPartition("t".to_string(), 3), 3, StartOffset::Earliest),
        Err(KafkaError::PartitionOutOfRange(3, 3))
    );
}

#[test]
fn key_plan_for_a_topic_reads_the_expected_partition() {
    let cluster = cluster_of(&[("t", 6)]);
    let found = assign_partition_for_key(
        &cluster,
        &TopicOrPartition::Topic("t".to_string()),
        "control+e2e-zgddu3j-delete",
        StartOffset::Earliest,
        &Highlighting::plain(),
    )
    .unwrap();
    assert_eq!(found.expected_partition, 5);
    assert_eq!(found.warning, None);
    assert_eq!(found.plan.entries, vec![entry("t", 5, OffsetMarker::Beginning)]);
}

#[test]
fn key_plan_keeps_the_pinned_partition_and_warns() {
    let cluster = cluster_of(&[("t", 6)]);
    let found = assign_partition_for_key(
        &cluster,
        &TopicOrPartition::TopicPartition("t".to_string(), 2),
        "control+e2e-zgddu3j-delete",
        StartOffset::Latest(0),
        &Highlighting::plain(),
    )
    .unwrap();
    assert_eq!(found.expected_partition, 5);
    assert_eq!(found.plan.entries, vec![entry("t", 2, OffsetMarker::End)]);
    assert_eq!(
        found.warning,
        Some(
            "Key control+e2e-zgddu3j-delete would be expected in partition 5 with default partitioning, not in configured partition 2."
                .to_string()
        )
    );
}

#[test]
fn key_plan_is_silent_when_the_pinned_partition_is_the_expected_one() {
    let cluster = cluster_of(&[("t", 6)]);
    let found = assign_partition_for_key(
        &cluster,
        &TopicOrPartition::TopicPartition("t".to_string(), 5),
        "control+e2e-zgddu3j-delete",
        StartOffset::Earliest,
        &Highlighting::plain(),
    )
    .unwrap();
    assert_eq!(found.warning, None);
    assert_eq!(found.plan.entries, vec![entry("t", 5, OffsetMarker::Beginning)]);
}

#[test]
fn key_plan_refuses_a_partition_out_of_range() {
    let cluster = cluster_of(&[("t", 6)]);
    let result = assign_partition_for_key(
        &cluster,
        &TopicOrPartition::TopicPartition("t".to_string(), 6),
        "key",
        StartOffset::Earliest,
        &Highlighting::plain(),
    );
    assert_eq!(result, Err(KafkaError::PartitionOutOfRange(6, 6)));
}

#[test]
fn key_plan_for_an_unknown_topic() {
    let cluster = cluster_of(&[("topic", 6)]);
    let result = assign_partition_for_key(
        &cluster,
        &TopicOrPartition::Topic("topik".to_string()),
        "key",
        StartOffset::Earliest,
        &Highlighting::plain(),
    );
    assert_eq!(
        result,
        Err(KafkaError::UnknownTopic("Topic topik does not exist. Did you mean topic?".to_string()))
    );
}

#[test]
fn key_plan_uses_the_live_partition_count() {
    let key = "834408c2-6061-7057-bdc1-320cc24c8873";
    for partitions in [1usize, 3, 6, 24] {
        let cluster = cluster_of(&[("t", partitions)]);
        let found = assign_partition_for_key(
            &cluster,
            &TopicOrPartition::Topic("t".to_string()),
            key,
            StartOffset::Earliest,
            &Highlighting::plain(),
        )
        .unwrap();
        assert_eq!(found.expected_partition, partition_for_key(key, partitions));
        assert_eq!(found.plan.entries[0].partition, partition_for_key(key, partitions));
    }
}

#[test]
fn expected_partition_yields_to_the_pinned_one() {
    let found = assign_expected_partition(
        &TopicOrPartition::TopicPartition("t".to_string(), 0),
        12,
        11,
        "k",
        StartOffset::Latest(5),
        &Highlighting::plain(),
    )
    .unwrap();
    assert_eq!(found.plan.entries, vec![entry("t", 0, OffsetMarker::TailOffset(5))]);
    assert_eq!(found.expected_partition, 11);
    assert_eq!(
        found.warning,
        Some(
            "Key k would be expected in partition 11 with default partitioning, not in configured partition 0."
                .to_string()
        )
    );
}

#[test]
fn mismatch_warning_carries_the_styles() {
    let mut highlighting = Highlighting::plain();
    highlighting.bold = Style::new("<b>", "</b>");
    highlighting.success = Style::new("<s>", "</s>");
    highlighting.error = Style::new("<e>", "</e>");
    assert_eq!(
        mismatch_warning("k", 3, 104, &highlighting),
        "Key <b>k</b> would be expected in partition <s>3</s> with default partitioning, not in configured partition <e>104</e>."
    );
}
