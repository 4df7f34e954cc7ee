use kiek_kafka::error::KafkaError;
use kiek_kafka::resolver::{
    partition_items, prompt_topic_or_partition, select_topic_or_partition, using_notice,
    PartitionStyle, PromptAction, PromptState, Resolution, PARTITION_PROMPT_ROWS,
    TOPIC_PROMPT_ROWS,
};
use kiek_kafka::style::{Highlighting, Style};
use kiek_kafka::topology::{ClusterTopology, TopicMetadata, TopicOrPartition};

fn snapshot_of(topics: &[(&str, usize)]) -> ClusterTopology {
    ClusterTopology::new(
        topics
            .iter()
            .map(|(name, partitions)| TopicMetadata { name: name.to_string(), partitions: *partitions })
            .collect(),
    )
}

#[test]
fn no_topics_means_no_target() {
    let cluster = snapshot_of(&[]);
    assert_eq!(
        select_topic_or_partition(&cluster, None, false, &Highlighting::plain()),
        Err(KafkaError::NoTopicsAvailable)
    );
    assert_eq!(
        select_topic_or_partition(&cluster, None, true, &Highlighting::plain()),
        Err(KafkaError::NoTopicsAvailable)
    );
    let hint = TopicOrPartition::Topic("t".to_string());
    assert_eq!(
        select_topic_or_partition(&cluster, Some(&hint), false, &Highlighting::plain()),
        Err(KafkaError::NoTopicsAvailable)
    );
}

#[test]
fn single_topic_is_taken_without_asking() {
    let cluster = snapshot_of(&[("only", 3)]);
    let expected = Ok(Resolution::Resolved {
        target: TopicOrPartition::Topic("only".to_string()),
        announce: true,
    });
    assert_eq!(select_topic_or_partition(&cluster, None, false, &Highlighting::plain()), expected);
    assert_eq!(select_topic_or_partition(&cluster, None, true, &Highlighting::plain()), expected);
}

#[test]
fn several_topics_are_ambiguous_in_silent_mode() {
    let cluster = snapshot_of(&[("a", 1), ("b", 1)]);
    assert_eq!(
        select_topic_or_partition(&cluster, None, true, &Highlighting::plain()),
        Err(KafkaError::AmbiguousTopicSelection)
    );
}

#[test]
fn several_topics_are_left_to_the_user() {
    let cluster = snapshot_of(&[("a", 1), ("b", 1)]);
    assert_eq!(
        select_topic_or_partition(&cluster, None, false, &Highlighting::plain()),
        Ok(Resolution::Prompt)
    );
}

#[test]
fn a_hint_that_exists_stands() {
    let cluster = snapshot_of(&[("a", 1), ("b", 4)]);
    let hint = TopicOrPartition::TopicPartition("b".to_string(), 2);
    assert_eq!(
        select_topic_or_partition(&cluster, Some(&hint), true, &Highlighting::plain()),
        Ok(Resolution::Resolved { target: hint.clone(), announce: false })
    );
    let hint = TopicOrPartition::Topic("a".to_string());
    assert_eq!(
        select_topic_or_partition(&cluster, Some(&hint), false, &Highlighting::plain()),
        Ok(Resolution::Resolved { target: hint.clone(), announce: false })
    );
}

#[test]
fn a_hint_on_the_only_topic_is_not_announced() {
    let cluster = snapshot_of(&[("only", 3)]);
    let hint = TopicOrPartition::Topic("only".to_string());
    assert_eq!(
        select_topic_or_partition(&cluster, Some(&hint), false, &Highlighting::plain()),
        Ok(Resolution::Resolved { target: hint.clone(), announce: false })
    );
}

#[test]
fn a_hint_that_does_not_exist_gets_a_suggestion() {
    let cluster = snapshot_of(&[("topic", 1), ("something-totally-different", 4)]);
    let hint = TopicOrPartition::Topic("topik".to_string());
    assert_eq!(
        select_topic_or_partition(&cluster, Some(&hint), false, &Highlighting::plain()),
        Err(KafkaError::UnknownTopic("Topic topik does not exist. Did you mean topic?".to_string()))
    );
}

#[test]
fn notice_names_the_topic() {
    assert_eq!(using_notice("only"), "topic only");
}

#[test]
fn prompt_rows() {
    assert_eq!(TOPIC_PROMPT_ROWS, 15);
    assert_eq!(PARTITION_PROMPT_ROWS, 13);
}

#[test]
fn prompt_asks_for_topic_then_partition() {
    let cluster = snapshot_of(&[("a", 1), ("b", 4), ("c", 2)]);
    let (state, action) = prompt_topic_or_partition(&cluster, PromptState::Start, 0);
    assert_eq!(state, PromptState::ChoosingTopic);
    assert_eq!(
        action,
        PromptAction::AskTopic(vec!["a".to_string(), "b".to_string(), "c".to_string()])
    );

    let (state, action) = prompt_topic_or_partition(&cluster, state, 1);
    assert_eq!(state, PromptState::ChoosingPartition(1));
    assert_eq!(action, PromptAction::AskPartition("b".to_string(), 4));

    let (state, action) = prompt_topic_or_partition(&cluster, state, 3);
    assert_eq!(state, PromptState::Done);
    assert_eq!(action, PromptAction::Finish(TopicOrPartition::TopicPartition("b".to_string(), 2)));
}

#[test]
fn prompt_first_line_stands_for_the_whole_topic() {
    let cluster = snapshot_of(&[("a", 1), ("b", 4)]);
    let (state, action) = prompt_topic_or_partition(&cluster, PromptState::ChoosingPartition(0), 0);
    assert_eq!(state, PromptState::Done);
    assert_eq!(action, PromptAction::Finish(TopicOrPartition::Topic("a".to_string())));
}

#[test]
fn prompt_last_line_is_the_last_partition() {
    let cluster = snapshot_of(&[("a", 1), ("b", 4)]);
    let (_, action) = prompt_topic_or_partition(&cluster, PromptState::ChoosingPartition(1), 4);
    assert_eq!(action, PromptAction::Finish(TopicOrPartition::TopicPartition("b".to_string(), 3)));
    let (_, action) = prompt_topic_or_partition(&cluster, PromptState::ChoosingPartition(0), 1);
    assert_eq!(action, PromptAction::Finish(TopicOrPartition::TopicPartition("a".to_string(), 0)));
}

#[test]
fn partition_items_plain() {
    let plain = PartitionStyle { color: Style::none(), dimmed: Style::none() };
    let items = partition_items("t", &vec![plain.clone(), plain.clone(), plain]);
    assert_eq!(items, vec!["t (all partitions)", "t-0", "t-1", "t-2"]);
}

#[test]
fn partition_items_without_partitions() {
    assert_eq!(partition_items("topic", &Vec::new()), vec!["topic (all partitions)"]);
}

#[test]
fn partition_items_styled() {
    let first = PartitionStyle { color: Style::new("<r>", "</r>"), dimmed: Style::new("<d>", "</d>") };
    let second = PartitionStyle { color: Style::new("<g>", "</g>"), dimmed: Style::new("<h>", "</h>") };
    let items = partition_items("t", &vec![first, second]);
    assert_eq!(
        items,
        vec![
            "t (all partitions)",
            "<r>t</r><d>-</d><r>0</r>",
            "<g>t</g><h>-</h><g>1</g>",
        ]
    );
}

#[test]
fn partition_items_count_in_decimal() {
    let plain = PartitionStyle { color: Style::none(), dimmed: Style::none() };
    let styles: Vec<PartitionStyle> = (0..12).map(|_| plain.clone()).collect();
    let items = partition_items("t", &styles);
    assert_eq!(items.len(), 13);
    assert_eq!(items[10], "t-9");
    assert_eq!(items[11], "t-10");
    assert_eq!(items[12], "t-11");
}
