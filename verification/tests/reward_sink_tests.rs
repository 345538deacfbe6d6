use rlgym_sim_rs::reward_sink::{format_reward_line, RewardSink};

#[test]
fn reward_line_format_single() {
    let line = format_reward_line(&vec!["1".to_string()]);
    assert_eq!(line, "[1]");
}

#[test]
fn reward_line_format_many() {
    let parts = vec!["1".to_string(), "2.5".to_string(), "-0.25".to_string()];
    assert_eq!(format_reward_line(&parts), "[1, 2.5, -0.25]");
}

#[test]
fn sink_flushes_when_channel_is_empty() {
    let mut sink = RewardSink::new();
    let batch = sink.enqueue(&vec!["0.5".to_string()], true);
    let batch = batch.expect("an empty channel flushes at once");
    assert_eq!(batch.len(), 1);
    assert_eq!(batch[0], "[0.5]");
}

#[test]
fn sink_holds_lines_while_channel_is_busy() {
    let mut sink = RewardSink::new();
    assert!(sink.enqueue(&vec!["1".to_string()], false).is_none());
    assert!(sink.enqueue(&vec!["2".to_string()], false).is_none());
    let rest = sink.drain();
    assert_eq!(rest, vec!["[1]".to_string(), "[2]".to_string()]);
}

#[test]
fn sink_keeps_every_line_in_order_past_batch_size() {
    // more entries than one flush batch: all of them must come out, in order
    let mut sink = RewardSink::new();
    let total: usize = 1005;
    let mut written: Vec<String> = Vec::new();
    for i in 0..total {
        let parts = vec![format!("{}", i), format!("{}", i + 1)];
        if let Some(batch) = sink.enqueue(&parts, false) {
            written.extend(batch);
        }
    }
    assert!(written.len() >= 1000, "the batch size was passed, so a flush must have happened");
    written.extend(sink.drain());
    assert_eq!(written.len(), total);
    for (i, line) in written.iter().enumerate() {
        assert_eq!(line, &format!("[{}, {}]", i, i + 1));
    }
}

#[test]
fn drain_on_empty_sink_is_empty() {
    let mut sink = RewardSink::new();
    assert!(sink.drain().is_empty());
}
