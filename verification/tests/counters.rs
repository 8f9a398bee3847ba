use streams::counters::{cycle_line, emissions, values, Values};

#[test]
fn values_count_and_flip() {
    assert_eq!(
        values(0),
        Values { toggle: 0, count4: 1, count30: 1, flip1: -1, flip2: -2, flip14: 1, flip23: 2 }
    );
    assert_eq!(
        values(31),
        Values { toggle: 1, count4: 4, count30: 2, flip1: 1, flip2: 2, flip14: 4, flip23: 3 }
    );
    for cycle in 0..200 {
        assert_eq!(values(cycle), values(cycle + 60));
    }
}

#[test]
fn every_channel_is_sent() {
    let v = values(5);
    let list: Vec<String> = emissions(&v)
        .iter()
        .map(|e| format!("{}{} {}", e.channel, e.tag.as_ref().map(|t| format!("[{t}]")).unwrap_or_default(), e.value))
        .collect();
    assert_eq!(
        list,
        vec![
            "toggle 1",
            "count4 2",
            "count30 6",
            "flip-1 1",
            "flip-2 2",
            "flip-1-4 4",
            "flip-2-3 3",
            "flip-around-zero[flip-1] 1",
            "flip-around-zero[flip-2] 2",
            "flip-positive[flip-1-4] 4",
            "flip-positive[flip-2-3] 3",
            "flip-positive-ab[a-flip-2-3] 3",
            "flip-positive-ab[b-flip-1-4] 4",
            "toggle-tagged[1] 1",
            "count4-tagged[1] 2",
            "count30-tagged[1] 6",
            "toggle-tagged[2] 1",
            "count4-tagged[2] 2",
            "count30-tagged[2] 6",
            "toggle-tagged[3] 1",
            "count4-tagged[3] 2",
            "count30-tagged[3] 6",
            "toggle-tagged[4] 1",
            "count4-tagged[4] 2",
            "count30-tagged[4] 6",
        ]
    );
}

#[test]
fn counting_cycles_are_reported() {
    assert_eq!(
        cycle_line(4, &values(4)),
        "cycle 4: toggle=0 count4=1 count30=5 flip1=-1 flip2=-2 flip14=1 flip23=2"
    );
}
