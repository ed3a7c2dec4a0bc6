use alligator::bridge::{pause_between, Step};
use alligator::{demo_bridge, Bridge, Message, MockBridge, Source, Span};
use std::sync::mpsc::{channel, Sender};

fn bridge(bodies: Vec<&'static str>, min: Span, max: Span) -> MockBridge {
    MockBridge::new(
        Source::Slack,
        "stream-a",
        "eng",
        "Engineering",
        "marina",
        bodies,
        min,
        max,
    )
}

#[test]
fn spans_in_other_units() {
    assert_eq!(Span::new(2, 5).as_nanos(), 2_000_000_005);
    assert_eq!(Span::from_secs(3).as_nanos(), 3_000_000_000);
    assert_eq!(Span::from_millis(1_500).as_nanos(), 1_500_000_000);
    assert_eq!(Span::from_millis(1_500).as_secs(), 1);
    assert_eq!(Span::from_millis(1_500).subsec_nanos(), 500_000_000);
    assert_eq!(Span::new(1, 2_999_999).as_millis(), 1_002);
    assert_eq!(Span::new(u64::MAX, 999_999_999).as_secs(), u64::MAX);
}

#[test]
fn spans_saturate() {
    let longest = Span::new(u64::MAX, 999_999_999);
    assert_eq!(longest.saturating_add(&Span::from_secs(1)).as_nanos(), longest.as_nanos());
    assert_eq!(Span::from_secs(2).saturating_add(&Span::from_secs(3)).as_secs(), 5);
    assert_eq!(Span::from_secs(2).saturating_sub(&Span::from_secs(3)).as_nanos(), 0);
    assert_eq!(Span::from_secs(3).saturating_sub(&Span::from_secs(2)).as_secs(), 1);
}

#[test]
fn text_of_a_span() {
    assert_eq!(Span::from_millis(1_500).text(), "1.5s");
    assert_eq!(Span::from_secs(60).text(), "60s");
    assert_eq!(Span::from_millis(7).text(), "7ms");
    assert_eq!(Span::new(0, 0).text(), "0ns");
}

#[test]
fn pauses_depend_on_the_clock() {
    let (min, max) = (Span::from_secs(2), Span::from_secs(5));
    let pause = |reading: Option<Span>| pause_between(&min, &max, reading).as_nanos();
    assert_eq!(pause(None), 2_000_000_000);
    assert_eq!(pause(Some(Span::new(0, 0))), 2_000_000_000);
    assert_eq!(pause(Some(Span::new(0, 1_234))), 3_234_000_000);
    assert_eq!(pause(Some(Span::new(0, 3_000))), 5_000_000_000);
    assert_eq!(pause(Some(Span::new(0, 3_001))), 2_000_000_000);
    // 18_446_744_074 s exceed 64 bits of nanoseconds by 290_448_384.
    assert_eq!(
        pause(Some(Span::new(18_446_744_074, 0))),
        2_000_000_000 + 290_448_384 % 3_001 * 1_000_000
    );
}

#[test]
fn pauses_stay_within_the_intervals() {
    let (min, max) = (Span::from_secs(2), Span::from_secs(5));
    for nanos in [0u32, 1, 999, 2_999, 3_000, 3_001, 123_456_789, 999_999_999] {
        let pause = pause_between(&min, &max, Some(Span::new(1_700_000_000, nanos))).as_nanos();
        assert!(min.as_nanos() <= pause && pause <= max.as_nanos());
    }
    let pause = pause_between(&max, &min, Some(Span::new(0, 77))).as_nanos();
    assert_eq!(pause, max.as_nanos());
    let pause = pause_between(&min, &min, Some(Span::new(0, 77))).as_nanos();
    assert_eq!(pause, min.as_nanos());
}

#[test]
fn messages_of_a_bridge() {
    let bridge = bridge(vec!["one", "two"], Span::from_secs(1), Span::from_secs(1));
    let message = bridge.message_at(1).expect("second message");
    assert_eq!(message.source, Source::Slack);
    assert_eq!(message.stream_id, "stream-a");
    assert_eq!(message.room_id, "eng");
    assert_eq!(message.room_title, "Engineering");
    assert_eq!(message.author, "marina");
    assert_eq!(message.body, "two");
    assert!(bridge.message_at(2).is_none());
}

#[test]
fn messages_go_round() {
    let bridge = bridge(vec!["one", "two", "three"], Span::from_secs(1), Span::from_secs(1));
    let mut index = 0usize;
    let mut bodies = Vec::new();
    for _ in 0..7 {
        bodies.push(bridge.message_at(index).expect("message").body);
        match bridge.step_after(index, true, None) {
            Step::Wait { pause, next } => {
                assert_eq!(pause.as_nanos(), 1_000_000_000);
                index = next;
            }
            Step::Stop => panic!("stopped"),
        }
    }
    assert_eq!(bodies, vec!["one", "two", "three", "one", "two", "three", "one"]);
}

#[test]
fn a_bridge_stops_when_nobody_receives() {
    let bridge = bridge(vec!["one"], Span::from_secs(1), Span::from_secs(1));
    assert!(matches!(bridge.step_after(0, false, None), Step::Stop));
    assert!(matches!(bridge.step(0, false), Step::Stop));
}

#[test]
fn a_step_by_the_system_clock_waits_within_the_intervals() {
    let bridge = bridge(vec!["one"], Span::from_secs(2), Span::from_secs(5));
    match bridge.step(0, true) {
        Step::Wait { pause, next } => {
            assert!(pause.as_nanos() >= 2_000_000_000 && pause.as_nanos() <= 5_000_000_000);
            assert_eq!(next, 0);
        }
        Step::Stop => panic!("stopped"),
    }
}

#[test]
fn intervals_whose_pauses_cannot_be_counted() {
    let widest = Span::from_millis(u64::MAX);
    assert!(!bridge(vec!["one"], Span::from_secs(0), widest).is_countable());
    assert!(bridge(vec!["one"], widest, Span::from_secs(0)).is_countable());
    assert!(bridge(vec!["one"], Span::from_secs(2), Span::from_secs(5)).is_countable());
}

struct OneShot {
    message: Message,
}

impl Bridge for OneShot {
    fn start(self, sender: Sender<Message>) {
        sender.send(self.message).expect("receiver is there");
    }
}

#[test]
fn bridges_can_be_written_elsewhere() {
    let source = bridge(vec!["one"], Span::from_secs(1), Span::from_secs(1));
    let message = source.message_at(0).expect("message");
    let (sender, receiver) = channel();
    OneShot { message }.start(sender);
    assert_eq!(receiver.recv().expect("delivered").body, "one");
}

#[test]
fn without_a_clock_reading_any_window_gives_the_shortest_pause() {
    let (min, widest) = (Span::from_secs(0), Span::from_millis(u64::MAX));
    assert_eq!(pause_between(&min, &widest, None).as_nanos(), 0);
    match bridge(vec!["one"], min, widest).step_after(0, true, None) {
        Step::Wait { pause, next } => {
            assert_eq!(pause.as_nanos(), 0);
            assert_eq!(next, 0);
        }
        Step::Stop => panic!("stopped"),
    }
}

#[test]
fn the_demonstration_is_one_slack_stream() {
    let demo = demo_bridge();
    let bodies: Vec<String> = (0..3)
        .map(|index| {
            let message = demo.message_at(index).expect("message");
            assert_eq!(message.source, Source::Slack);
            assert_eq!(message.stream_id, "slack-demo");
            assert_eq!(message.room_key(), "Slack:eng");
            assert_eq!(message.room_title, "Engineering");
            assert_eq!(message.author, "marina");
            message.body
        })
        .collect();
    assert_eq!(bodies, vec!["Deploy complete", "Can someone review #42?", "Standup in 5m"]);
    assert!(demo.message_at(3).is_none());
    assert!(demo.is_countable());
    let pause = |nanos: u32| match demo.step_after(0, true, Some(Span::new(0, nanos))) {
        Step::Wait { pause, .. } => pause.as_nanos(),
        Step::Stop => panic!("stopped"),
    };
    assert_eq!(pause(0), 2_000_000_000);
    assert_eq!(pause(3_000), 5_000_000_000);
}
