use alligator::{Message, Source, UnifiedTimeline};

fn sample_message(
    source: Source,
    stream_id: &'static str,
    room_id: &'static str,
    body: &str,
) -> Message {
    Message {
        source,
        stream_id,
        room_id,
        room_title: "Engineering",
        author: "bot",
        body: body.to_string(),
    }
}

#[test]
fn keeps_latest_preview_for_room() {
    let mut timeline = UnifiedTimeline::new();
    timeline.ingest(sample_message(Source::Slack, "stream-a", "eng", "first"));
    timeline.ingest(sample_message(Source::Slack, "stream-a", "eng", "second"));

    let rooms = timeline.ordered_rooms();
    assert_eq!(rooms.len(), 1);
    assert_eq!(rooms[0].preview, "second");
    assert_eq!(rooms[0].messages.len(), 2);
}

#[test]
fn moves_recent_room_to_front() {
    let mut timeline = UnifiedTimeline::new();
    timeline.ingest(sample_message(Source::Slack, "stream-a", "eng", "slack"));
    timeline.ingest(sample_message(Source::Teams, "stream-b", "sales", "teams"));
    timeline.ingest(sample_message(
        Source::Slack,
        "stream-a",
        "eng",
        "slack again",
    ));

    let ordered = timeline.ordered_rooms();
    assert_eq!(ordered[0].source, Source::Slack);
    assert_eq!(ordered[1].source, Source::Teams);
}

#[test]
fn keeps_single_room_entry_across_streams() {
    let mut timeline = UnifiedTimeline::new();
    timeline.ingest(sample_message(Source::Teams, "account-a", "ops", "from account a"));
    timeline.ingest(sample_message(Source::Teams, "account-b", "ops", "from account b"));

    let rooms = timeline.ordered_rooms();
    assert_eq!(rooms.len(), 1);
    assert_eq!(rooms[0].preview, "from account b");
    assert_eq!(rooms[0].messages.len(), 2);
}

#[test]
fn keeps_sources_separate_for_same_room_id() {
    let mut timeline = UnifiedTimeline::new();
    timeline.ingest(sample_message(Source::Slack, "stream-a", "eng", "slack msg"));
    timeline.ingest(sample_message(Source::Teams, "stream-b", "eng", "teams msg"));

    let rooms = timeline.ordered_rooms();
    assert_eq!(rooms.len(), 2);
    assert_eq!(rooms[0].source, Source::Teams);
    assert_eq!(rooms[1].source, Source::Slack);
}

fn in_room(source: Source, room_id: &'static str, body: &str) -> Message {
    sample_message(source, "stream", room_id, body)
}

fn previews(timeline: &UnifiedTimeline) -> Vec<String> {
    timeline.ordered_rooms().iter().map(|room| room.preview.clone()).collect()
}

#[test]
fn names_of_sources() {
    assert_eq!(Source::Teams.as_str(), "Teams");
    assert_eq!(Source::GoogleChat.as_str(), "Google Chat");
    assert_eq!(Source::Slack.as_str(), "Slack");
    assert_eq!(Source::Teams.provider_key(), "teams");
    assert_eq!(Source::GoogleChat.provider_key(), "google_chat");
    assert_eq!(Source::Slack.provider_key(), "slack");
}

#[test]
fn room_keys_tell_rooms_apart() {
    assert_eq!(in_room(Source::Slack, "eng", "a").room_key(), "Slack:eng");
    assert_eq!(in_room(Source::GoogleChat, "eng", "a").room_key(), "Google Chat:eng");
    assert_eq!(in_room(Source::Teams, "", "a").room_key(), "Teams:");
    assert_ne!(
        in_room(Source::Slack, "eng", "a").room_key(),
        in_room(Source::Teams, "eng", "a").room_key()
    );
}

#[test]
fn an_empty_timeline_has_no_rooms() {
    assert_eq!(UnifiedTimeline::new().ordered_rooms().len(), 0);
    assert_eq!(UnifiedTimeline::default().ordered_rooms().len(), 0);
}

#[test]
fn rooms_hold_their_messages_in_order_of_arrival() {
    let mut timeline = UnifiedTimeline::new();
    for (room_id, body) in [("a", "1"), ("b", "2"), ("a", "3"), ("c", "4"), ("b", "5")] {
        timeline.ingest(in_room(Source::Slack, room_id, body));
    }
    assert_eq!(previews(&timeline), vec!["5", "4", "3"]);
    let rooms = timeline.ordered_rooms();
    let bodies: Vec<Vec<&str>> = rooms
        .iter()
        .map(|room| room.messages.iter().map(|message| message.body.as_str()).collect())
        .collect();
    assert_eq!(bodies, vec![vec!["2", "5"], vec!["4"], vec!["1", "3"]]);
}

#[test]
fn other_rooms_keep_their_order() {
    let mut timeline = UnifiedTimeline::new();
    for room_id in ["a", "b", "c", "d"] {
        timeline.ingest(in_room(Source::Teams, room_id, room_id));
    }
    assert_eq!(previews(&timeline), vec!["d", "c", "b", "a"]);
    timeline.ingest(in_room(Source::Teams, "b", "b again"));
    assert_eq!(previews(&timeline), vec!["b again", "d", "c", "a"]);
}

#[test]
fn a_room_takes_the_title_of_its_latest_message() {
    let mut timeline = UnifiedTimeline::new();
    timeline.ingest(in_room(Source::Slack, "eng", "first"));
    let mut renamed = in_room(Source::Slack, "eng", "second");
    renamed.room_title = "Platform";
    timeline.ingest(renamed);
    assert_eq!(timeline.ordered_rooms()[0].title, "Platform");
}
