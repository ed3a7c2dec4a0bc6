use alligator::screen::{room_item_text, timeline_text, Flow, Key, Navigator, Screen};
use alligator::{Message, Room, Source, Span};

fn room(bodies: &[&str]) -> Room {
    let messages: Vec<Message> = bodies
        .iter()
        .map(|body| Message {
            source: Source::GoogleChat,
            stream_id: "stream",
            room_id: "design",
            room_title: "Design",
            author: "sofia",
            body: body.to_string(),
        })
        .collect();
    Room {
        source: Source::GoogleChat,
        title: "Design".to_string(),
        preview: bodies.last().map(|body| body.to_string()).unwrap_or_default(),
        messages,
    }
}

#[test]
fn splash_ends_after_three_seconds() {
    let mut navigator = Navigator::new();
    assert_eq!(navigator.screen, Screen::Splash);
    navigator.tick(0, Span::from_millis(2_999));
    assert_eq!(navigator.screen, Screen::Splash);
    navigator.tick(0, Span::from_secs(3));
    assert_eq!(navigator.screen, Screen::Timeline);
    navigator.tick(0, Span::from_secs(0));
    assert_eq!(navigator.screen, Screen::Timeline);
}

#[test]
fn any_key_but_q_leaves_the_splash() {
    for key in [Key::Up, Key::Down, Key::Other, Key::Char('x')] {
        let mut navigator = Navigator::new();
        assert_eq!(navigator.press(key, 5), Flow::Continue);
        assert_eq!(navigator.screen, Screen::Timeline);
        assert_eq!(navigator.selected, 0);
    }
    let mut navigator = Navigator::new();
    assert_eq!(navigator.press(Key::Char('q'), 5), Flow::Quit);
    assert_eq!(navigator.screen, Screen::Splash);
}

#[test]
fn arrows_move_within_the_rooms() {
    let mut navigator = Navigator { screen: Screen::Timeline, selected: 0 };
    navigator.press(Key::Up, 2);
    assert_eq!(navigator.selected, 0);
    navigator.press(Key::Down, 2);
    assert_eq!(navigator.selected, 1);
    navigator.press(Key::Down, 2);
    assert_eq!(navigator.selected, 1);
    navigator.press(Key::Other, 2);
    assert_eq!(navigator.selected, 1);
    navigator.press(Key::Up, 2);
    assert_eq!(navigator.selected, 0);
    navigator.press(Key::Down, 0);
    assert_eq!(navigator.selected, 0);
    assert_eq!(navigator.press(Key::Char('q'), 2), Flow::Quit);
}

#[test]
fn selection_stays_within_the_rooms() {
    let mut navigator = Navigator { screen: Screen::Timeline, selected: 7 };
    navigator.tick(0, Span::from_secs(9));
    assert_eq!(navigator.selected, 7);
    navigator.tick(3, Span::from_secs(9));
    assert_eq!(navigator.selected, 2);
    assert_eq!(navigator.highlighted(3), Some(2));
    assert_eq!(navigator.highlighted(0), None);
}

#[test]
fn texts_of_a_room() {
    let first = room(&["Uploaded mockups", "Need feedback"]);
    let empty = room(&[]);
    assert_eq!(room_item_text(&first), "[Google Chat] Design\nNeed feedback");
    assert_eq!(
        timeline_text(&[&first, &empty], 0),
        "sofia: Uploaded mockups\nsofia: Need feedback"
    );
    assert_eq!(timeline_text(&[&first, &empty], 1), "");
    assert_eq!(
        timeline_text(&[&first, &empty], 2),
        "Waiting for messages from connected bridges..."
    );
}
