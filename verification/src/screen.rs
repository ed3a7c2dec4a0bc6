//! What the screen shows, and how keys move through it.
use crate::span::Span;
use crate::text::views;
use crate::timeline::{MessageView, Room, RoomView};
use vstd::prelude::*;
use vstd::string::*;

verus! {

/// How long the splash screen stays, in nanoseconds.
pub const SPLASH_NANOS: u128 = 3_000_000_000;

/// The screens of the program.
#[derive(Debug, Clone, Copy, PartialEq, Eq, Structural)]
pub enum Screen {
    Splash,
    Timeline,
}

/// A key that was pressed.
#[derive(Debug, Clone, Copy, PartialEq, Eq, Structural)]
pub enum Key {
    Char(char),
    Up,
    Down,
    Other,
}

/// Whether the program goes on after a key.
#[derive(Debug, Clone, Copy, PartialEq, Eq, Structural)]
pub enum Flow {
    Continue,
    Quit,
}

/// The screen that is shown, and the room that is selected on it.
#[derive(Debug, Clone, Copy, PartialEq, Eq, Structural)]
pub struct Navigator {
    pub screen: Screen,
    pub selected: usize,
}

impl Navigator {
    /// The navigator after time has passed and rooms have come: the selection
    /// stays within the rooms, and the splash screen ends.
    pub open spec fn ticked(self, room_count: nat, since_start: nat) -> Navigator {
        Navigator {
            screen: if since_start >= SPLASH_NANOS {
                Screen::Timeline
            } else {
                self.screen
            },
            selected: if self.selected >= room_count && room_count > 0 {
                (room_count - 1) as usize
            } else {
                self.selected
            },
        }
    }

    /// The navigator after a key: any key leaves the splash screen, and the
    /// arrows move the selection within the rooms.
    pub open spec fn pressed(self, key: Key, room_count: nat) -> Navigator {
        if key == Key::Char('q') {
            self
        } else if self.screen == Screen::Splash {
            Navigator { screen: Screen::Timeline, ..self }
        } else if key == Key::Up && self.selected > 0 {
            Navigator { selected: (self.selected - 1) as usize, ..self }
        } else if key == Key::Down && self.selected + 1 < room_count {
            Navigator { selected: (self.selected + 1) as usize, ..self }
        } else {
            self
        }
    }

    /// The splash screen, with the first room selected.
    pub fn new() -> (navigator: Self)
        ensures
            navigator == (Navigator { screen: Screen::Splash, selected: 0 }),
    {
        Navigator { screen: Screen::Splash, selected: 0 }
    }

    /// Takes in that there are `room_count` rooms `since_start` after the
    /// start.
    pub fn tick(&mut self, room_count: usize, since_start: Span)
        ensures
            *final(self) == old(self).ticked(room_count as nat, since_start@),
    {
        if self.selected >= room_count && room_count > 0 {
            self.selected = room_count - 1;
        }
        if self.screen == Screen::Splash && since_start.as_nanos() >= SPLASH_NANOS {
            self.screen = Screen::Timeline;
        }
    }

    /// Takes in a key while there are `room_count` rooms. The key `q` quits.
    pub fn press(&mut self, key: Key, room_count: usize) -> (flow: Flow)
        ensures
            *final(self) == old(self).pressed(key, room_count as nat),
            flow == Flow::Quit <==> key == Key::Char('q'),
    {
        match self.screen {
            Screen::Splash => match key {
                Key::Char('q') => {
                    return Flow::Quit;
                },
                _ => {
                    self.screen = Screen::Timeline;
                },
            },
            Screen::Timeline => match key {
                Key::Char('q') => {
                    return Flow::Quit;
                },
                Key::Up => {
                    if self.selected > 0 {
                        self.selected = self.selected - 1;
                    }
                },
                Key::Down => {
                    if self.selected < room_count && self.selected + 1 < room_count {
                        self.selected = self.selected + 1;
                    }
                },
                _ => {},
            },
        }
        Flow::Continue
    }

    /// The room to highlight among `room_count`; none where there is none.
    pub fn highlighted(&self, room_count: usize) -> (at: Option<usize>)
        ensures
            at == if room_count > 0 {
                Some(self.selected)
            } else {
                None
            },
    {
        if room_count > 0 {
            Some(self.selected)
        } else {
            None
        }
    }
}

/// Once there are rooms, the selection is one of them after every tick, and
/// keys keep it so.
pub proof fn law_selection_within_rooms(
    navigator: Navigator,
    room_count: nat,
    since_start: nat,
    key: Key,
)
    requires
        0 < room_count <= usize::MAX,
    ensures
        navigator.ticked(room_count, since_start).selected < room_count,
        navigator.selected < room_count ==> navigator.pressed(key, room_count).selected
            < room_count,
{
}

/// The splash screen ends with any key that does not quit, or by itself, and
/// does not come back.
pub proof fn law_splash_ends_for_good(
    navigator: Navigator,
    room_count: nat,
    since_start: nat,
    key: Key,
)
    ensures
        key != Key::Char('q') ==> navigator.pressed(key, room_count).screen == Screen::Timeline,
        since_start >= SPLASH_NANOS ==> navigator.ticked(room_count, since_start).screen
            == Screen::Timeline,
        navigator.screen == Screen::Timeline ==> navigator.pressed(key, room_count).screen
            == Screen::Timeline && navigator.ticked(room_count, since_start).screen
            == Screen::Timeline,
{
}

/// The entry of a room in the list of rooms: its source, title and preview.
pub open spec fn item_of(room: RoomView) -> Seq<char> {
    "["@ + room.source.label() + "] "@ + room.title + "\n"@ + room.preview
}

/// The entry of a room in the list of rooms.
pub fn room_item_text(room: &Room) -> (text: String)
    ensures
        text@ == item_of(room@),
{
    "[".to_owned().concat(room.source.as_str()).concat("] ").concat(room.title.as_str()).concat(
        "\n",
    ).concat(room.preview.as_str())
}

/// The line of a message.
pub open spec fn line_of(message: MessageView) -> Seq<char> {
    message.author + ": "@ + message.body
}

/// The lines of the first `count` messages, a line break between each two.
pub open spec fn lines_of(messages: Seq<MessageView>, count: nat) -> Seq<char>
    decreases count,
{
    if count == 0 {
        Seq::empty()
    } else if count == 1 {
        line_of(messages[0])
    } else {
        lines_of(messages, (count - 1) as nat) + "\n"@ + line_of(messages[count - 1])
    }
}

/// The text of the selected room; a notice where no room is selected.
pub open spec fn shown(rooms: Seq<RoomView>, selected: nat) -> Seq<char> {
    if selected < rooms.len() {
        lines_of(rooms[selected as int].messages, rooms[selected as int].messages.len())
    } else {
        "Waiting for messages from connected bridges..."@
    }
}

/// The text of the selected room.
pub fn timeline_text(rooms: &[&Room], selected: usize) -> (text: String)
    ensures
        text@ == shown(views(rooms@), selected as nat),
{
    if selected >= rooms.len() {
        return "Waiting for messages from connected bridges...".to_owned();
    }
    let room = rooms[selected];
    let ghost messages = room@.messages;
    assert(views(rooms@)[selected as int] == room@);
    let mut text = "".to_owned();
    proof {
        reveal_strlit("");
        assert(text@ =~= Seq::<char>::empty());
    }
    let mut at: usize = 0;
    while at < room.messages.len()
        invariant
            at <= room.messages@.len(),
            messages == views(room.messages@),
            text@ == lines_of(messages, at as nat),
        decreases room.messages@.len() - at,
    {
        let ghost before = text@;
        let message = &room.messages[at];
        assert(messages[at as int] == message@);
        if at > 0 {
            text.append("\n");
        }
        text.append(message.author);
        text.append(": ");
        text.append(message.body.as_str());
        proof {
            let line = line_of(message@);
            if at > 0 {
                assert(text@ =~= before + "\n"@ + line);
            } else {
                assert(text@ =~= line);
            }
        }
        at += 1;
    }
    text
}

} // verus!
