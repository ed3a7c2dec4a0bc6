//! What the screen shows of every timeline, and how every key moves it.
use crate::screen::{item_of, shown, Key, Navigator, Screen};
use crate::timeline::{MessageView, RoomView};
use vstd::prelude::*;

verus! {

/// The text of the selected room grows with each message by exactly one line,
/// the author, a colon and the body, set off by a line break from what was
/// there. A room without messages has no text.
pub proof fn law_each_message_adds_a_line(
    rooms: Seq<RoomView>,
    selected: int,
    messages: Seq<MessageView>,
    message: MessageView,
)
    requires
        0 <= selected < rooms.len(),
    ensures
        ({
            let before = rooms.update(selected, RoomView { messages, ..rooms[selected] });
            let after = rooms.update(
                selected,
                RoomView { messages: messages.push(message), ..rooms[selected] },
            );
            let line = message.author + ": "@ + message.body;
            &&& messages.len() == 0 ==> shown(before, selected as nat) == Seq::<char>::empty()
                && shown(after, selected as nat) == line
            &&& messages.len() > 0 ==> shown(after, selected as nat) == shown(
                before,
                selected as nat,
            ) + "\n"@ + line
        }),
{
    lemma_lines_of_prefix(messages, message, messages.len());
}

/// Lines depend on the messages they show alone.
proof fn lemma_lines_of_prefix(messages: Seq<MessageView>, message: MessageView, count: nat)
    requires
        count <= messages.len(),
    ensures
        crate::screen::lines_of(messages.push(message), count) == crate::screen::lines_of(
            messages,
            count,
        ),
    decreases count,
{
    if count > 0 {
        lemma_lines_of_prefix(messages, message, (count - 1) as nat);
    }
}

/// The text that is shown is that of the selected room, whatever other rooms
/// there are; where no room is selected it is the notice.
pub proof fn law_selected_room_is_shown(rooms: Seq<RoomView>, selected: nat)
    ensures
        selected < rooms.len() ==> shown(rooms, selected) == shown(
            seq![rooms[selected as int]],
            0,
        ),
        selected >= rooms.len() ==> shown(rooms, selected)
            == "Waiting for messages from connected bridges..."@,
{
}

/// The entry of a room names its source in brackets, then its title, and
/// below them its preview.
pub proof fn law_entry_names_source_title_and_preview(room: RoomView)
    ensures
        item_of(room) == "["@ + room.source.label() + "] "@ + room.title + "\n"@ + room.preview,
{
}

/// An arrow moves the selection by one room, up to the first and down to the
/// last, and back by the other arrow; it changes nothing else.
pub proof fn law_arrows_move_by_one(selected: usize, room_count: nat)
    ensures
        ({
            let here = Navigator { screen: Screen::Timeline, selected };
            let up = here.pressed(Key::Up, room_count);
            let down = here.pressed(Key::Down, room_count);
            &&& up.screen == Screen::Timeline && down.screen == Screen::Timeline
            &&& up.selected == if selected == 0 {
                0
            } else {
                selected - 1
            }
            &&& selected + 1 < room_count && room_count <= usize::MAX ==> down.selected == selected
                + 1 && down.pressed(Key::Up, room_count) == here
            &&& selected + 1 >= room_count ==> down == here
            &&& 0 < selected < room_count ==> up.pressed(Key::Down, room_count) == here
        }),
{
}

/// Every other key leaves the timeline as it is, and `q` leaves any screen as
/// it is.
pub proof fn law_other_keys_do_nothing(navigator: Navigator, key: Key, room_count: nat)
    ensures
        navigator.screen == Screen::Timeline && key != Key::Up && key != Key::Down
            ==> navigator.pressed(key, room_count) == navigator,
        navigator.pressed(Key::Char('q'), room_count) == navigator,
        navigator.screen == Screen::Splash && key != Key::Char('q') ==> navigator.pressed(
            key,
            room_count,
        ) == (Navigator { screen: Screen::Timeline, selected: navigator.selected }),
{
}

/// Time ends the splash screen after three seconds and not before, and moves
/// a selection past the last room to the last room and no other.
pub proof fn law_time_and_rooms(navigator: Navigator, room_count: nat, since_start: nat)
    requires
        room_count <= usize::MAX,
    ensures
        navigator.ticked(room_count, since_start).screen == Screen::Timeline <==> (navigator.screen
            == Screen::Timeline || since_start >= 3_000_000_000),
        navigator.selected < room_count || room_count == 0 ==> navigator.ticked(
            room_count,
            since_start,
        ).selected == navigator.selected,
        0 < room_count <= navigator.selected ==> navigator.ticked(room_count, since_start).selected
            == room_count - 1,
{
}

} // verus!
