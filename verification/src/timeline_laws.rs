//! What holds of timelines as a whole.
use crate::text::other_than;
use crate::text_laws::law_listed_keys_are_the_keys;
use crate::timeline::{
    key_of_room, law_message_keeps_validity, room_of, Message, MessageView, Room, Source,
    TimelineView,
};
use vstd::prelude::*;

verus! {

/// Two rooms have the same key exactly if they are the same room of the same
/// source: equal room ids of different sources stay apart.
pub proof fn law_room_keys_tell_rooms_apart(
    source: Source,
    room_id: Seq<char>,
    other_source: Source,
    other_room_id: Seq<char>,
)
    ensures
        key_of_room(source, room_id) == key_of_room(other_source, other_room_id) <==> source
            == other_source && room_id == other_room_id,
{
    reveal_strlit("Teams");
    reveal_strlit("Google Chat");
    reveal_strlit("Slack");
    let key = key_of_room(source, room_id);
    let other = key_of_room(other_source, other_room_id);
    if key == other {
        assert(key[0] == source.label()[0]);
        assert(other[0] == other_source.label()[0]);
        assert(source == other_source);
        let start = (source.label() + ":"@).len() as int;
        assert(room_id =~= key.skip(start));
        assert(other_room_id =~= other.skip(start));
    }
}

/// The stream that carried a message has no part in the room it lands in.
pub proof fn law_streams_share_a_room(message: MessageView, stream_id: Seq<char>)
    ensures
        (MessageView { stream_id, ..message }).key() == message.key(),
{
}

/// A message puts its room in front, where the room shows that message, and
/// is the last of the room's messages.
pub proof fn law_latest_room_first(timeline: TimelineView, message: MessageView)
    ensures
        timeline.with(message).order[0] == message.key(),
        timeline.with(message).listing()[0].source == message.source,
        timeline.with(message).listing()[0].title == message.room_title,
        timeline.with(message).listing()[0].preview == message.body,
        timeline.with(message).listing()[0].messages == timeline.messages_of(message.key()).push(
            message,
        ),
{
    let key = message.key();
    let next = timeline.with(message);
    assert(timeline.messages_of(key).push(message).last() == message);
    assert(next.listing()[0] == next.rooms[next.order[0]]);
}

/// A message leaves every other room as it was, and the other rooms in the
/// order in which they were.
pub proof fn law_other_rooms_unchanged(timeline: TimelineView, message: MessageView)
    ensures
        forall|key: Seq<char>|
            key != message.key() ==> #[trigger] timeline.with(message).messages_of(key)
                == timeline.messages_of(key),
        forall|key: Seq<char>|
            key != message.key() && timeline.rooms.dom().contains(key) ==> #[trigger] timeline.with(
                message,
            ).rooms[key] == timeline.rooms[key],
        timeline.with(message).order.skip(1) == timeline.order.filter(other_than(message.key())),
{
    let next = timeline.with(message);
    assert(next.order.skip(1) =~= timeline.order.filter(other_than(message.key())));
}

/// The timeline after `messages`, taken in one by one.
pub open spec fn timeline_of(messages: Seq<MessageView>) -> TimelineView
    decreases messages.len(),
{
    if messages.len() == 0 {
        TimelineView::empty()
    } else {
        timeline_of(messages.drop_last()).with(messages.last())
    }
}

/// Whether a message belongs to the room under `key`.
pub open spec fn in_room(key: Seq<char>) -> spec_fn(MessageView) -> bool {
    |message: MessageView| message.key() == key
}

/// The position of the last message of the room under `key`; -1 if there is
/// none.
pub open spec fn last_arrival(messages: Seq<MessageView>, key: Seq<char>) -> int
    decreases messages.len(),
{
    if messages.len() == 0 {
        -1
    } else if messages.last().key() == key {
        messages.len() - 1
    } else {
        last_arrival(messages.drop_last(), key)
    }
}

/// However messages arrive, each room holds exactly its own messages, in the
/// order of arrival: none is lost, repeated or put elsewhere.
pub proof fn law_rooms_hold_their_messages(messages: Seq<MessageView>, key: Seq<char>)
    ensures
        timeline_of(messages).valid(),
        timeline_of(messages).messages_of(key) == messages.filter(in_room(key)),
        timeline_of(messages).rooms.dom().contains(key) <==> exists|i: int|
            0 <= i < messages.len() && (#[trigger] messages[i]).key() == key,
    decreases messages.len(),
{
    reveal(Seq::filter);
    if messages.len() > 0 {
        let rest = messages.drop_last();
        let message = messages.last();
        law_rooms_hold_their_messages(rest, key);
        law_message_keeps_validity(timeline_of(rest), message);
        if message.key() == key {
            assert(messages[messages.len() - 1].key() == key);
            assert(timeline_of(messages).messages_of(key) =~= timeline_of(rest).messages_of(
                key,
            ).push(message));
        } else {
            if timeline_of(rest).rooms.dom().contains(key) {
                let i = choose|i: int|
                    0 <= i < rest.len() && (#[trigger] rest[i]).key() == key;
                assert(messages[i].key() == key);
            }
            if exists|i: int| 0 <= i < messages.len() && (#[trigger] messages[i]).key() == key {
                let i = choose|i: int|
                    0 <= i < messages.len() && (#[trigger] messages[i]).key() == key;
                assert(rest[i].key() == key);
            }
        }
    }
}

/// However messages arrive, rooms are listed by the arrival of their last
/// message, latest first.
pub proof fn law_rooms_ordered_by_activity(messages: Seq<MessageView>, i: int, j: int)
    requires
        0 <= i < j < timeline_of(messages).order.len(),
    ensures
        last_arrival(messages, timeline_of(messages).order[i]) > last_arrival(
            messages,
            timeline_of(messages).order[j],
        ),
{
    lemma_ordered_by_activity(messages);
}

/// The order of the rooms follows their last arrivals.
proof fn lemma_ordered_by_activity(messages: Seq<MessageView>)
    ensures
        timeline_of(messages).order.no_duplicates(),
        forall|i: int, j: int|
            #![trigger timeline_of(messages).order[i], timeline_of(messages).order[j]]
            0 <= i < j < timeline_of(messages).order.len() ==> last_arrival(
                messages,
                timeline_of(messages).order[i],
            ) > last_arrival(messages, timeline_of(messages).order[j]),
        forall|key: Seq<char>| #[trigger] last_arrival(messages, key) < messages.len(),
    decreases messages.len(),
{
    if messages.len() > 0 {
        let rest = messages.drop_last();
        let message = messages.last();
        let key = message.key();
        let before = timeline_of(rest).order;
        let after = timeline_of(messages).order;
        let arrival = |k: Seq<char>| last_arrival(rest, k);
        lemma_ordered_by_activity(rest);
        lemma_filter_keeps_order(before, other_than(key), arrival);
        let others = before.filter(other_than(key));
        law_rooms_hold_their_messages(messages, key);
        assert(after =~= seq![key] + others);
        assert forall|k: Seq<char>| #[trigger] last_arrival(messages, k) < messages.len() by {
            assert(last_arrival(rest, k) < rest.len());
        }
        assert forall|i: int, j: int|
            #![trigger after[i], after[j]]
            0 <= i < j < after.len() implies last_arrival(messages, after[i]) > last_arrival(
            messages,
            after[j],
        ) by {
            assert(after[j] == others[j - 1]);
            assert(other_than(key)(others[j - 1]));
            assert(last_arrival(messages, after[j]) == last_arrival(rest, after[j]));
            if i == 0 {
                assert(last_arrival(rest, after[j]) < rest.len());
            } else {
                assert(after[i] == others[i - 1]);
                assert(other_than(key)(others[i - 1]));
                assert(arrival(others[i - 1]) > arrival(others[j - 1]));
            }
        }
    }
}

/// Filtering keeps a list in descending order, and keeps only what passes.
proof fn lemma_filter_keeps_order(
    keys: Seq<Seq<char>>,
    keep: spec_fn(Seq<char>) -> bool,
    rank: spec_fn(Seq<char>) -> int,
)
    requires
        forall|i: int, j: int|
            #![trigger keys[i], keys[j]]
            0 <= i < j < keys.len() ==> rank(keys[i]) > rank(keys[j]),
    ensures
        forall|i: int, j: int|
            #![trigger keys.filter(keep)[i], keys.filter(keep)[j]]
            0 <= i < j < keys.filter(keep).len() ==> rank(keys.filter(keep)[i]) > rank(
                keys.filter(keep)[j],
            ),
        forall|i: int|
            0 <= i < keys.filter(keep).len() ==> keep(#[trigger] keys.filter(keep)[i])
                && keys.contains(keys.filter(keep)[i]),
    decreases keys.len(),
{
    reveal(Seq::filter);
    if keys.len() > 0 {
        let rest = keys.drop_last();
        let kept = rest.filter(keep);
        let last = keys.last();
        assert forall|i: int, j: int|
            #![trigger rest[i], rest[j]]
            0 <= i < j < rest.len() implies rank(rest[i]) > rank(rest[j]) by {
            assert(rank(keys[i]) > rank(keys[j]));
        }
        lemma_filter_keeps_order(rest, keep, rank);
        assert forall|k: Seq<char>| #[trigger] rest.contains(k) implies keys.contains(k) && rank(k)
            > rank(last) by {
            let i = rest.index_of(k);
            assert(keys[i] == k);
            assert(rank(keys[i]) > rank(keys[keys.len() - 1]));
        }
        assert forall|i: int, j: int|
            #![trigger keys.filter(keep)[i], keys.filter(keep)[j]]
            0 <= i < j < keys.filter(keep).len() implies rank(keys.filter(keep)[i]) > rank(
            keys.filter(keep)[j],
        ) by {
            assert(keys.filter(keep)[i] == kept[i]);
            assert(rest.contains(kept[i]));
            if j < kept.len() {
                assert(keys.filter(keep)[j] == kept[j]);
            }
        }
        assert forall|i: int| 0 <= i < keys.filter(keep).len() implies keep(
            #[trigger] keys.filter(keep)[i],
        ) && keys.contains(keys.filter(keep)[i]) by {
            if i < kept.len() {
                assert(keys.filter(keep)[i] == kept[i]);
                assert(rest.contains(kept[i]));
            } else {
                assert(keys[keys.len() - 1] == last);
            }
        }
    }
}

/// A timeline starts without rooms.
pub proof fn law_new_timeline_has_no_rooms()
    ensures
        TimelineView::empty().rooms.dom() =~= Set::empty(),
        TimelineView::empty().order.len() == 0,
        TimelineView::empty().listing().len() == 0,
{
}

/// The key of a room is the name of its source, a colon and its id, and a
/// message has the key of the room that it names.
pub proof fn law_key_names_source_and_room(message: MessageView)
    ensures
        Source::Teams.label() == "Teams"@,
        Source::GoogleChat.label() == "Google Chat"@,
        Source::Slack.label() == "Slack"@,
        message.key() == key_of_room(message.source, message.room_id),
        message.key() == message.source.label() + ":"@ + message.room_id,
{
}

/// Each source has an account of its own in the vault.
pub proof fn law_sources_have_accounts(source: Source, other: Source)
    ensures
        source.account() == other.account() <==> source == other,
        Source::Teams.account() == "teams"@,
        Source::GoogleChat.account() == "google_chat"@,
        Source::Slack.account() == "slack"@,
{
    reveal_strlit("teams");
    reveal_strlit("google_chat");
    reveal_strlit("slack");
    assert(Source::Teams.account()[0] == 't');
    assert(Source::GoogleChat.account()[0] == 'g');
    assert(Source::Slack.account()[0] == 's');
}

/// The listing shows every room once, in the order of activity, and nothing
/// else.
pub proof fn law_every_room_is_listed_once(timeline: TimelineView)
    requires
        timeline.valid(),
    ensures
        timeline.listing().len() == timeline.rooms.dom().len(),
        timeline.listing().len() == timeline.order.len(),
        timeline.order.no_duplicates(),
        timeline.order.to_set() == timeline.rooms.dom(),
        forall|i: int|
            0 <= i < timeline.order.len() ==> #[trigger] timeline.listing()[i]
                == timeline.rooms[timeline.order[i]],
{
    law_listed_keys_are_the_keys(timeline.order, timeline.rooms);
}

/// A message of a new room makes the listing one room longer; a message of a
/// known room leaves its length.
pub proof fn law_new_rooms_lengthen_the_listing(timeline: TimelineView, message: MessageView)
    requires
        timeline.valid(),
    ensures
        timeline.with(message).listing().len() == timeline.listing().len() + if exists|i: int|
            0 <= i < timeline.order.len() && #[trigger] timeline.order[i] == message.key() {
            0int
        } else {
            1
        },
{
    law_message_keeps_validity(timeline, message);
    law_every_room_is_listed_once(timeline);
    law_every_room_is_listed_once(timeline.with(message));
    law_listed_keys_are_the_keys(timeline.order, timeline.rooms);
    let key = message.key();
    assert(timeline.with(message).rooms.dom() =~= timeline.rooms.dom().insert(key));
    if timeline.rooms.dom().contains(key) {
        assert(timeline.order.to_set().contains(key));
        let i = timeline.order.index_of(key);
        assert(timeline.order[i] == key);
        assert(timeline.rooms.dom().insert(key) =~= timeline.rooms.dom());
    } else if exists|i: int| 0 <= i < timeline.order.len() && #[trigger] timeline.order[i] == key {
        let i = choose|i: int| 0 <= i < timeline.order.len() && #[trigger] timeline.order[i] == key;
        assert(timeline.order.to_set().contains(timeline.order[i]));
    }
}

/// However messages arrive, every one of them is in exactly one listed room,
/// and that room holds exactly the messages of the same source and room id, in
/// the order of arrival.
pub proof fn law_every_message_is_in_one_listed_room(messages: Seq<MessageView>, at: int)
    requires
        0 <= at < messages.len(),
    ensures
        exists|i: int|
            0 <= i < timeline_of(messages).listing().len() && (
            #[trigger] timeline_of(messages).listing()[i]).messages.contains(messages[at])
                && timeline_of(messages).listing()[i].messages == messages.filter(
                |message: MessageView|
                    message.source == messages[at].source && message.room_id
                        == messages[at].room_id,
            ),
        forall|i: int, j: int|
            0 <= i < timeline_of(messages).listing().len() && 0 <= j < timeline_of(
                messages,
            ).listing().len() && (#[trigger] timeline_of(messages).listing()[i]).messages.contains(
                messages[at],
            ) && (#[trigger] timeline_of(messages).listing()[j]).messages.contains(messages[at])
                ==> i == j,
{
    let timeline = timeline_of(messages);
    let key = messages[at].key();
    let same_room = |message: MessageView|
        message.source == messages[at].source && message.room_id == messages[at].room_id;
    law_rooms_hold_their_messages(messages, key);
    law_every_room_is_listed_once(timeline);
    assert(timeline.rooms.dom().contains(key));
    assert(timeline.order.to_set().contains(key));
    let i = timeline.order.index_of(key);
    assert(timeline.listing()[i] == timeline.rooms[key]);
    messages.filter_lemma(in_room(key));
    assert(messages.filter(in_room(key)).contains(messages[at]));
    assert(in_room(key) =~= same_room) by {
        assert forall|message: MessageView| #[trigger] in_room(key)(message) == same_room(
            message,
        ) by {
            law_room_keys_tell_rooms_apart(
                message.source,
                message.room_id,
                messages[at].source,
                messages[at].room_id,
            );
        }
    }
    assert forall|i: int, j: int|
        0 <= i < timeline.listing().len() && 0 <= j < timeline.listing().len() && (
        #[trigger] timeline.listing()[i]).messages.contains(messages[at]) && (
        #[trigger] timeline.listing()[j]).messages.contains(messages[at]) implies i == j by {
        lemma_listed_under_its_key(timeline, i, messages[at]);
        lemma_listed_under_its_key(timeline, j, messages[at]);
        assert(timeline.order[i] == timeline.order[j]);
    }
}

/// A listed room holds messages of its own key only.
proof fn lemma_listed_under_its_key(timeline: TimelineView, i: int, message: MessageView)
    requires
        timeline.valid(),
        0 <= i < timeline.listing().len(),
        timeline.listing()[i].messages.contains(message),
    ensures
        timeline.order[i] == message.key(),
{
    law_every_room_is_listed_once(timeline);
    let key = timeline.order[i];
    assert(timeline.order.contains(key));
    assert(timeline.rooms.dom().contains(key));
    let k = timeline.rooms[key].messages.index_of(message);
    assert(timeline.rooms[key].messages[k].key() == key);
}

/// However messages arrive, every listed room has messages, and shows the
/// source, the title and the text of the latest of them.
pub proof fn law_listed_rooms_show_their_latest(messages: Seq<MessageView>, i: int)
    requires
        0 <= i < timeline_of(messages).listing().len(),
    ensures
        timeline_of(messages).listing()[i].messages.len() > 0,
        timeline_of(messages).listing()[i].source == timeline_of(
            messages,
        ).listing()[i].messages.last().source,
        timeline_of(messages).listing()[i].title == timeline_of(
            messages,
        ).listing()[i].messages.last().room_title,
        timeline_of(messages).listing()[i].preview == timeline_of(
            messages,
        ).listing()[i].messages.last().body,
{
    let timeline = timeline_of(messages);
    law_rooms_hold_their_messages(messages, Seq::empty());
    law_every_room_is_listed_once(timeline);
    assert(timeline.order.contains(timeline.order[i]));
    assert(timeline.rooms.dom().contains(timeline.order[i]));
}

/// A message and a room are seen as they are, field by field.
pub proof fn law_messages_and_rooms_as_seen(message: Message, room: Room)
    ensures
        message@.source == message.source,
        message@.stream_id == message.stream_id@,
        message@.room_id == message.room_id@,
        message@.room_title == message.room_title@,
        message@.author == message.author@,
        message@.body == message.body@,
        room@.source == room.source,
        room@.title == room.title@,
        room@.preview == room.preview@,
        room@.messages.len() == room.messages@.len(),
        forall|i: int|
            0 <= i < room.messages@.len() ==> #[trigger] room@.messages[i] == room.messages@[i]@,
{
}

/// A room shows the latest of its messages and holds all of them; the messages
/// under a key are those of its room, and none where there is no such room.
pub proof fn law_rooms_of_messages(
    messages: Seq<MessageView>,
    timeline: TimelineView,
    key: Seq<char>,
)
    ensures
        room_of(messages).messages == messages,
        room_of(messages).source == messages.last().source,
        room_of(messages).title == messages.last().room_title,
        room_of(messages).preview == messages.last().body,
        timeline.rooms.dom().contains(key) ==> timeline.messages_of(key)
            == timeline.rooms[key].messages,
        !timeline.rooms.dom().contains(key) ==> timeline.messages_of(key).len() == 0,
{
}

} // verus!
