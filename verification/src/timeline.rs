//! Messages from all sources, gathered into rooms.
use crate::string_map::{lists_keys, StringMap};
use crate::text::{lemma_take_next, lemma_views_push, other_than, remove_text, views};
use vstd::prelude::*;
use vstd::string::*;

verus! {

/// Where a message comes from.
#[derive(Debug, Clone, Copy, PartialEq, Eq, Structural, Hash)]
pub enum Source {
    Teams,
    GoogleChat,
    Slack,
}

impl Source {
    /// The name shown for the source.
    pub open spec fn label(self) -> Seq<char> {
        match self {
            Source::Teams => "Teams"@,
            Source::GoogleChat => "Google Chat"@,
            Source::Slack => "Slack"@,
        }
    }

    /// The name shown for the source.
    pub fn as_str(self) -> (text: &'static str)
        ensures
            text@ == self.label(),
    {
        match self {
            Source::Teams => "Teams",
            Source::GoogleChat => "Google Chat",
            Source::Slack => "Slack",
        }
    }

    /// The name under which the vault keeps the token of the source.
    pub open spec fn account(self) -> Seq<char> {
        match self {
            Source::Teams => "teams"@,
            Source::GoogleChat => "google_chat"@,
            Source::Slack => "slack"@,
        }
    }

    /// The name under which the vault keeps the token of the source.
    pub fn provider_key(self) -> (key: &'static str)
        ensures
            key@ == self.account(),
    {
        match self {
            Source::Teams => "teams",
            Source::GoogleChat => "google_chat",
            Source::Slack => "slack",
        }
    }
}

/// A message as a bridge delivers it.
#[derive(Debug, Clone)]
pub struct Message {
    pub source: Source,
    pub stream_id: &'static str,
    pub room_id: &'static str,
    pub room_title: &'static str,
    pub author: &'static str,
    pub body: String,
}

/// The content of a [`Message`].
pub struct MessageView {
    pub source: Source,
    pub stream_id: Seq<char>,
    pub room_id: Seq<char>,
    pub room_title: Seq<char>,
    pub author: Seq<char>,
    pub body: Seq<char>,
}

impl View for Message {
    type V = MessageView;

    open spec fn view(&self) -> MessageView {
        MessageView {
            source: self.source,
            stream_id: self.stream_id@,
            room_id: self.room_id@,
            room_title: self.room_title@,
            author: self.author@,
            body: self.body@,
        }
    }
}

/// The key of the room `room_id` of `source`.
pub open spec fn key_of_room(source: Source, room_id: Seq<char>) -> Seq<char> {
    source.label() + ":"@ + room_id
}

impl MessageView {
    /// The key of the room that the message belongs to.
    pub open spec fn key(self) -> Seq<char> {
        key_of_room(self.source, self.room_id)
    }
}

impl Message {
    /// The key of the room that the message belongs to.
    pub fn room_key(&self) -> (key: String)
        ensures
            key@ == self@.key(),
    {
        self.source.as_str().to_owned().concat(":").concat(self.room_id)
    }
}

/// A room: its latest message, and all messages in the order of arrival.
#[derive(Debug, Clone)]
pub struct Room {
    pub source: Source,
    pub title: String,
    pub preview: String,
    pub messages: Vec<Message>,
}

/// The content of a [`Room`].
#[verifier::ext_equal]
pub struct RoomView {
    pub source: Source,
    pub title: Seq<char>,
    pub preview: Seq<char>,
    pub messages: Seq<MessageView>,
}

impl View for Room {
    type V = RoomView;

    open spec fn view(&self) -> RoomView {
        RoomView {
            source: self.source,
            title: self.title@,
            preview: self.preview@,
            messages: views(self.messages@),
        }
    }
}

/// The room whose messages are `messages`: it shows the last of them.
pub open spec fn room_of(messages: Seq<MessageView>) -> RoomView {
    RoomView {
        source: messages.last().source,
        title: messages.last().room_title,
        preview: messages.last().body,
        messages,
    }
}

impl Room {
    /// The room that `message` opens.
    pub fn new(message: Message) -> (room: Self)
        ensures
            room@ == room_of(seq![message@]),
    {
        let source = message.source;
        let title = message.room_title.to_owned();
        let preview = message.body.clone();
        let ghost content = message@;
        let messages = vec![message];
        assert(views(messages@) =~= seq![content]);
        Room { source, title, preview, messages }
    }
}

/// Rooms by key, and their keys from the most recently active on.
#[verifier::ext_equal]
pub struct TimelineView {
    pub rooms: Map<Seq<char>, RoomView>,
    pub order: Seq<Seq<char>>,
}

impl TimelineView {
    /// The timeline without messages.
    pub open spec fn empty() -> TimelineView {
        TimelineView { rooms: Map::empty(), order: Seq::empty() }
    }

    /// What holds of every timeline: each room is listed once, shows its
    /// latest message, and holds messages of its own key only.
    pub open spec fn valid(self) -> bool {
        &&& lists_keys(self.order, self.rooms)
        &&& forall|key: Seq<char>| #[trigger]
            self.rooms.dom().contains(key) ==> self.rooms[key].messages.len() > 0
                && self.rooms[key] == room_of(self.rooms[key].messages)
        &&& forall|key: Seq<char>, i: int|
            #![trigger self.rooms[key].messages[i]]
            self.rooms.dom().contains(key) && 0 <= i < self.rooms[key].messages.len()
                ==> self.rooms[key].messages[i].key() == key
    }

    /// The messages of the room under `key`; none if there is no such room.
    pub open spec fn messages_of(self, key: Seq<char>) -> Seq<MessageView> {
        if self.rooms.dom().contains(key) {
            self.rooms[key].messages
        } else {
            Seq::empty()
        }
    }

    /// The timeline after `message`.
    pub open spec fn with(self, message: MessageView) -> TimelineView {
        let key = message.key();
        TimelineView {
            rooms: self.rooms.insert(key, room_of(self.messages_of(key).push(message))),
            order: seq![key] + self.order.filter(other_than(key)),
        }
    }

    /// The rooms from the most recently active on.
    pub open spec fn listing(self) -> Seq<RoomView> {
        self.order.map_values(|key: Seq<char>| self.rooms[key])
    }
}

/// All rooms, ordered by their latest activity.
pub struct UnifiedTimeline {
    rooms: StringMap<Room>,
    ordered_room_keys: Vec<String>,
}

impl View for UnifiedTimeline {
    type V = TimelineView;

    closed spec fn view(&self) -> TimelineView {
        TimelineView { rooms: self.rooms@, order: views(self.ordered_room_keys@) }
    }
}

/// A message keeps a timeline valid.
pub proof fn law_message_keeps_validity(timeline: TimelineView, message: MessageView)
    requires
        timeline.valid(),
    ensures
        timeline.with(message).valid(),
{
    let key = message.key();
    let next = timeline.with(message);
    let keep = other_than(key);
    let others = timeline.order.filter(keep);
    lemma_filter_distinct(timeline.order, keep);
    assert(next.order.no_duplicates()) by {
        assert forall|i: int, j: int|
            0 <= i < next.order.len() && 0 <= j < next.order.len() && i
                != j implies next.order[i] != next.order[j] by {
            if i == 0 {
                assert(others.contains(others[j - 1]));
            } else if j == 0 {
                assert(others.contains(others[i - 1]));
            } else {
                assert(others[i - 1] != others[j - 1]);
            }
        }
    }
    assert forall|k: Seq<char>| next.order.contains(k) <==> #[trigger] next.rooms.dom().contains(
        k,
    ) by {
        if k == key {
            assert(next.order[0] == key);
        } else {
            assert(timeline.rooms.dom().contains(k) <==> timeline.order.contains(k));
            if next.order.contains(k) {
                let i = next.order.index_of(k);
                assert(others[i - 1] == k);
                assert(others.contains(k));
            }
            if others.contains(k) {
                let i = others.index_of(k);
                assert(next.order[i + 1] == k);
            }
        }
    }
    assert forall|k: Seq<char>, i: int|
        #![trigger next.rooms[k].messages[i]]
        next.rooms.dom().contains(k) && 0 <= i
            < next.rooms[k].messages.len() implies next.rooms[k].messages[i].key() == k by {
        if k == key {
            if i < timeline.messages_of(key).len() {
                assert(timeline.rooms[key].messages[i].key() == key);
            }
        } else {
            assert(timeline.rooms[k].messages[i].key() == k);
        }
    }
}

/// Filtering keeps a list free of duplicates and keeps what passes.
proof fn lemma_filter_distinct(keys: Seq<Seq<char>>, keep: spec_fn(Seq<char>) -> bool)
    requires
        keys.no_duplicates(),
    ensures
        keys.filter(keep).no_duplicates(),
        forall|k: Seq<char>| #[trigger]
            keys.filter(keep).contains(k) <==> keys.contains(k) && keep(k),
    decreases keys.len(),
{
    reveal(Seq::filter);
    if keys.len() > 0 {
        let rest = keys.drop_last();
        let kept = rest.filter(keep);
        let last = keys.last();
        lemma_filter_distinct(rest, keep);
        assert forall|k: Seq<char>| keys.contains(k) <==> (k == last || #[trigger] rest.contains(
            k,
        )) by {
            if keys.contains(k) {
                let i = keys.index_of(k);
                if i < rest.len() {
                    assert(rest[i] == k);
                }
            }
            if rest.contains(k) {
                let i = rest.index_of(k);
                assert(keys[i] == k);
            }
        }
        assert(!rest.contains(last));
        if keep(last) {
            assert forall|k: Seq<char>| #[trigger] kept.push(last).contains(k) <==> (k == last
                || kept.contains(k)) by {
                if kept.contains(k) {
                    let i = kept.index_of(k);
                    assert(kept.push(last)[i] == k);
                }
                if k == last {
                    assert(kept.push(last)[kept.len() as int] == k);
                }
                if kept.push(last).contains(k) {
                    let i = kept.push(last).index_of(k);
                    if i < kept.len() {
                        assert(kept[i] == k);
                    }
                }
            }
            assert(!kept.contains(last));
        }
        assert forall|k: Seq<char>| #[trigger] keys.filter(keep).contains(k) <==> keys.contains(k)
            && keep(k) by {
            assert(rest.contains(k) || !rest.contains(k));
            assert(kept.contains(k) <==> rest.contains(k) && keep(k));
        }
    }
}

impl UnifiedTimeline {
    #[verifier::type_invariant]
    spec fn well_formed(self) -> bool {
        self@.valid()
    }

    /// The timeline without messages.
    pub fn new() -> (timeline: Self)
        ensures
            timeline@ == TimelineView::empty(),
    {
        let rooms: StringMap<Room> = StringMap::new();
        let ordered_room_keys: Vec<String> = Vec::new();
        assert(views(ordered_room_keys@) =~= Seq::<Seq<char>>::empty());
        UnifiedTimeline { rooms, ordered_room_keys }
    }

    /// Takes `message` into its room and moves the room to the front.
    pub fn ingest(&mut self, message: Message)
        ensures
            final(self)@ == old(self)@.with(message@),
            final(self)@.valid(),
    {
        proof {
            use_type_invariant(&*self);
            law_message_keeps_validity(self@, message@);
        }
        let ghost before = self@;
        let ghost content = message@;
        let key = message.room_key();
        let mut timeline = UnifiedTimeline::new();
        std::mem::swap(self, &mut timeline);
        let UnifiedTimeline { mut rooms, mut ordered_room_keys } = timeline;
        let room = match rooms.remove(key.as_str()) {
            Some(mut room) => {
                proof {
                    lemma_views_push(room.messages@, message);
                }
                room.source = message.source;
                room.title = message.room_title.to_owned();
                room.preview = message.body.clone();
                room.messages.push(message);
                room
            },
            None => Room::new(message),
        };
        assert(before.messages_of(key@).push(content).last() == content);
        assert(room@ =~= room_of(before.messages_of(key@).push(content)));
        rooms.insert(key.clone(), room);
        assert(rooms@ =~= before.with(content).rooms);
        remove_text(&mut ordered_room_keys, key.as_str());
        let ghost others = ordered_room_keys@;
        let ghost text = key@;
        ordered_room_keys.insert(0, key);
        assert(views(ordered_room_keys@) =~= seq![text] + views(others));
        assert(views(ordered_room_keys@) =~= before.with(content).order);
        *self = UnifiedTimeline { rooms, ordered_room_keys };
    }

    /// The rooms from the most recently active on.
    pub fn ordered_rooms(&self) -> (rooms: Vec<&Room>)
        ensures
            views(rooms@) == self@.listing(),
            self@.valid(),
    {
        proof {
            use_type_invariant(self);
        }
        let ghost listing = self@.listing();
        let mut rooms: Vec<&Room> = Vec::new();
        let mut at: usize = 0;
        while at < self.ordered_room_keys.len()
            invariant
                at <= self.ordered_room_keys@.len(),
                self@.valid(),
                listing == self@.listing(),
                views(rooms@) == listing.take(at as int),
            decreases self.ordered_room_keys@.len() - at,
        {
            assert(self@.order[at as int] == self.ordered_room_keys@[at as int]@);
            assert(self@.order.contains(self.ordered_room_keys@[at as int]@));
            if let Some(room) = self.rooms.get(self.ordered_room_keys[at].as_str()) {
                proof {
                    lemma_views_push(rooms@, room);
                    lemma_take_next(listing, at as int);
                }
                rooms.push(room);
            }
            at += 1;
        }
        assert(listing.take(at as int) =~= listing);
        rooms
    }
}

impl Default for UnifiedTimeline {
    fn default() -> (timeline: Self)
        ensures
            timeline@ == TimelineView::empty(),
    {
        UnifiedTimeline::new()
    }
}

} // verus!
