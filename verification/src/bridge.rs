//! Bridges, which deliver the messages of a source, and one that simulates a
//! source with a fixed list of messages.
use crate::span::{span_view, Span, NANOS_PER_MILLI, NANOS_PER_SEC};
use crate::text::views;
use crate::timeline::{Message, MessageView, Source};
use std::sync::mpsc::Sender;
use std::time::UNIX_EPOCH;
use vstd::prelude::*;

verus! {

/// The sending end of a channel, carried through unread.
#[verifier::external_type_specification]
#[verifier::external_body]
#[verifier::reject_recursive_types(T)]
pub struct ExSender<T>(Sender<T>);

/// Delivers messages to a channel until nobody receives them.
pub trait Bridge: Send + 'static {
    /// Starts the delivery; the messages go to `sender`.
    fn start(self, sender: Sender<Message>);
}

/// Simulates a room of a source: its messages repeat for ever, with a pause
/// after each.
pub struct MockBridge {
    source: Source,
    stream_id: &'static str,
    room_id: &'static str,
    room_title: &'static str,
    author: &'static str,
    messages: Vec<&'static str>,
    min_interval: Span,
    max_interval: Span,
}

/// The content of a [`MockBridge`], with spans in nanoseconds.
pub struct BridgeView {
    pub source: Source,
    pub stream_id: Seq<char>,
    pub room_id: Seq<char>,
    pub room_title: Seq<char>,
    pub author: Seq<char>,
    pub messages: Seq<Seq<char>>,
    pub min_interval: nat,
    pub max_interval: nat,
}

impl View for MockBridge {
    type V = BridgeView;

    closed spec fn view(&self) -> BridgeView {
        BridgeView {
            source: self.source,
            stream_id: self.stream_id@,
            room_id: self.room_id@,
            room_title: self.room_title@,
            author: self.author@,
            messages: views(self.messages@),
            min_interval: self.min_interval@,
            max_interval: self.max_interval@,
        }
    }
}

/// What a bridge does after it has handed a message over.
pub enum Step {
    /// Nobody receives the messages any more.
    Stop,
    /// Wait for `pause`, then deliver the message at `next`.
    Wait { pause: Span, next: usize },
}

/// The number of values of a 64-bit number.
pub const TWO_POW_64: u128 = 0x1_0000_0000_0000_0000;

/// By how many milliseconds at most a pause is prolonged, in 64 bits.
pub open spec fn jitter_window(min_interval: nat, max_interval: nat) -> nat {
    ((max_interval - min_interval) as nat / NANOS_PER_MILLI as nat) % TWO_POW_64 as nat
}

/// Whether the number of possible pauses fits 64 bits.
pub open spec fn jitter_countable(min_interval: nat, max_interval: nat) -> bool {
    max_interval > min_interval ==> jitter_window(min_interval, max_interval) + 1 < TWO_POW_64
}

/// By how many milliseconds the clock reading `since_epoch` prolongs a pause.
pub open spec fn jitter_of(
    min_interval: nat,
    max_interval: nat,
    since_epoch: Option<nat>,
) -> nat {
    match since_epoch {
        Some(nanos) => (nanos % TWO_POW_64 as nat) % (jitter_window(min_interval, max_interval)
            + 1),
        None => 0,
    }
}

/// The pause after a message: the shortest one, prolonged by what the clock
/// reading `since_epoch` leaves over the window. A clock that stands before
/// its epoch gives no reading, and prolongs nothing.
pub open spec fn pause_of(
    min_interval: nat,
    max_interval: nat,
    since_epoch: Option<nat>,
) -> nat {
    if max_interval > min_interval {
        let jitter = jitter_of(min_interval, max_interval, since_epoch);
        min_interval + jitter * NANOS_PER_MILLI as nat
    } else {
        min_interval
    }
}

/// The position of the message after the one at `index` of `len`.
pub open spec fn next_index(index: nat, len: nat) -> nat {
    if index + 1 == len {
        0
    } else {
        index + 1
    }
}

impl BridgeView {
    /// The message at `index`.
    pub open spec fn message(self, index: int) -> MessageView {
        MessageView {
            source: self.source,
            stream_id: self.stream_id,
            room_id: self.room_id,
            room_title: self.room_title,
            author: self.author,
            body: self.messages[index],
        }
    }
}

/// `SystemTime::elapsed` of the Unix epoch: the seconds and nanoseconds from
/// the epoch to the present, the latter less than a second; nothing if the
/// system clock stands before the epoch. Which numbers come depends on the
/// clock and is not stated.
#[verifier::external_body]
pub(crate) fn since_unix_epoch() -> (distance: Option<(u64, u32)>)
    ensures
        distance matches Some(parts) ==> parts.1 < NANOS_PER_SEC,
{
    match UNIX_EPOCH.elapsed() {
        Ok(duration) => Some((duration.as_secs(), duration.subsec_nanos())),
        Err(_) => None,
    }
}

/// Whether the system clock may have shown `reading`: whether `reading` is what
/// [`since_unix_epoch`] gave, in nanoseconds.
pub closed spec fn system_clock_shows(reading: Option<nat>) -> bool {
    exists|distance: Option<(u64, u32)>| #[trigger]
        call_ensures(since_unix_epoch, (), distance) && reading == match distance {
            Some(parts) => Some((parts.0 * NANOS_PER_SEC + parts.1) as nat),
            None => None,
        }
}

/// What the system clock shows is what `SystemTime::elapsed` gave for the Unix
/// epoch, seconds and nanoseconds together.
pub(crate) proof fn law_system_clock_shows_elapsed_time(nanos: nat)
    ensures
        system_clock_shows(Some(nanos)) <==> exists|parts: (u64, u32)| #[trigger]
            call_ensures(since_unix_epoch, (), Some(parts)) && nanos == parts.0 * 1_000_000_000
                + parts.1,
        system_clock_shows(None) <==> call_ensures(since_unix_epoch, (), None),
{
    if system_clock_shows(Some(nanos)) {
        let distance = choose|distance: Option<(u64, u32)>| #[trigger]
            call_ensures(since_unix_epoch, (), distance) && Some(nanos) == match distance {
                Some(parts) => Some((parts.0 * NANOS_PER_SEC + parts.1) as nat),
                None => None,
            };
        assert(call_ensures(since_unix_epoch, (), Some(distance->0)));
    }
}

/// The pause between `min_interval` and `max_interval` that a clock reading
/// picks.
pub fn pause_between(
    min_interval: &Span,
    max_interval: &Span,
    since_epoch: Option<Span>,
) -> (pause: Span)
    requires
        since_epoch is Some ==> jitter_countable(min_interval@, max_interval@),
    ensures
        pause@ == pause_of(
            min_interval@,
            max_interval@,
            span_view(since_epoch),
        ),
{
    if max_interval.as_nanos() > min_interval.as_nanos() {
        let gap = max_interval.saturating_sub(min_interval);
        let window: u64 = (gap.as_millis() % TWO_POW_64) as u64;
        let jitter: u64 = match since_epoch {
            Some(reading) => (reading.as_nanos() % TWO_POW_64) as u64 % (window + 1),
            None => 0,
        };
        proof {
            law_pauses_within_intervals(min_interval@, max_interval@, span_view(since_epoch));
        }
        min_interval.saturating_add(&Span::from_millis(jitter))
    } else {
        *min_interval
    }
}

impl MockBridge {
    /// A bridge for one room of one stream.
    pub fn new(
        source: Source,
        stream_id: &'static str,
        room_id: &'static str,
        room_title: &'static str,
        author: &'static str,
        messages: Vec<&'static str>,
        min_interval: Span,
        max_interval: Span,
    ) -> (bridge: Self)
        ensures
            bridge@ == (BridgeView {
                source,
                stream_id: stream_id@,
                room_id: room_id@,
                room_title: room_title@,
                author: author@,
                messages: views(messages@),
                min_interval: min_interval@,
                max_interval: max_interval@,
            }),
    {
        MockBridge {
            source,
            stream_id,
            room_id,
            room_title,
            author,
            messages,
            min_interval,
            max_interval,
        }
    }

    /// The message at `index`; none past the end of the list.
    pub fn message_at(&self, index: usize) -> (message: Option<Message>)
        ensures
            match message {
                Some(message) => index < self@.messages.len() && message@ == self@.message(
                    index as int,
                ),
                None => index >= self@.messages.len(),
            },
    {
        if index < self.messages.len() {
            Some(
                Message {
                    source: self.source,
                    stream_id: self.stream_id,
                    room_id: self.room_id,
                    room_title: self.room_title,
                    author: self.author,
                    body: self.messages[index].to_owned(),
                },
            )
        } else {
            None
        }
    }

    /// The step after the message at `index` was handed over, with success or
    /// without, when the clock shows `since_epoch`.
    pub fn step_after(&self, index: usize, delivered: bool, since_epoch: Option<Span>) -> (step:
        Step)
        requires
            index < self@.messages.len(),
            delivered && since_epoch is Some ==> jitter_countable(
                self@.min_interval,
                self@.max_interval,
            ),
        ensures
            match step {
                Step::Stop => !delivered,
                Step::Wait { pause, next } => {
                    &&& delivered
                    &&& next == next_index(index as nat, self@.messages.len())
                    &&& next < self@.messages.len()
                    &&& pause@ == pause_of(
                        self@.min_interval,
                        self@.max_interval,
                        span_view(since_epoch),
                    )
                },
            },
    {
        if !delivered {
            return Step::Stop;
        }
        let pause = pause_between(&self.min_interval, &self.max_interval, since_epoch);
        let len: usize = self.messages.len();
        let next: usize = if index + 1 == len {
            0
        } else {
            index + 1
        };
        Step::Wait { pause, next }
    }

    /// The step after the message at `index` was handed over, by the system
    /// clock.
    pub fn step(&self, index: usize, delivered: bool) -> (step: Step)
        requires
            index < self@.messages.len(),
            delivered ==> jitter_countable(self@.min_interval, self@.max_interval),
        ensures
            match step {
                Step::Stop => !delivered,
                Step::Wait { pause, next } => {
                    &&& delivered
                    &&& next == next_index(index as nat, self@.messages.len())
                    &&& exists|reading: Option<nat>| #[trigger]
                        system_clock_shows(reading) && pause@ == pause_of(
                            self@.min_interval,
                            self@.max_interval,
                            reading,
                        )
                },
            },
    {
        let distance = since_unix_epoch();
        assert(call_ensures(since_unix_epoch, (), distance));
        let reading = match distance {
            Some((secs, nanos)) => Some(Span::new(secs, nanos)),
            None => None,
        };
        assert(system_clock_shows(span_view(reading)));
        self.step_after(index, delivered, reading)
    }

    /// Whether every pause of the bridge can be computed.
    pub fn is_countable(&self) -> (answer: bool)
        ensures
            answer == jitter_countable(self@.min_interval, self@.max_interval),
    {
        if self.max_interval.as_nanos() > self.min_interval.as_nanos() {
            let gap = self.max_interval.saturating_sub(&self.min_interval);
            gap.as_millis() % TWO_POW_64 + 1 < TWO_POW_64
        } else {
            true
        }
    }
}

/// The bridge of the demonstration: one Slack stream that updates every two to
/// five seconds.
pub fn demo_bridge() -> (bridge: MockBridge)
    ensures
        bridge@.source == Source::Slack,
        bridge@.stream_id == "slack-demo"@,
        bridge@.room_id == "eng"@,
        bridge@.room_title == "Engineering"@,
        bridge@.author == "marina"@,
        bridge@.messages == seq![
            "Deploy complete"@,
            "Can someone review #42?"@,
            "Standup in 5m"@,
        ],
        bridge@.min_interval == 2 * NANOS_PER_SEC,
        bridge@.max_interval == 5 * NANOS_PER_SEC,
        jitter_countable(bridge@.min_interval, bridge@.max_interval),
{
    let messages = vec!["Deploy complete", "Can someone review #42?", "Standup in 5m"];
    assert(views(messages@) =~= seq![
        "Deploy complete"@,
        "Can someone review #42?"@,
        "Standup in 5m"@,
    ]);
    MockBridge::new(
        Source::Slack,
        "slack-demo",
        "eng",
        "Engineering",
        "marina",
        messages,
        Span::from_secs(2),
        Span::from_secs(5),
    )
}

/// The position of the message that follows `count` delivered ones.
pub open spec fn index_after(count: nat, len: nat) -> nat
    decreases count,
{
    if count == 0 {
        0
    } else {
        next_index(index_after((count - 1) as nat, len), len)
    }
}

/// A bridge goes round its list: after any number of messages the next one
/// stands at the remainder of that number by the length of the list.
pub proof fn law_messages_go_round(count: nat, len: nat)
    requires
        len > 0,
    ensures
        index_after(count, len) == count % len,
    decreases count,
{
    if count == 0 {
        assert(0nat % len == 0) by (nonlinear_arith)
            requires
                len > 0,
        ;
    } else {
        let before = (count - 1) as nat;
        law_messages_go_round(before, len);
        let at = before % len;
        assert(count % len == (if at + 1 == len {
            0
        } else {
            at + 1
        })) by {
            vstd::arithmetic::div_mod::lemma_fundamental_div_mod(before as int, len as int);
            let laps = before as int / len as int;
            if at + 1 == len {
                assert(count == (laps + 1) * len + 0) by (nonlinear_arith)
                    requires
                        count == len * laps + at + 1,
                        at + 1 == len,
                ;
                vstd::arithmetic::div_mod::lemma_fundamental_div_mod_converse(
                    count as int,
                    len as int,
                    laps + 1,
                    0,
                );
            } else {
                assert(count == laps * len + (at + 1)) by (nonlinear_arith)
                    requires
                        count == len * laps + at + 1,
                ;
                vstd::arithmetic::div_mod::lemma_fundamental_div_mod_converse(
                    count as int,
                    len as int,
                    laps,
                    at as int + 1,
                );
            }
        }
    }
}

/// Whatever the clock shows, a pause is the shortest one prolonged by whole
/// milliseconds, at most as many as the intervals lie apart; so it is never
/// shorter than the shortest nor longer than the longest. Where the longest
/// is not longer than the shortest, it is the shortest.
pub proof fn law_pauses_within_intervals(
    min_interval: nat,
    max_interval: nat,
    since_epoch: Option<nat>,
)
    ensures
        max_interval > min_interval ==> {
            let jitter = jitter_of(min_interval, max_interval, since_epoch);
            let pause = pause_of(min_interval, max_interval, since_epoch);
            &&& pause == min_interval + jitter * NANOS_PER_MILLI
            &&& jitter <= (max_interval - min_interval) as nat / NANOS_PER_MILLI as nat
            &&& min_interval <= pause <= max_interval
        },
        max_interval <= min_interval ==> pause_of(min_interval, max_interval, since_epoch)
            == min_interval,
{
    if max_interval > min_interval {
        let gap = (max_interval - min_interval) as nat;
        let millis = gap / NANOS_PER_MILLI as nat;
        let window = jitter_window(min_interval, max_interval);
        assert(window <= millis) by (nonlinear_arith)
            requires
                window == millis % 0x1_0000_0000_0000_0000nat,
        ;
        if let Some(nanos) = since_epoch {
            let reading = nanos % TWO_POW_64 as nat;
            assert(reading % (window + 1) <= window) by (nonlinear_arith)
                requires
                    window >= 0,
            ;
        }
    }
}

} // verus!
