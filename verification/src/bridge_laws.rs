//! What holds of every bridge, whatever the clock shows.
use crate::bridge::{jitter_countable, next_index, pause_of, BridgeView};
use vstd::prelude::*;

verus! {

/// A pause between intervals that lie apart is the shortest one, prolonged by
/// the remainder of the clock reading, cut to 64 bits, by the number of whole
/// milliseconds that the pause may take, in milliseconds.
pub proof fn law_pause_follows_the_clock(min_interval: nat, max_interval: nat, nanos: nat)
    requires
        max_interval > min_interval,
    ensures
        ({
            let apart = (max_interval - min_interval) as nat / 1_000_000nat;
            let choices = apart % 0x1_0000_0000_0000_0000nat + 1;
            pause_of(min_interval, max_interval, Some(nanos)) == min_interval + (nanos
                % 0x1_0000_0000_0000_0000nat) % choices * 1_000_000
        }),
        pause_of(min_interval, max_interval, None) == min_interval,
{
}

/// Every pause of whole milliseconds within the intervals comes with some
/// clock reading, and a nanosecond more on the clock prolongs the pause by a
/// millisecond until the longest.
pub proof fn law_every_pause_can_come(min_interval: nat, max_interval: nat, jitter: nat)
    requires
        max_interval > min_interval,
        jitter <= (max_interval - min_interval) as nat / 1_000_000nat,
        (max_interval - min_interval) as nat / 1_000_000nat < 0xFFFF_FFFF_FFFF_FFFF,
    ensures
        pause_of(min_interval, max_interval, Some(jitter)) == min_interval + jitter * 1_000_000,
{
    let apart = (max_interval - min_interval) as nat / 1_000_000nat;
    assert(apart % 0x1_0000_0000_0000_0000nat == apart);
    assert(jitter % 0x1_0000_0000_0000_0000nat == jitter);
    assert(jitter % (apart + 1) == jitter) by (nonlinear_arith)
        requires
            jitter <= apart,
    ;
}

/// Pauses can be counted unless the intervals lie so far apart that the whole
/// milliseconds between them, cut to 64 bits, are as many as 64 bits hold.
pub proof fn law_uncountable_windows(min_interval: nat, max_interval: nat)
    ensures
        max_interval <= min_interval ==> jitter_countable(min_interval, max_interval),
        max_interval > min_interval ==> (jitter_countable(min_interval, max_interval) <==> ((
        max_interval - min_interval) as nat / 1_000_000nat) % 0x1_0000_0000_0000_0000nat
            != 0xFFFF_FFFF_FFFF_FFFF),
{
}

/// From any message the next one is the one after it, and after the last the
/// first.
pub proof fn law_next_message(index: nat, len: nat)
    requires
        index < len,
    ensures
        next_index(index, len) < len,
        index + 1 < len ==> next_index(index, len) == index + 1,
        index + 1 == len ==> next_index(index, len) == 0,
{
}

/// A message of a bridge carries what the bridge was made with, and the text
/// at its place in the list.
pub proof fn law_messages_carry_the_bridge(bridge: BridgeView, index: int)
    ensures
        bridge.message(index).source == bridge.source,
        bridge.message(index).stream_id == bridge.stream_id,
        bridge.message(index).room_id == bridge.room_id,
        bridge.message(index).room_title == bridge.room_title,
        bridge.message(index).author == bridge.author,
        bridge.message(index).body == bridge.messages[index],
{
}

} // verus!
