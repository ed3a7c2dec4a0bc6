//! What holds of texts and of the views of values.
use crate::string_map::lists_keys;
use crate::text::{blank, is_white_space, other_than, views};
use vstd::prelude::*;

verus! {

/// Taking views keeps number and order: each value has its own view in its own
/// place.
pub proof fn law_views_go_one_by_one<T: View>(values: Seq<T>)
    ensures
        views(values).len() == values.len(),
        forall|i: int| 0 <= i < values.len() ==> #[trigger] views(values)[i] == values[i]@,
{
}

/// White space is what Unicode lists as such, by code point.
pub proof fn law_white_space_by_code_point(c: char)
    ensures
        is_white_space(c) <==> (9 <= c as int <= 13 || 0x2000 <= c as int <= 0x200A || set![
            0x20int,
            0x85,
            0xA0,
            0x1680,
            0x2028,
            0x2029,
            0x202F,
            0x205F,
            0x3000,
        ].contains(c as int)),
{
}

/// A text is blank exactly if both halves are, wherever it is cut; one
/// character that is no white space makes it not blank, and nothing else does.
pub proof fn law_blank_texts(front: Seq<char>, back: Seq<char>, c: char)
    ensures
        blank(Seq::<char>::empty()),
        blank(seq![c]) <==> is_white_space(c),
        blank(front + back) <==> blank(front) && blank(back),
{
    assert(seq![c][0] == c);
    let text = front + back;
    if blank(text) {
        assert forall|i: int| 0 <= i < front.len() implies is_white_space(#[trigger] front[i]) by {
            assert(text[i] == front[i]);
        }
        assert forall|i: int| 0 <= i < back.len() implies is_white_space(#[trigger] back[i]) by {
            assert(text[front.len() + i] == back[i]);
        }
    }
    if blank(front) && blank(back) {
        assert forall|i: int| 0 <= i < text.len() implies is_white_space(#[trigger] text[i]) by {
            if i < front.len() {
                assert(text[i] == front[i]);
            } else {
                assert(text[i] == back[i - front.len()]);
            }
        }
    }
}

/// A list of the keys of a map has as many entries as the map, names each key
/// once and nothing else.
pub proof fn law_listed_keys_are_the_keys<T>(order: Seq<Seq<char>>, map: Map<Seq<char>, T>)
    requires
        lists_keys(order, map),
    ensures
        order.no_duplicates(),
        order.to_set() == map.dom(),
        map.dom().finite(),
        order.len() == map.dom().len(),
{
    assert(order.to_set() =~= map.dom()) by {
        assert forall|k: Seq<char>| order.to_set().contains(k) <==> map.dom().contains(k) by {
            assert(order.contains(k) <==> map.dom().contains(k));
        }
    }
    order.unique_seq_to_set();
}

/// A text is another than `text` exactly if it differs from it.
pub proof fn law_other_texts_differ(text: Seq<char>, other: Seq<char>)
    ensures
        other_than(text)(other) <==> other != text,
{
}

} // verus!
