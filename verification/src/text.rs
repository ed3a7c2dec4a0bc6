//! Small facts about text and about sequences of values.
use vstd::prelude::*;
use vstd::string::*;

verus! {

/// The views of the values of a sequence.
pub open spec fn views<T: View>(values: Seq<T>) -> Seq<T::V> {
    values.map_values(|value: T| value@)
}

/// Appending a value appends its view.
pub proof fn lemma_views_push<T: View>(values: Seq<T>, value: T)
    ensures
        views(values.push(value)) == views(values).push(value@),
{
    assert(views(values.push(value)) =~= views(values).push(value@));
}

/// A prefix grows by the value that follows it.
pub proof fn lemma_take_next<T>(values: Seq<T>, at: int)
    requires
        0 <= at < values.len(),
    ensures
        values.take(at + 1) == values.take(at).push(values[at]),
{
    assert(values.take(at + 1) =~= values.take(at).push(values[at]));
}

/// Whether Unicode gives `c` the property White_Space.
pub open spec fn is_white_space(c: char) -> bool {
    ||| '\u{9}' <= c <= '\u{D}'
    ||| c == ' '
    ||| c == '\u{85}'
    ||| c == '\u{A0}'
    ||| c == '\u{1680}'
    ||| '\u{2000}' <= c <= '\u{200A}'
    ||| c == '\u{2028}'
    ||| c == '\u{2029}'
    ||| c == '\u{202F}'
    ||| c == '\u{205F}'
    ||| c == '\u{3000}'
}

/// Whether nothing is left of `text` once white space is trimmed off.
pub open spec fn blank(text: Seq<char>) -> bool {
    forall|i: int| 0 <= i < text.len() ==> is_white_space(#[trigger] text[i])
}

/// Whether nothing is left of `text` once white space is trimmed off.
pub fn is_blank(text: &str) -> (answer: bool)
    ensures
        answer == blank(text@),
{
    let len = text.unicode_len();
    let mut at: usize = 0;
    while at < len
        invariant
            at <= len,
            len == text@.len(),
            forall|i: int| 0 <= i < at ==> is_white_space(#[trigger] text@[i]),
        decreases len - at,
    {
        let c = text.get_char(at);
        let white = ('\u{9}' <= c && c <= '\u{D}') || c == ' ' || c == '\u{85}' || c == '\u{A0}'
            || c == '\u{1680}' || ('\u{2000}' <= c && c <= '\u{200A}') || c == '\u{2028}' || c
            == '\u{2029}' || c == '\u{202F}' || c == '\u{205F}' || c == '\u{3000}';
        if !white {
            return false;
        }
        at += 1;
    }
    true
}

/// Whether a text differs from `text`.
pub open spec fn other_than(text: Seq<char>) -> spec_fn(Seq<char>) -> bool {
    |other: Seq<char>| other != text
}

/// Keeps the values that `keep` accepts, which are those whose views pass
/// `passes`.
pub(crate) fn retain<T: View, F: Fn(&T) -> bool>(
    values: &mut Vec<T>,
    keep: F,
    Ghost(passes): Ghost<spec_fn(T::V) -> bool>,
)
    requires
        forall|value: &T| #[trigger] keep.requires((value,)),
        forall|value: &T, kept: bool| #[trigger]
            keep.ensures((value,), kept) ==> kept == passes(value@),
    ensures
        views(final(values)@) == views(old(values)@).filter(passes),
{
    let ghost all = views(values@);
    let ghost mut seen: int = 0;
    let mut at: usize = 0;
    proof {
        reveal(Seq::filter);
        assert(all.take(0).filter(passes) =~= Seq::<T::V>::empty());
        assert(views(values@) =~= all.take(0).filter(passes) + all.skip(0));
    }
    while at < values.len()
        invariant
            forall|value: &T| #[trigger] keep.requires((value,)),
            forall|value: &T, kept: bool| #[trigger]
                keep.ensures((value,), kept) ==> kept == passes(value@),
            0 <= seen <= all.len(),
            at <= values@.len(),
            at == all.take(seen).filter(passes).len(),
            views(values@) == all.take(seen).filter(passes) + all.skip(seen),
        decreases all.len() - seen,
    {
        let ghost kept = all.take(seen).filter(passes);
        let ghost before = values@;
        proof {
            assert(views(values@).len() == kept.len() + (all.len() - seen));
            assert(views(values@)[at as int] == all[seen]);
            lemma_take_next(all, seen);
            assert(all.take(seen + 1).drop_last() =~= all.take(seen));
            reveal(Seq::filter);
        }
        if keep(&values[at]) {
            at += 1;
            assert(views(values@) =~= kept.push(all[seen]) + all.skip(seen + 1));
        } else {
            values.remove(at);
            assert(views(values@) =~= views(before).remove(at as int));
            assert(views(values@) =~= kept + all.skip(seen + 1));
        }
        proof {
            seen = seen + 1;
        }
    }
    proof {
        assert(all.take(seen).filter(passes) + all.skip(seen) =~= all.take(seen).filter(passes));
        assert(all.take(seen) =~= all);
    }
}

/// Takes every occurrence of `text` out of the list.
pub fn remove_text(texts: &mut Vec<String>, text: &str)
    ensures
        views(final(texts)@) == views(old(texts)@).filter(other_than(text@)),
{
    let unwanted = text.to_owned();
    let keep = |other: &String| -> (kept: bool)
        ensures
            kept == (other@ != unwanted@),
        { *other != unwanted };
    retain(texts, keep, Ghost(other_than(text@)));
}

} // verus!
