//! Texts cut into fields at a separator, and the first place of a byte.

use vstd::prelude::*;
use vstd::slice::slice_subrange;

verus! {

/// The fields of `s`, in order: the stretches of `s` between one `sep` and the
/// next. A text without `sep` is one field, and `n` separators make `n + 1`
/// fields, some of which may be empty.
///
/// Read from left to right, a separator opens a new, empty field and every
/// other byte is added to the last field.
pub open spec fn fields(s: Seq<u8>, sep: u8) -> Seq<Seq<u8>>
    decreases s.len(),
{
    if s.len() == 0 {
        seq![Seq::<u8>::empty()]
    } else {
        let before = fields(s.drop_last(), sep);
        if s.last() == sep {
            before.push(Seq::<u8>::empty())
        } else {
            before.update(before.len() - 1, before.last().push(s.last()))
        }
    }
}

/// A text has at least one field, and no field holds the separator.
pub proof fn lemma_fields_shape(s: Seq<u8>, sep: u8)
    ensures
        fields(s, sep).len() >= 1,
        forall|i: int, j: int|
            0 <= i < fields(s, sep).len() && 0 <= j < fields(s, sep)[i].len() ==> (
            #[trigger] fields(s, sep)[i][j]) != sep,
    decreases s.len(),
{
    if s.len() > 0 {
        lemma_fields_shape(s.drop_last(), sep);
    }
}

/// Where `b` first occurs in `text`, if it does.
pub fn find_first(text: &[u8], b: u8) -> (place: Option<usize>)
    ensures
        match place {
            Some(i) => i < text.len() && text@[i as int] == b && text@.index_of_first(b) == Some(
                i as int,
            ),
            None => !text@.contains(b) && text@.index_of_first(b) is None,
        },
{
    let mut i: usize = 0;
    while i < text.len()
        invariant
            i <= text.len(),
            forall|j: int| 0 <= j < i ==> text@[j] != b,
        decreases text.len() - i,
    {
        if text[i] == b {
            proof {
                text@.index_of_first_ensures(b);
            }
            return Some(i);
        }
        i += 1;
    }
    proof {
        text@.index_of_first_ensures(b);
    }
    None
}

/// Where `b` last occurs in `text`, if it does.
pub fn find_last(text: &[u8], b: u8) -> (place: Option<usize>)
    ensures
        match place {
            Some(i) => i < text.len() && text@[i as int] == b && text@.index_of_last(b) == Some(
                i as int,
            ),
            None => !text@.contains(b) && text@.index_of_last(b) is None,
        },
{
    let mut i: usize = text.len();
    while i > 0
        invariant
            i <= text.len(),
            forall|j: int| i <= j < text.len() ==> text@[j] != b,
        decreases i,
    {
        i -= 1;
        if text[i] == b {
            proof {
                text@.index_of_last_ensures(b);
            }
            return Some(i);
        }
    }
    proof {
        text@.index_of_last_ensures(b);
    }
    None
}

/// Cuts `text` into its fields.
pub fn split_fields<'a>(text: &'a [u8], sep: u8) -> (parts: Vec<&'a [u8]>)
    ensures
        parts@.len() == fields(text@, sep).len(),
        forall|k: int| 0 <= k < parts@.len() ==> (#[trigger] parts@[k])@ == fields(text@, sep)[k],
{
    let mut parts: Vec<&'a [u8]> = Vec::new();
    let mut start: usize = 0;
    let mut i: usize = 0;
    while i < text.len()
        invariant
            start <= i <= text.len(),
            parts@.len() + 1 == fields(text@.subrange(0, i as int), sep).len(),
            forall|k: int|
                0 <= k < parts@.len() ==> (#[trigger] parts@[k])@ == fields(
                    text@.subrange(0, i as int),
                    sep,
                )[k],
            fields(text@.subrange(0, i as int), sep).last() == text@.subrange(
                start as int,
                i as int,
            ),
        decreases text.len() - i,
    {
        proof {
            assert(text@.subrange(0, i + 1).drop_last() =~= text@.subrange(0, i as int));
            assert(text@.subrange(start as int, i as int).push(text@[i as int]) =~= text@.subrange(
                start as int,
                i + 1,
            ));
        }
        if text[i] == sep {
            parts.push(slice_subrange(text, start, i));
            start = i + 1;
            proof {
                assert(text@.subrange(start as int, start as int) =~= Seq::<u8>::empty());
            }
        }
        i += 1;
    }
    proof {
        assert(text@.subrange(0, i as int) =~= text@);
    }
    parts.push(slice_subrange(text, start, i));
    parts
}

} // verus!
