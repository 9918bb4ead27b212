//! Text as `Seq<char>`: comparing slices, joining pieces with a separator and concatenating
//! pieces.

use vstd::prelude::*;

verus! {

/// `<str as PartialEq>::eq` of std compares two slices character by character.
pub assume_specification[ <str as PartialEq>::eq ](a: &str, b: &str) -> (equal: bool)
    ensures
        equal == (a@ == b@),
;

/// The pieces in order, with `sep` between neighbours.
pub open spec fn join(pieces: Seq<Seq<char>>, sep: Seq<char>) -> Seq<char>
    decreases pieces.len(),
{
    if pieces.len() == 0 {
        Seq::empty()
    } else if pieces.len() == 1 {
        pieces[0]
    } else {
        join(pieces.drop_last(), sep) + sep + pieces.last()
    }
}

/// The pieces in order, with nothing between them.
pub open spec fn concat(pieces: Seq<Seq<char>>) -> Seq<char>
    decreases pieces.len(),
{
    if pieces.len() == 0 {
        Seq::empty()
    } else {
        concat(pieces.drop_last()) + pieces.last()
    }
}

/// Joining one piece more: the separator comes before every piece but the first.
pub proof fn lemma_join_step(pieces: Seq<Seq<char>>, sep: Seq<char>, i: int)
    requires
        0 <= i < pieces.len(),
    ensures
        join(pieces.take(i + 1), sep) == if i == 0 {
            pieces[0]
        } else {
            join(pieces.take(i), sep) + sep + pieces[i]
        },
{
    let t = pieces.take(i + 1);
    assert(t.last() == pieces[i]);
    assert(t.drop_last() =~= pieces.take(i));
    if i == 0 {
        assert(t[0] == pieces[0]);
    }
}

/// Concatenating one piece more.
pub proof fn lemma_concat_step(pieces: Seq<Seq<char>>, i: int)
    requires
        0 <= i < pieces.len(),
    ensures
        concat(pieces.take(i + 1)) == concat(pieces.take(i)) + pieces[i],
{
    let t = pieces.take(i + 1);
    assert(t.last() == pieces[i]);
    assert(t.drop_last() =~= pieces.take(i));
}

} // verus!
