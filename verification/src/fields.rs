//! Text that is cut into pieces at a separating character.

use vstd::prelude::*;

verus! {

/// Whether `c` does not occur in `text`.
pub open spec fn free_of(text: Seq<char>, c: char) -> bool {
    forall|i: int| 0 <= i < text.len() ==> #[trigger] text[i] != c
}

/// How many characters stand in `text` before the first `stop`: all of
/// them where there is none.
pub open spec fn run_before(text: Seq<char>, stop: char) -> nat
    decreases text.len(),
{
    if text.len() == 0 || text[0] == stop {
        0
    } else {
        1 + run_before(text.drop_first(), stop)
    }
}

/// What follows the first `stop` in `text`: nothing where there is none.
pub open spec fn rest_after(text: Seq<char>, stop: char) -> Seq<char> {
    let n = run_before(text, stop) as int;
    if n < text.len() {
        text.subrange(n + 1, text.len() as int)
    } else {
        Seq::empty()
    }
}

/// The piece of `text` at place `k`, counted from zero, when `text` is cut
/// at every `stop`.
pub open spec fn piece_at(text: Seq<char>, stop: char, k: nat) -> Seq<char>
    decreases k,
{
    if k == 0 {
        text.subrange(0, run_before(text, stop) as int)
    } else {
        piece_at(rest_after(text, stop), stop, (k - 1) as nat)
    }
}

/// A piece without the separator, followed by the separator, is cut off
/// as it stands, and what follows the separator is left.
pub proof fn lemma_cut_first(piece: Seq<char>, stop: char, rest: Seq<char>)
    requires
        free_of(piece, stop),
    ensures
        run_before(piece + seq![stop] + rest, stop) == piece.len(),
        piece_at(piece + seq![stop] + rest, stop, 0) == piece,
        rest_after(piece + seq![stop] + rest, stop) == rest,
    decreases piece.len(),
{
    let text = piece + seq![stop] + rest;
    if piece.len() == 0 {
        assert(text[0] == stop);
    } else {
        assert(text[0] == piece[0]);
        let shorter = piece.drop_first();
        assert(free_of(shorter, stop)) by {
            assert forall|i: int| 0 <= i < shorter.len() implies #[trigger] shorter[i] != stop by {
                assert(shorter[i] == piece[i + 1]);
            }
        }
        assert(text.drop_first() =~= shorter + seq![stop] + rest);
        lemma_cut_first(shorter, stop, rest);
    }
    assert(text.subrange(0, piece.len() as int) =~= piece);
    assert(text.subrange(piece.len() as int + 1, text.len() as int) =~= rest);
}

/// A text without the separator is one piece.
pub proof fn lemma_cut_last(piece: Seq<char>, stop: char)
    requires
        free_of(piece, stop),
    ensures
        run_before(piece, stop) == piece.len(),
        piece_at(piece, stop, 0) == piece,
    decreases piece.len(),
{
    if piece.len() > 0 {
        let shorter = piece.drop_first();
        assert(piece[0] != stop);
        assert(free_of(shorter, stop)) by {
            assert forall|i: int| 0 <= i < shorter.len() implies #[trigger] shorter[i] != stop by {
                assert(shorter[i] == piece[i + 1]);
            }
        }
        lemma_cut_last(shorter, stop);
    }
    assert(piece.subrange(0, piece.len() as int) =~= piece);
}

/// A text made of two parts is free of a character when both parts are.
pub proof fn lemma_free_of_concat(a: Seq<char>, b: Seq<char>, c: char)
    requires
        free_of(a, c),
        free_of(b, c),
    ensures
        free_of(a + b, c),
{
    assert forall|i: int| 0 <= i < (a + b).len() implies #[trigger] (a + b)[i] != c by {
        if i < a.len() {
            assert((a + b)[i] == a[i]);
        } else {
            assert((a + b)[i] == b[i - a.len()]);
        }
    }
}

} // verus!
