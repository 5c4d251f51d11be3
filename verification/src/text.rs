//! Text as sequences of characters: splitting a list at a separator and
//! joining path components.

use vstd::prelude::*;
use vstd::string::*;
use crate::platform::Platform;

verus! {

/// The pieces of `s` between the occurrences of `sep`, in order.
///
/// There is always one piece more than there are separators: the empty text
/// has one empty piece, and a separator at either end leaves an empty piece
/// there.
pub open spec fn split(s: Seq<char>, sep: char) -> Seq<Seq<char>>
    decreases s.len(),
{
    if s.len() == 0 {
        seq![Seq::empty()]
    } else {
        let front = split(s.drop_last(), sep);
        if s.last() == sep {
            front.push(Seq::empty())
        } else {
            front.drop_last().push(front.last().push(s.last()))
        }
    }
}

/// `pieces` written one after the other with `sep` between neighbours.
pub open spec fn join(pieces: Seq<Seq<char>>, sep: char) -> Seq<char>
    decreases pieces.len(),
{
    if pieces.len() == 0 {
        Seq::empty()
    } else if pieces.len() == 1 {
        pieces[0]
    } else {
        join(pieces.drop_last(), sep).push(sep) + pieces.last()
    }
}

/// Splitting never yields an empty list of pieces.
pub proof fn lemma_split_nonempty(s: Seq<char>, sep: char)
    ensures
        split(s, sep).len() >= 1,
    decreases s.len(),
{
    if s.len() > 0 {
        lemma_split_nonempty(s.drop_last(), sep);
    }
}

/// Splitting loses nothing: no piece holds the separator, and joining the
/// pieces with the separator gives the text back.
pub proof fn lemma_split_join(s: Seq<char>, sep: char)
    ensures
        join(split(s, sep), sep) == s,
        forall|k: int, j: int|
            0 <= k < split(s, sep).len() && 0 <= j < split(s, sep)[k].len() ==> split(
                s,
                sep,
            )[k][j] != sep,
    decreases s.len(),
{
    lemma_split_nonempty(s, sep);
    if s.len() == 0 {
        assert(join(split(s, sep), sep) =~= s);
    } else {
        let front = split(s.drop_last(), sep);
        lemma_split_join(s.drop_last(), sep);
        lemma_split_nonempty(s.drop_last(), sep);
        if s.last() == sep {
            let all = front.push(Seq::empty());
            assert(all.drop_last() =~= front);
            assert(join(all, sep) =~= s.drop_last().push(sep));
            assert(s.drop_last().push(s.last()) =~= s);
        } else {
            let grown = front.last().push(s.last());
            let all = front.drop_last().push(grown);
            assert(all.drop_last() =~= front.drop_last());
            if front.len() == 1 {
                assert(front[0] == s.drop_last());
                assert(join(all, sep) =~= s);
            } else {
                assert(join(front, sep) == join(front.drop_last(), sep).push(sep) + front.last());
                assert(join(all, sep) =~= join(front, sep).push(s.last()));
                assert(s.drop_last().push(s.last()) =~= s);
            }
        }
    }
}

/// Splits `s` at every occurrence of `sep`.
pub fn split_text(s: &str, sep: char) -> (pieces: Vec<String>)
    ensures
        pieces.deep_view() == split(s@, sep),
{
    let n = s.unicode_len();
    let mut pieces: Vec<String> = Vec::new();
    let mut start: usize = 0;
    let mut i: usize = 0;
    assert(s@.subrange(0, 0) =~= Seq::<char>::empty());
    assert(pieces.deep_view().push(s@.subrange(0, 0)) =~= seq![Seq::<char>::empty()]);
    while i < n
        invariant
            n == s@.len(),
            start <= i <= n,
            split(s@.subrange(0, i as int), sep) == pieces.deep_view().push(
                s@.subrange(start as int, i as int),
            ),
        decreases n - i,
    {
        let c = s.get_char(i);
        let ghost before = pieces.deep_view();
        let ghost head = s@.subrange(0, i as int);
        let ghost next = s@.subrange(0, i + 1);
        assert(next.drop_last() =~= head);
        assert(next.last() == c);
        if c == sep {
            let piece = String::from_str(s.substring_char(start, i));
            pieces.push(piece);
            assert(pieces.deep_view() =~= before.push(s@.subrange(start as int, i as int)));
            start = i + 1;
            assert(s@.subrange(start as int, i + 1) =~= Seq::<char>::empty());
        } else {
            let ghost front = before.push(s@.subrange(start as int, i as int));
            assert(front.drop_last() =~= before);
            assert(front.last().push(c) =~= s@.subrange(start as int, i + 1));
        }
        i = i + 1;
    }
    let ghost before = pieces.deep_view();
    assert(s@.subrange(0, n as int) =~= s@);
    let piece = String::from_str(s.substring_char(start, n));
    pieces.push(piece);
    assert(pieces.deep_view() =~= before.push(s@.subrange(start as int, n as int)));
    pieces
}

/// `name` appended to `base` as one more path component: the platform's
/// separator is written between the two unless `base` is empty or already
/// ends in a separator.
pub open spec fn joined_path(base: Seq<char>, name: Seq<char>, platform: Platform) -> Seq<char> {
    if base.len() == 0 || platform.is_path_separator(base.last()) {
        base + name
    } else {
        base.push(platform.path_separator()) + name
    }
}

/// Appends `name` to `base` as one more path component.
pub fn join_path(base: &str, name: &str, platform: Platform) -> (path: String)
    ensures
        path@ == joined_path(base@, name@, platform),
{
    let n = base.unicode_len();
    let mut path = String::from_str(base);
    if n > 0 {
        let last = base.get_char(n - 1);
        if !platform.is_path_separator(last) {
            path.append(platform.path_separator_str());
            assert(path@ =~= base@.push(platform.path_separator()));
        }
    }
    path.append(name);
    path
}

/// Whether `needle` stands somewhere in `hay`, character for character.
pub open spec fn occurs_in(needle: Seq<char>, hay: Seq<char>) -> bool {
    exists|at: int|
        0 <= at && at + needle.len() <= hay.len() && #[trigger] hay.subrange(
            at,
            at + needle.len(),
        ) == needle
}

/// A text occurs in whatever is written around it.
pub proof fn lemma_occurs_between(before: Seq<char>, needle: Seq<char>, after: Seq<char>)
    ensures
        occurs_in(needle, before + needle + after),
{
    let hay = before + needle + after;
    let at = before.len() as int;
    assert(hay.subrange(at, at + needle.len()) =~= needle);
}

} // verus!
