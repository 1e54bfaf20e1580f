//! Character sequences: splitting on a separator, joining with one, and the
//! decimal notation of a number.
//!
//! Strings are modelled by their views, `Seq<char>`. The executable functions
//! here walk a string once, from the front.

use vstd::prelude::*;
use vstd::std_specs::iter::IteratorSpec;

verus! {

/// The views of the strings of `v`, in order.
pub open spec fn texts<T: View<V = Seq<char>>>(v: Seq<T>) -> Seq<Seq<char>> {
    v.map_values(|s: T| s@)
}

/// `s` holds `c` nowhere.
pub open spec fn free_of(s: Seq<char>, c: char) -> bool {
    forall|i: int| 0 <= i < s.len() ==> s[i] != c
}

/// The pieces of `s` between the occurrences of `sep`, empty pieces included:
/// one piece more than `s` holds separators.
pub open spec fn split(s: Seq<char>, sep: char) -> Seq<Seq<char>>
    decreases s.len(),
{
    if s.len() == 0 {
        seq![Seq::<char>::empty()]
    } else {
        let init = split(s.drop_last(), sep);
        if s.last() == sep {
            init.push(Seq::<char>::empty())
        } else {
            init.update(init.len() - 1, init.last().push(s.last()))
        }
    }
}

/// The parts in order, with `sep` between each two neighbours.
pub open spec fn join(parts: Seq<Seq<char>>, sep: Seq<char>) -> Seq<char>
    decreases parts.len(),
{
    if parts.len() == 0 {
        Seq::<char>::empty()
    } else if parts.len() == 1 {
        parts[0]
    } else {
        join(parts.drop_last(), sep) + sep + parts.last()
    }
}

/// The pieces that hold at least one character, in order.
pub open spec fn nonempty(pieces: Seq<Seq<char>>) -> Seq<Seq<char>> {
    pieces.filter(|piece: Seq<char>| piece.len() > 0)
}

/// `part` stands in `text` from position `at` on.
pub open spec fn occurs_at(text: Seq<char>, part: Seq<char>, at: int) -> bool {
    0 <= at && at + part.len() <= text.len() && text.subrange(at, at + part.len()) == part
}

/// `part` stands somewhere in `text`.
pub open spec fn occurs_in(text: Seq<char>, part: Seq<char>) -> bool {
    exists|at: int| occurs_at(text, part, at)
}

/// The character that stands for a digit below ten, and `9` for ten and more.
pub open spec fn digit(d: nat) -> char {
    if d == 0 {
        '0'
    } else if d == 1 {
        '1'
    } else if d == 2 {
        '2'
    } else if d == 3 {
        '3'
    } else if d == 4 {
        '4'
    } else if d == 5 {
        '5'
    } else if d == 6 {
        '6'
    } else if d == 7 {
        '7'
    } else if d == 8 {
        '8'
    } else {
        '9'
    }
}

/// The decimal notation of `n`, without leading zeros.
pub open spec fn decimal(n: nat) -> Seq<char>
    decreases n,
{
    if n < 10 {
        seq![digit(n)]
    } else {
        decimal(n / 10).push(digit(n % 10))
    }
}

/// The number that a digit stands for.
pub open spec fn digit_value(c: char) -> nat {
    if c == '1' {
        1
    } else if c == '2' {
        2
    } else if c == '3' {
        3
    } else if c == '4' {
        4
    } else if c == '5' {
        5
    } else if c == '6' {
        6
    } else if c == '7' {
        7
    } else if c == '8' {
        8
    } else if c == '9' {
        9
    } else {
        0
    }
}

/// The number that a text of digits stands for.
pub open spec fn decimal_value(text: Seq<char>) -> nat
    decreases text.len(),
{
    if text.len() == 0 {
        0
    } else {
        decimal_value(text.drop_last()) * 10 + digit_value(text.last())
    }
}

/// `String::push` of std appends one character to the end of the string.
pub assume_specification[ String::push ](s: &mut String, c: char)
    ensures
        final(s)@ == old(s)@.push(c),
;

/// The decimal notation of a number is made of digits, begins with `0` for 0
/// only, and stands for that number.
pub proof fn lemma_decimal_value(n: nat)
    ensures
        decimal(n).len() >= 1,
        forall|i: int| 0 <= i < decimal(n).len() ==> '0' <= #[trigger] decimal(n)[i] <= '9',
        decimal(n)[0] == '0' <==> n == 0,
        decimal_value(decimal(n)) == n,
    decreases n,
{
    if n < 10 {
        assert(decimal(n).drop_last() == Seq::<char>::empty());
        assert(decimal_value(Seq::<char>::empty()) == 0);
    } else {
        lemma_decimal_value(n / 10);
        assert(decimal(n).drop_last() == decimal(n / 10));
    }
}

/// Splitting never yields an empty sequence of pieces.
pub proof fn lemma_split_len(s: Seq<char>, sep: char)
    ensures
        split(s, sep).len() >= 1,
    decreases s.len(),
{
    if s.len() > 0 {
        lemma_split_len(s.drop_last(), sep);
    }
}

/// No piece of a split holds the separator.
pub proof fn lemma_split_pieces_free(s: Seq<char>, sep: char)
    ensures
        forall|i: int| 0 <= i < split(s, sep).len() ==> free_of(#[trigger] split(s, sep)[i], sep),
    decreases s.len(),
{
    if s.len() > 0 {
        lemma_split_len(s.drop_last(), sep);
        lemma_split_pieces_free(s.drop_last(), sep);
    }
}

/// Joining the pieces of a split with the separator gives the text back.
pub proof fn lemma_join_split(s: Seq<char>, sep: char)
    ensures
        join(split(s, sep), seq![sep]) == s,
    decreases s.len(),
{
    if s.len() > 0 {
        let init = split(s.drop_last(), sep);
        lemma_split_len(s.drop_last(), sep);
        lemma_join_split(s.drop_last(), sep);
        if s.last() == sep {
            assert(init.push(Seq::<char>::empty()).drop_last() == init);
        } else if init.len() > 1 {
            let last = init.last().push(s.last());
            let pieces = init.update(init.len() - 1, last);
            let front = join(init.drop_last(), seq![sep]) + seq![sep];
            assert(pieces.drop_last() == init.drop_last());
            assert(front + last == (front + init.last()).push(s.last()));
        }
    }
}

/// A text that follows without a separator in it lengthens the last piece.
pub proof fn lemma_split_append_free(a: Seq<char>, b: Seq<char>, sep: char)
    requires
        free_of(b, sep),
    ensures
        split(a + b, sep) == split(a, sep).update(
            split(a, sep).len() - 1,
            split(a, sep).last() + b,
        ),
    decreases b.len(),
{
    lemma_split_len(a, sep);
    if b.len() > 0 {
        let b0 = b.drop_last();
        lemma_split_append_free(a, b0, sep);
        assert((a + b).drop_last() == a + b0);
        assert((split(a, sep).last() + b0).push(b.last()) == split(a, sep).last() + b);
    }
}

/// Splitting is the inverse of joining pieces that are free of the separator:
/// the pieces of a text are the only such pieces that join to it.
pub proof fn lemma_split_join(pieces: Seq<Seq<char>>, sep: char)
    requires
        pieces.len() >= 1,
        forall|i: int| 0 <= i < pieces.len() ==> free_of(#[trigger] pieces[i], sep),
    ensures
        split(join(pieces, seq![sep]), sep) == pieces,
    decreases pieces.len(),
{
    if pieces.len() == 1 {
        lemma_split_append_free(Seq::<char>::empty(), pieces[0], sep);
    } else {
        let init = pieces.drop_last();
        let front = join(init, seq![sep]);
        lemma_split_join(init, sep);
        assert((front + seq![sep]).drop_last() == front);
        lemma_split_append_free(front + seq![sep], pieces.last(), sep);
    }
}

/// What one more piece at the end does to the pieces that are kept.
pub proof fn lemma_nonempty_push(pieces: Seq<Seq<char>>, piece: Seq<char>)
    ensures
        nonempty(pieces.push(piece)) == (if piece.len() > 0 {
            nonempty(pieces).push(piece)
        } else {
            nonempty(pieces)
        }),
{
    reveal(Seq::filter);
    assert(pieces.push(piece).drop_last() == pieces);
}

/// Where every piece holds a character, all pieces are kept.
pub proof fn lemma_nonempty_keeps_all(pieces: Seq<Seq<char>>)
    requires
        forall|i: int| 0 <= i < pieces.len() ==> (#[trigger] pieces[i]).len() > 0,
    ensures
        nonempty(pieces) == pieces,
    decreases pieces.len(),
{
    reveal(Seq::filter);
    if pieces.len() > 0 {
        lemma_nonempty_keeps_all(pieces.drop_last());
    }
}

/// Every piece that is kept holds a character and is one of the pieces.
pub proof fn lemma_nonempty_members(pieces: Seq<Seq<char>>)
    ensures
        forall|i: int|
            0 <= i < nonempty(pieces).len() ==> (#[trigger] nonempty(pieces)[i]).len() > 0
                && pieces.contains(nonempty(pieces)[i]),
    decreases pieces.len(),
{
    reveal(Seq::filter);
    if pieces.len() > 0 {
        let init = pieces.drop_last();
        lemma_nonempty_members(init);
        assert forall|i: int| 0 <= i < nonempty(pieces).len() implies (#[trigger] nonempty(
            pieces,
        )[i]).len() > 0 && pieces.contains(nonempty(pieces)[i]) by {
            if i < nonempty(init).len() {
                let found = choose|k: int| 0 <= k < init.len() && init[k] == nonempty(init)[i];
                assert(pieces[found] == nonempty(pieces)[i]);
            } else {
                assert(pieces.last() == nonempty(pieces)[i]);
            }
        }
    }
}

/// The first piece of a text is what stands before its first separator.
pub proof fn lemma_split_first(head: Seq<char>, tail: Seq<char>, sep: char)
    requires
        free_of(head, sep),
    ensures
        split(head, sep) == seq![head],
        split(head + seq![sep] + tail, sep)[0] == head,
        split(head + seq![sep] + tail, sep).len() >= 2,
    decreases tail.len(),
{
    lemma_split_append_free(Seq::<char>::empty(), head, sep);
    if tail.len() == 0 {
        assert(head + seq![sep] + tail == head.push(sep));
        assert(head.push(sep).drop_last() == head);
    } else {
        let shorter = head + seq![sep] + tail.drop_last();
        lemma_split_first(head, tail.drop_last(), sep);
        assert((head + seq![sep] + tail).drop_last() == shorter);
    }
}

/// Each part stands in the text that the parts are joined to.
pub proof fn lemma_join_holds_part(parts: Seq<Seq<char>>, sep: Seq<char>, i: int)
    requires
        0 <= i < parts.len(),
    ensures
        occurs_in(join(parts, sep), parts[i]),
    decreases parts.len(),
{
    let joined = join(parts, sep);
    if parts.len() == 1 {
        assert(joined.subrange(0, parts[i].len() as int) == parts[i]);
        assert(occurs_at(joined, parts[i], 0));
    } else {
        let front = join(parts.drop_last(), sep);
        if i == parts.len() - 1 {
            let at = (front + sep).len() as int;
            assert(joined.subrange(at, at + parts[i].len()) == parts[i]);
            assert(occurs_at(joined, parts[i], at));
        } else {
            lemma_join_holds_part(parts.drop_last(), sep, i);
            let at = choose|at: int| occurs_at(front, parts[i], at);
            assert(joined.subrange(at, at + parts[i].len()) == front.subrange(
                at,
                at + parts[i].len(),
            ));
        }
    }
}

/// A text that holds no separator and stands in no part stands nowhere in what
/// the parts are joined to.
pub proof fn lemma_join_free_of_part(parts: Seq<Seq<char>>, sep: char, part: Seq<char>)
    requires
        part.len() > 0,
        free_of(part, sep),
        forall|i: int| 0 <= i < parts.len() ==> !occurs_in(#[trigger] parts[i], part),
    ensures
        !occurs_in(join(parts, seq![sep]), part),
    decreases parts.len(),
{
    let joined = join(parts, seq![sep]);
    if parts.len() == 0 {
        assert forall|at: int| !occurs_at(joined, part, at) by {}
    } else if parts.len() > 1 {
        let front = join(parts.drop_last(), seq![sep]);
        let last = parts.last();
        lemma_join_free_of_part(parts.drop_last(), sep, part);
        assert forall|at: int| !occurs_at(joined, part, at) by {
            if occurs_at(joined, part, at) {
                let found = joined.subrange(at, at + part.len());
                if at + part.len() <= front.len() {
                    assert(front.subrange(at, at + part.len()) == found);
                    assert(occurs_at(front, part, at));
                } else if at <= front.len() {
                    assert(found[front.len() - at] == sep);
                } else {
                    let from = at - front.len() - 1;
                    assert(last.subrange(from, from + part.len()) == found);
                    assert(occurs_at(last, part, from));
                }
            }
        }
    }
}

/// One walk over the characters of `s`, cutting at each `sep`.
pub fn split_text(s: &str, sep: char) -> (pieces: Vec<String>)
    ensures
        texts(pieces@) == split(s@, sep),
{
    let mut done: Vec<String> = Vec::new();
    let mut piece = String::new();
    for c in it: s.chars()
        invariant
            it.seq() == s@,
            texts(done@).push(piece@) == split(s@.take(it.index()), sep),
    {
        proof {
            assert(s@.take(it.index() + 1).drop_last() == s@.take(it.index()));
            lemma_split_len(s@.take(it.index()), sep);
        }
        if c == sep {
            done.push(piece);
            piece = String::new();
        } else {
            piece.push(c);
        }
    }
    proof {
        assert(s@.take(s@.len() as int) == s@);
    }
    done.push(piece);
    done
}

/// `prefix` stands at the front of `s`.
pub fn starts_with(s: &str, prefix: &str) -> (found: bool)
    ensures
        found == prefix@.is_prefix_of(s@),
{
    let mut rest = s.chars();
    for c in it: prefix.chars()
        invariant
            it.seq() == prefix@,
            it.index() <= s@.len(),
            rest.remaining() == s@.skip(it.index()),
            prefix@.take(it.index()) == s@.take(it.index()),
    {
        match rest.next() {
            None => {
                return false;
            },
            Some(d) => {
                if c != d {
                    return false;
                }
            },
        }
    }
    true
}

/// The strings that hold at least one character, in order.
pub fn nonempty_text(pieces: Vec<String>) -> (kept: Vec<String>)
    ensures
        texts(kept@) == nonempty(texts(pieces@)),
{
    let ghost all = pieces@;
    let mut kept: Vec<String> = Vec::new();
    proof {
        reveal(Seq::filter);
    }
    for piece in it: pieces
        invariant
            it.seq() == all,
            texts(kept@) == nonempty(texts(all.take(it.index()))),
    {
        proof {
            assert(texts(all.take(it.index() + 1)) == texts(all.take(it.index())).push(piece@));
            lemma_nonempty_push(texts(all.take(it.index())), piece@);
        }
        if !piece.as_str().is_empty() {
            kept.push(piece);
        }
    }
    proof {
        assert(all.take(all.len() as int) == all);
    }
    kept
}

/// The parts in order, with `sep` between each two neighbours.
pub fn join_text(parts: &[&str], sep: &str) -> (joined: String)
    ensures
        joined@ == join(texts(parts@), sep@),
{
    let mut joined = String::new();
    let mut i: usize = 0;
    while i < parts.len()
        invariant
            i <= parts.len(),
            joined@ == join(texts(parts@.take(i as int)), sep@),
        decreases parts.len() - i,
    {
        proof {
            let before = texts(parts@.take(i as int));
            let after = texts(parts@.take(i + 1));
            assert(after.drop_last() == before);
        }
        if i > 0 {
            joined.append(sep);
        }
        joined.append(parts[i]);
        i += 1;
    }
    proof {
        assert(parts@.take(parts@.len() as int) == parts@);
    }
    joined
}

/// Borrows each string of `v`.
pub fn as_strs<'a>(v: &'a Vec<String>) -> (refs: Vec<&'a str>)
    ensures
        texts(refs@) == texts(v@),
{
    let mut refs: Vec<&'a str> = Vec::new();
    let mut i: usize = 0;
    while i < v.len()
        invariant
            i <= v.len(),
            texts(refs@) == texts(v@.take(i as int)),
        decreases v.len() - i,
    {
        proof {
            assert(texts(v@.take(i + 1)) == texts(v@.take(i as int)).push(v@[i as int]@));
        }
        refs.push(v[i].as_str());
        i += 1;
    }
    refs
}

/// The character that stands for a digit below ten, and `9` for ten and more.
pub fn digit_char(d: usize) -> (c: char)
    ensures
        c == digit(d as nat),
{
    match d {
        0 => '0',
        1 => '1',
        2 => '2',
        3 => '3',
        4 => '4',
        5 => '5',
        6 => '6',
        7 => '7',
        8 => '8',
        _ => '9',
    }
}

/// Appends the decimal notation of `n` to `s`.
pub fn push_decimal(s: &mut String, n: usize)
    ensures
        final(s)@ == old(s)@ + decimal(n as nat),
    decreases n,
{
    if n >= 10 {
        push_decimal(s, n / 10);
    }
    s.push(digit_char(n % 10));
}

} // verus!
