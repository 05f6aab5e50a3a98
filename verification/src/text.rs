//! Cutting text at a character and putting it together again.

use vstd::prelude::*;

verus! {

/// How many characters of `s` come before the first `c`; all of them where there
/// is none.
pub open spec fn before_first(s: Seq<char>, c: char) -> nat
    decreases s.len(),
{
    if s.len() == 0 || s[0] == c {
        0
    } else {
        1 + before_first(s.drop_first(), c)
    }
}

/// The pieces of `s` between one `c` and the next. There is always one piece more
/// than there are `c`s.
pub open spec fn pieces(s: Seq<char>, c: char) -> Seq<Seq<char>>
    decreases s.len(),
{
    let n = before_first(s, c) as int;
    if n >= s.len() {
        seq![s]
    } else {
        seq![s.take(n)] + pieces(s.skip(n + 1), c)
    }
}

/// The parts one after the other, with `sep` between each and the next.
pub open spec fn joined(parts: Seq<Seq<char>>, sep: Seq<char>) -> Seq<char>
    decreases parts.len(),
{
    if parts.len() == 0 {
        Seq::empty()
    } else if parts.len() == 1 {
        parts[0]
    } else {
        joined(parts.drop_last(), sep) + sep + parts.last()
    }
}

/// No `c` comes before the first one, and the first one is one.
pub proof fn before_first_is_first(s: Seq<char>, c: char)
    ensures
        before_first(s, c) <= s.len(),
        before_first(s, c) < s.len() ==> s[before_first(s, c) as int] == c,
        forall|i: int| 0 <= i < before_first(s, c) ==> s[i] != c,
    decreases s.len(),
{
    if s.len() > 0 && s[0] != c {
        let rest = s.drop_first();
        before_first_is_first(rest, c);
        assert forall|i: int| 0 <= i < before_first(s, c) implies s[i] != c by {
            if i > 0 {
                assert(s[i] == rest[i - 1]);
            }
        }
    }
}

proof fn lemma_before_first_at(s: Seq<char>, c: char, n: int)
    requires
        0 <= n <= s.len(),
        forall|i: int| 0 <= i < n ==> s[i] != c,
        n < s.len() ==> s[n] == c,
    ensures
        before_first(s, c) == n,
{
    before_first_is_first(s, c);
}

/// How many characters of `s` come before the first `c`; all of them where there
/// is none.
pub fn find(s: &str, c: char) -> (n: usize)
    ensures
        n == before_first(s@, c),
{
    let len: usize = s.unicode_len();
    let mut n: usize = 0;
    for ch in it: s.chars()
        invariant
            n == it.index(),
            it.seq() == s@,
            len == s@.len(),
            forall|i: int| 0 <= i < n ==> s@[i] != c,
    {
        if ch == c {
            proof {
                lemma_before_first_at(s@, c, n as int);
            }
            return n;
        }
        n = n + 1;
    }
    proof {
        lemma_before_first_at(s@, c, n as int);
    }
    n
}

/// The views of the strings in a list.
pub open spec fn texts(v: Seq<String>) -> Seq<Seq<char>> {
    v.map_values(|s: String| s@)
}

/// The pieces of `s` between one `c` and the next.
pub fn split(s: &str, c: char) -> (parts: Vec<String>)
    ensures
        texts(parts@) == pieces(s@, c),
{
    let mut parts: Vec<String> = Vec::new();
    let mut rest: &str = s;
    let mut n: usize = find(rest, c);
    let mut len: usize = rest.unicode_len();
    assert(texts(parts@) + pieces(rest@, c) =~= pieces(s@, c));
    while n < len
        invariant
            n == before_first(rest@, c),
            len == rest@.len(),
            texts(parts@) + pieces(rest@, c) == pieces(s@, c),
        decreases len,
    {
        let ghost before = texts(parts@);
        let ghost left = rest@;
        parts.push(rest.substring_char(0, n).to_string());
        rest = rest.substring_char(n + 1, len);
        proof {
            assert(left.subrange(0, n as int) =~= left.take(n as int));
            assert(left.subrange(n + 1, len as int) =~= left.skip(n + 1));
            assert(texts(parts@) =~= before.push(left.take(n as int)));
            assert(texts(parts@) + pieces(rest@, c) =~= before + pieces(left, c));
        }
        n = find(rest, c);
        len = rest.unicode_len();
    }
    let ghost before = texts(parts@);
    proof {
        before_first_is_first(rest@, c);
    }
    parts.push(rest.to_string());
    assert(texts(parts@) =~= before + pieces(rest@, c));
    parts
}

/// The parts one after the other, with `sep` between each and the next.
pub fn join(parts: &Vec<String>, sep: &str) -> (s: String)
    ensures
        s@ == joined(texts(parts@), sep@),
{
    let mut s: String = String::new();
    let mut i: usize = 0;
    let ghost all = texts(parts@);
    while i < parts.len()
        invariant
            i <= parts@.len(),
            all == texts(parts@),
            s@ == joined(all.take(i as int), sep@),
        decreases parts@.len() - i,
    {
        proof {
            assert(all.take(i + 1).drop_last() =~= all.take(i as int));
            assert(all.take(i + 1).last() == parts@[i as int]@);
        }
        if i > 0 {
            s.append(sep);
        }
        s.append(parts[i].as_str());
        i = i + 1;
        assert(s@ =~= joined(all.take(i as int), sep@));
    }
    assert(all.take(all.len() as int) =~= all);
    s
}

/// `before`, then `middle`, then `after`.
pub fn enclose(before: &str, middle: &str, after: &str) -> (s: String)
    ensures
        s@ == before@ + middle@ + after@,
{
    before.to_string().concat(middle).concat(after)
}

/// The pieces of a text hold no separator.
pub proof fn pieces_hold_no_separator(s: Seq<char>, c: char)
    ensures
        forall|i: int, j: int|
            0 <= i < pieces(s, c).len() && 0 <= j < pieces(s, c)[i].len()
                ==> #[trigger] pieces(s, c)[i][j] != c,
    decreases s.len(),
{
    let n = before_first(s, c) as int;
    before_first_is_first(s, c);
    if n < s.len() {
        let rest = s.skip(n + 1);
        pieces_hold_no_separator(rest, c);
        assert forall|i: int, j: int|
            0 <= i < pieces(s, c).len() && 0 <= j < pieces(s, c)[i].len() implies #[trigger] pieces(
            s,
            c,
        )[i][j] != c by {
            if i > 0 {
                assert(pieces(s, c)[i] == pieces(rest, c)[i - 1]);
            }
        }
    }
}

/// What was cut at each `c` and is joined by `c` again is what it was.
pub proof fn joined_pieces(s: Seq<char>, c: char)
    ensures
        joined(pieces(s, c), seq![c]) == s,
    decreases s.len(),
{
    let n = before_first(s, c) as int;
    before_first_is_first(s, c);
    if n < s.len() {
        let rest = s.skip(n + 1);
        joined_pieces(rest, c);
        lemma_pieces_nonempty(rest, c);
        lemma_joined_first(s.take(n), pieces(rest, c), seq![c]);
        assert(s =~= s.take(n) + seq![c] + rest);
    }
}

proof fn lemma_pieces_nonempty(s: Seq<char>, c: char)
    ensures
        pieces(s, c).len() > 0,
{
}

proof fn lemma_joined_first(first: Seq<char>, parts: Seq<Seq<char>>, sep: Seq<char>)
    requires
        parts.len() > 0,
    ensures
        joined(seq![first] + parts, sep) == first + sep + joined(parts, sep),
    decreases parts.len(),
{
    let all = seq![first] + parts;
    assert(all.drop_last() =~= seq![first] + parts.drop_last());
    if parts.len() == 1 {
        assert(all.drop_last() =~= seq![first]);
        assert(joined(all.drop_last(), sep) =~= first);
    } else {
        lemma_joined_first(first, parts.drop_last(), sep);
    }
    assert(joined(all, sep) =~= first + sep + joined(parts, sep));
}

/// A text is cut at its first separator and then on; a text without one is a single
/// piece.
pub proof fn text_is_cut_at_its_first_separator(first: Seq<char>, rest: Seq<char>, c: char)
    requires
        !first.contains(c),
    ensures
        pieces(first, c) == seq![first],
        pieces(first + seq![c] + rest, c) == seq![first] + pieces(rest, c),
        before_first(first, c) == first.len(),
        before_first(first + seq![c] + rest, c) == first.len(),
{
    let s = first + seq![c] + rest;
    let n = first.len() as int;
    assert forall|i: int| 0 <= i < n implies first[i] != c by {
        assert(first.contains(first[i]));
    }
    lemma_before_first_at(first, c, n);
    assert forall|i: int| 0 <= i < n implies s[i] != c by {
        assert(s[i] == first[i]);
    }
    assert(s[n] == c);
    lemma_before_first_at(s, c, n);
    assert(s.take(n) =~= first);
    assert(s.skip(n + 1) =~= rest);
}

/// Nothing is put around a single part; each further part comes behind a separator.
pub proof fn parts_are_joined_one_by_one(parts: Seq<Seq<char>>, part: Seq<char>, sep: Seq<char>)
    ensures
        joined(Seq::empty(), sep) == Seq::<char>::empty(),
        joined(seq![part], sep) == part,
        parts.len() > 0 ==> joined(parts.push(part), sep) == joined(parts, sep) + sep + part,
{
    assert(parts.push(part).drop_last() =~= parts);
}

/// The texts of a list are those of its strings, each in its place.
pub proof fn texts_are_those_of_the_strings(v: Seq<String>)
    ensures
        texts(v).len() == v.len(),
        forall|i: int| 0 <= i < v.len() ==> #[trigger] texts(v)[i] == v[i]@,
{
}

} // verus!
