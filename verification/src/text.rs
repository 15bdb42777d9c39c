//! Strings as sequences of characters: conversions, comparison, splitting and
//! joining. Everything the library decides about ref names, paths and command
//! lines is stated over `Seq<char>`.

use vstd::prelude::*;

verus! {

/// `String::push` appends one character and changes nothing else.
pub assume_specification[ String::push ](s: &mut String, c: char)
    ensures
        final(s)@ == old(s)@.push(c),
;

/// The characters of `s`, in order.
pub fn to_chars(s: &str) -> (r: Vec<char>)
    ensures
        r@ == s@,
{
    let mut out: Vec<char> = Vec::new();
    for c in it: s.chars()
        invariant
            out@ == it.seq().take(it.index() as int),
            it.seq() == s@,
    {
        out.push(c);
    }
    out
}

/// The string made of the characters of `v`, in order.
pub fn from_chars(v: &Vec<char>) -> (r: String)
    ensures
        r@ == v@,
{
    let mut out = String::new();
    let mut i: usize = 0;
    while i < v.len()
        invariant
            i <= v.len(),
            out@ == v@.take(i as int),
        decreases v.len() - i,
    {
        out.push(v[i]);
        i += 1;
    }
    assert(v@.take(v.len() as int) == v@);
    out
}

/// The views of a vector of character vectors.
pub open spec fn views(parts: Seq<Vec<char>>) -> Seq<Seq<char>> {
    Seq::new(parts.len(), |i: int| parts[i]@)
}

/// The views of a vector of strings.
pub open spec fn string_views(parts: Seq<String>) -> Seq<Seq<char>> {
    Seq::new(parts.len(), |i: int| parts[i]@)
}

/// The pieces written one after another with `sep` between neighbours.
pub open spec fn join(parts: Seq<Seq<char>>, sep: Seq<char>) -> Seq<char>
    decreases parts.len(),
{
    if parts.len() == 0 {
        Seq::empty()
    } else if parts.len() == 1 {
        parts[0]
    } else {
        join(parts.drop_last(), sep) + sep + parts.last()
    }
}

/// No piece holds the separator.
pub open spec fn free_of(parts: Seq<Seq<char>>, sep: char) -> bool {
    forall|i: int| 0 <= i < parts.len() ==> !(#[trigger] parts[i]).contains(sep)
}

/// What splitting `s` at every `sep` gives: the one list of pieces, none of
/// which holds `sep`, that joins back to `s`.
pub open spec fn is_split(parts: Seq<Seq<char>>, s: Seq<char>, sep: char) -> bool {
    &&& parts.len() >= 1
    &&& free_of(parts, sep)
    &&& join(parts, seq![sep]) == s
}

/// Appending a character to the last piece appends it to the joined text.
pub proof fn lemma_join_grow_last(parts: Seq<Seq<char>>, last: Seq<char>, c: char, sep: Seq<char>)
    ensures
        join(parts.push(last.push(c)), sep) == join(parts.push(last), sep).push(c),
{
    let a = parts.push(last.push(c));
    let b = parts.push(last);
    assert(a.drop_last() == parts);
    assert(b.drop_last() == parts);
    if parts.len() > 0 {
        assert(join(parts, sep) + sep + last.push(c) == (join(parts, sep) + sep + last).push(c));
    }
}

/// Opening a new, empty piece appends the separator to the joined text.
pub proof fn lemma_join_new_piece(parts: Seq<Seq<char>>, sep: Seq<char>)
    requires
        parts.len() >= 1,
    ensures
        join(parts.push(Seq::empty()), sep) == join(parts, sep) + sep,
{
    let a = parts.push(Seq::<char>::empty());
    assert(a.drop_last() == parts);
    assert(join(parts, sep) + sep + Seq::<char>::empty() == join(parts, sep) + sep);
}

/// A text that holds no separator is its own single piece, and a text whose
/// pieces are known has its first separator at the end of the first piece.
pub proof fn lemma_join_first_sep(parts: Seq<Seq<char>>, sep: char)
    requires
        parts.len() >= 1,
        free_of(parts, sep),
    ensures
        join(parts, seq![sep]).len() >= parts[0].len(),
        join(parts, seq![sep]).take(parts[0].len() as int) == parts[0],
        parts.len() == 1 ==> join(parts, seq![sep]) == parts[0],
        parts.len() > 1 ==> join(parts, seq![sep]).len() > parts[0].len(),
        parts.len() > 1 ==> join(parts, seq![sep])[parts[0].len() as int] == sep,
        parts.len() > 1 ==> join(parts, seq![sep]).skip(parts[0].len() as int + 1) == join(
            parts.drop_first(),
            seq![sep],
        ),
    decreases parts.len(),
{
    let s = seq![sep];
    if parts.len() == 1 {
        assert(join(parts, s).take(parts[0].len() as int) == parts[0]);
    } else {
        let init = parts.drop_last();
        lemma_join_first_sep(init, sep);
        let j = join(init, s);
        let full = j + s + parts.last();
        assert(join(parts, s) == full);
        assert(init[0] == parts[0]);
        assert(full.take(parts[0].len() as int) == j.take(parts[0].len() as int));
        if init.len() == 1 {
            assert(j == parts[0]);
            assert(parts.drop_first() == seq![parts.last()]);
            assert(full.skip(parts[0].len() as int + 1) == parts.last());
        } else {
            assert(full[parts[0].len() as int] == j[parts[0].len() as int]);
            assert(parts.drop_first().drop_last() == init.drop_first());
            assert(parts.drop_first().last() == parts.last());
            assert(full.skip(parts[0].len() as int + 1) == j.skip(parts[0].len() as int + 1) + s + parts.last());
        }
    }
}

/// Two lists of separator-free pieces that join to the same text are the same
/// list: splitting has one answer.
pub proof fn lemma_split_unique(a: Seq<Seq<char>>, b: Seq<Seq<char>>, s: Seq<char>, sep: char)
    requires
        is_split(a, s, sep),
        is_split(b, s, sep),
    ensures
        a == b,
    decreases a.len(),
{
    lemma_join_first_sep(a, sep);
    lemma_join_first_sep(b, sep);
    let la = a[0].len() as int;
    let lb = b[0].len() as int;
    if la < lb {
        if a.len() > 1 {
            assert(s[la] == sep);
            assert(b[0][la] == s.take(lb)[la]);
            assert(b[0].contains(sep));
        }
        assert(false);
    }
    if lb < la {
        if b.len() > 1 {
            assert(s[lb] == sep);
            assert(a[0][lb] == s.take(la)[lb]);
            assert(a[0].contains(sep));
        }
        assert(false);
    }
    assert(a[0] == b[0]);
    if a.len() == 1 {
        assert(b.len() == 1);
        assert(a == b);
    } else {
        assert(b.len() > 1);
        let ra = a.drop_first();
        let rb = b.drop_first();
        assert(free_of(ra, sep)) by {
            assert forall|i: int| 0 <= i < ra.len() implies !(#[trigger] ra[i]).contains(sep) by {
                assert(ra[i] == a[i + 1]);
            }
        }
        assert(free_of(rb, sep)) by {
            assert forall|i: int| 0 <= i < rb.len() implies !(#[trigger] rb[i]).contains(sep) by {
                assert(rb[i] == b[i + 1]);
            }
        }
        lemma_split_unique(ra, rb, s.skip(la + 1), sep);
        assert(a == seq![a[0]] + ra);
        assert(b == seq![b[0]] + rb);
    }
}

/// The pieces of `s` between its separators, read off character by
/// character: a separator opens a new piece, any other character grows the
/// last one.
pub open spec fn pieces(s: Seq<char>, sep: char) -> Seq<Seq<char>>
    decreases s.len(),
{
    if s.len() == 0 {
        seq![Seq::<char>::empty()]
    } else {
        let before = pieces(s.drop_last(), sep);
        if s.last() == sep {
            before.push(Seq::<char>::empty())
        } else {
            before.drop_last().push(before.last().push(s.last()))
        }
    }
}

/// `pieces` is the split of the text.
pub proof fn lemma_pieces_is_split(s: Seq<char>, sep: char)
    ensures
        is_split(pieces(s, sep), s, sep),
    decreases s.len(),
{
    if s.len() == 0 {
        assert(join(seq![Seq::<char>::empty()], seq![sep]) == s);
    } else {
        let init = s.drop_last();
        lemma_pieces_is_split(init, sep);
        let before = pieces(init, sep);
        assert(s == init.push(s.last()));
        if s.last() == sep {
            lemma_join_new_piece(before, seq![sep]);
            assert(init + seq![sep] == s);
        } else {
            let c = s.last();
            let head = before.drop_last();
            let tail = before.last();
            assert(before == head.push(tail));
            lemma_join_grow_last(head, tail, c, seq![sep]);
            let after = head.push(tail.push(c));
            assert forall|i: int| 0 <= i < after.len() implies !(#[trigger] after[i]).contains(
                sep,
            ) by {
                if i < head.len() {
                    assert(after[i] == before[i]);
                } else {
                    assert forall|k: int| 0 <= k < tail.push(c).len() implies tail.push(c)[k]
                        != sep by {
                        if k < tail.len() {
                            assert(tail.contains(tail[k]));
                        }
                    }
                }
            }
        }
    }
}

/// Splits `s` at every `sep`. An empty text gives one empty piece; a
/// separator at the start or the end gives an empty piece there.
pub fn split(s: &Vec<char>, sep: char) -> (parts: Vec<Vec<char>>)
    ensures
        is_split(views(parts@), s@, sep),
        views(parts@) == pieces(s@, sep),
{
    let mut parts: Vec<Vec<char>> = Vec::new();
    let mut cur: Vec<char> = Vec::new();
    let mut i: usize = 0;
    while i < s.len()
        invariant
            i <= s.len(),
            free_of(views(parts@), sep),
            !cur@.contains(sep),
            join(views(parts@).push(cur@), seq![sep]) == s@.take(i as int),
        decreases s.len() - i,
    {
        let c = s[i];
        proof {
            assert(s@.take(i + 1) == s@.take(i as int).push(c));
        }
        if c == sep {
            proof {
                lemma_join_new_piece(views(parts@).push(cur@), seq![sep]);
                assert(views(parts@.push(cur)) == views(parts@).push(cur@));
                assert(s@.take(i as int) + seq![sep] == s@.take(i as int).push(c));
            }
            parts.push(cur);
            cur = Vec::new();
        } else {
            proof {
                lemma_join_grow_last(views(parts@), cur@, c, seq![sep]);
                assert forall|k: int| 0 <= k < cur@.push(c).len() implies cur@.push(c)[k] != sep by {
                    if k < cur@.len() {
                        assert(cur@.contains(cur@[k]));
                    }
                }
            }
            cur.push(c);
        }
        i += 1;
    }
    proof {
        assert(s@.take(s.len() as int) == s@);
        assert(views(parts@.push(cur)) == views(parts@).push(cur@));
        lemma_pieces_is_split(s@, sep);
        lemma_split_unique(views(parts@.push(cur)), pieces(s@, sep), s@, sep);
    }
    parts.push(cur);
    parts
}

/// Writes the pieces one after another with `sep` between neighbours.
pub fn join_chars(parts: &Vec<Vec<char>>, sep: char) -> (r: Vec<char>)
    ensures
        r@ == join(views(parts@), seq![sep]),
{
    let mut out: Vec<char> = Vec::new();
    let mut i: usize = 0;
    while i < parts.len()
        invariant
            i <= parts.len(),
            out@ == join(views(parts@).take(i as int), seq![sep]),
        decreases parts.len() - i,
    {
        proof {
            let upto = views(parts@).take(i + 1);
            assert(upto.drop_last() == views(parts@).take(i as int));
            assert(upto.last() == parts@[i as int]@);
        }
        if i > 0 {
            out.push(sep);
            assert(out@ == join(views(parts@).take(i as int), seq![sep]) + seq![sep]);
        }
        let piece = &parts[i];
        let ghost start = out@;
        let mut k: usize = 0;
        while k < piece.len()
            invariant
                k <= piece.len(),
                out@ == start + piece@.take(k as int),
            decreases piece.len() - k,
        {
            out.push(piece[k]);
            k += 1;
        }
        assert(piece@.take(piece.len() as int) == piece@);
        i += 1;
    }
    assert(views(parts@).take(parts.len() as int) == views(parts@));
    out
}

/// The pieces that are not empty, in their order.
pub open spec fn nonempty(parts: Seq<Seq<char>>) -> Seq<Seq<char>>
    decreases parts.len(),
{
    if parts.len() == 0 {
        Seq::empty()
    } else if parts.last().len() > 0 {
        nonempty(parts.drop_last()).push(parts.last())
    } else {
        nonempty(parts.drop_last())
    }
}

/// Drops the empty pieces.
pub fn drop_empty(parts: Vec<Vec<char>>) -> (r: Vec<Vec<char>>)
    ensures
        views(r@) == nonempty(views(parts@)),
{
    let mut out: Vec<Vec<char>> = Vec::new();
    let mut i: usize = 0;
    while i < parts.len()
        invariant
            i <= parts.len(),
            views(out@) == nonempty(views(parts@).take(i as int)),
        decreases parts.len() - i,
    {
        proof {
            let upto = views(parts@).take(i + 1);
            assert(upto.drop_last() == views(parts@).take(i as int));
            assert(upto.last() == parts@[i as int]@);
        }
        if parts[i].len() > 0 {
            let piece = parts[i].clone();
            assert(piece@ == parts@[i as int]@);
            proof {
                assert(views(out@.push(piece)) == views(out@).push(piece@));
            }
            out.push(piece);
        }
        i += 1;
    }
    assert(views(parts@).take(parts.len() as int) == views(parts@));
    out
}

/// Whether `s` begins with `prefix`.
pub fn starts_with(s: &Vec<char>, prefix: &Vec<char>) -> (r: bool)
    ensures
        r == prefix@.is_prefix_of(s@),
{
    if prefix.len() > s.len() {
        return false;
    }
    let mut i: usize = 0;
    while i < prefix.len()
        invariant
            i <= prefix.len() <= s.len(),
            forall|k: int| 0 <= k < i ==> s@[k] == prefix@[k],
        decreases prefix.len() - i,
    {
        if s[i] != prefix[i] {
            return false;
        }
        i += 1;
    }
    assert(prefix@ == s@.subrange(0, prefix@.len() as int));
    true
}

/// Whether the two texts are the same.
pub fn same_chars(a: &Vec<char>, b: &Vec<char>) -> (r: bool)
    ensures
        r == (a@ == b@),
{
    if a.len() != b.len() {
        return false;
    }
    let mut i: usize = 0;
    while i < a.len()
        invariant
            i <= a.len(),
            a.len() == b.len(),
            forall|k: int| 0 <= k < i ==> a@[k] == b@[k],
        decreases a.len() - i,
    {
        if a[i] != b[i] {
            return false;
        }
        i += 1;
    }
    assert(a@ =~= b@);
    true
}

/// Whether the two strings hold the same characters.
pub fn same_str(a: &str, b: &str) -> (r: bool)
    ensures
        r == (a@ == b@),
{
    same_chars(&to_chars(a), &to_chars(b))
}

/// `s` with every `from` replaced by `to`.
pub open spec fn replaced(s: Seq<char>, from: char, to: char) -> Seq<char> {
    Seq::new(s.len(), |i: int| if s[i] == from { to } else { s[i] })
}

/// Replaces every `from` in `s` by `to`.
pub fn replace_char(s: &Vec<char>, from: char, to: char) -> (r: Vec<char>)
    ensures
        r@ == replaced(s@, from, to),
{
    let mut out: Vec<char> = Vec::new();
    let mut i: usize = 0;
    while i < s.len()
        invariant
            i <= s.len(),
            out@ == replaced(s@, from, to).take(i as int),
        decreases s.len() - i,
    {
        let c = s[i];
        out.push(if c == from { to } else { c });
        i += 1;
    }
    assert(replaced(s@, from, to).take(s.len() as int) == replaced(s@, from, to));
    out
}

/// A copy of the list of strings.
pub fn clone_strings(list: &Vec<String>) -> (r: Vec<String>)
    ensures
        string_views(r@) == string_views(list@),
{
    let mut out: Vec<String> = Vec::new();
    let mut i: usize = 0;
    while i < list.len()
        invariant
            i <= list.len(),
            string_views(out@) == string_views(list@).take(i as int),
        decreases list.len() - i,
    {
        let item = list[i].clone();
        proof {
            assert(string_views(out@.push(item)) == string_views(out@).push(item@));
        }
        out.push(item);
        i += 1;
    }
    proof {
        assert(string_views(list@).take(list.len() as int) == string_views(list@));
    }
    out
}

/// Whether the character is white space: a blank, a tab, a line feed, a
/// carriage return, a vertical tab or a form feed.
pub open spec fn is_space(c: char) -> bool {
    c == ' ' || c == '\t' || c == '\n' || c == '\r' || c == '\x0b' || c == '\x0c'
}

/// The text without the white space at its end.
pub open spec fn trimmed_end(s: Seq<char>) -> Seq<char>
    decreases s.len(),
{
    if s.len() > 0 && is_space(s.last()) {
        trimmed_end(s.drop_last())
    } else {
        s
    }
}

/// The text without the white space at its start.
pub open spec fn trimmed_start(s: Seq<char>) -> Seq<char>
    decreases s.len(),
{
    if s.len() > 0 && is_space(s[0]) {
        trimmed_start(s.drop_first())
    } else {
        s
    }
}

/// The text without the white space at its start and at its end.
pub open spec fn trimmed(s: Seq<char>) -> Seq<char> {
    trimmed_start(trimmed_end(s))
}

/// Whether the character is white space.
pub fn space(c: char) -> (r: bool)
    ensures
        r == is_space(c),
{
    c == ' ' || c == '\t' || c == '\n' || c == '\r' || c == '\x0b' || c == '\x0c'
}

/// Cuts the white space off both ends of the text.
pub fn trim(s: &Vec<char>) -> (r: Vec<char>)
    ensures
        r@ == trimmed(s@),
{
    let mut end: usize = s.len();
    assert(s@.take(end as int) == s@);
    while end > 0 && space(s[end - 1])
        invariant
            end <= s.len(),
            trimmed_end(s@) == trimmed_end(s@.take(end as int)),
        decreases end,
    {
        proof {
            assert(s@.take(end as int).drop_last() == s@.take(end - 1));
        }
        end -= 1;
    }
    proof {
        if end > 0 {
            assert(s@.take(end as int).last() == s@[end - 1]);
        }
        assert(s@.take(end as int) == s@.subrange(0, end as int));
    }
    let mut start: usize = 0;
    while start < end && space(s[start])
        invariant
            start <= end <= s.len(),
            trimmed_end(s@) == s@.take(end as int),
            trimmed(s@) == trimmed_start(s@.subrange(start as int, end as int)),
        decreases end - start,
    {
        proof {
            assert(s@.subrange(start as int, end as int).drop_first() == s@.subrange(
                start + 1,
                end as int,
            ));
        }
        start += 1;
    }
    proof {
        if start < end {
            assert(s@.subrange(start as int, end as int)[0] == s@[start as int]);
        }
    }
    let mut out: Vec<char> = Vec::new();
    let mut i: usize = start;
    while i < end
        invariant
            start <= i <= end <= s.len(),
            out@ == s@.subrange(start as int, i as int),
        decreases end - i,
    {
        out.push(s[i]);
        i += 1;
    }
    out
}

/// The lines of a text: its pieces between line feeds, without the piece
/// behind the last line feed where that piece is empty.
pub open spec fn lines_of(s: Seq<char>) -> Seq<Seq<char>> {
    let parts = pieces(s, '\n');
    if parts.last().len() == 0 {
        parts.drop_last()
    } else {
        parts
    }
}

/// Splits a text into its lines.
pub fn lines(s: &Vec<char>) -> (r: Vec<Vec<char>>)
    ensures
        views(r@) == lines_of(s@),
{
    let mut parts = split(s, '\n');
    let n = parts.len();
    if parts[n - 1].len() == 0 {
        let ghost before = views(parts@);
        parts.pop();
        assert(views(parts@) == before.drop_last());
    }
    parts
}

/// The strings of the pieces.
pub fn to_strings(parts: &Vec<Vec<char>>) -> (r: Vec<String>)
    ensures
        string_views(r@) == views(parts@),
{
    let mut out: Vec<String> = Vec::new();
    let mut i: usize = 0;
    while i < parts.len()
        invariant
            i <= parts.len(),
            string_views(out@) == views(parts@).take(i as int),
        decreases parts.len() - i,
    {
        let item = from_chars(&parts[i]);
        proof {
            assert(string_views(out@.push(item)) == string_views(out@).push(item@));
        }
        out.push(item);
        i += 1;
    }
    proof {
        assert(views(parts@).take(parts.len() as int) == views(parts@));
    }
    out
}

/// The strings written one after another with `sep` between neighbours.
pub fn join_strings(parts: &Vec<String>, sep: char) -> (r: String)
    ensures
        r@ == join(string_views(parts@), seq![sep]),
{
    let mut out = String::new();
    let mut i: usize = 0;
    while i < parts.len()
        invariant
            i <= parts.len(),
            out@ == join(string_views(parts@).take(i as int), seq![sep]),
        decreases parts.len() - i,
    {
        proof {
            let upto = string_views(parts@).take(i + 1);
            assert(upto.drop_last() == string_views(parts@).take(i as int));
            assert(upto.last() == parts@[i as int]@);
        }
        if i > 0 {
            out.push(sep);
            assert(out@ == join(string_views(parts@).take(i as int), seq![sep]) + seq![sep]);
        }
        out.append(parts[i].as_str());
        i += 1;
    }
    assert(string_views(parts@).take(parts.len() as int) == string_views(parts@));
    out
}

/// The place of the first `c` in the text; the length of the text where it
/// holds none.
pub open spec fn first_index(s: Seq<char>, c: char) -> int
    decreases s.len(),
{
    if s.len() == 0 {
        0
    } else if s[0] == c {
        0
    } else {
        1 + first_index(s.drop_first(), c)
    }
}

/// Finds the first `c` in the text.
pub fn find_char(s: &Vec<char>, c: char) -> (r: usize)
    ensures
        r == first_index(s@, c),
        r <= s.len(),
        r < s.len() ==> s@[r as int] == c,
        r == s.len() ==> !s@.contains(c),
        forall|k: int| 0 <= k < r ==> s@[k] != c,
{
    let mut i: usize = 0;
    assert(s@.skip(0) == s@);
    while i < s.len() && s[i] != c
        invariant
            i <= s.len(),
            first_index(s@, c) == i + first_index(s@.skip(i as int), c),
            forall|k: int| 0 <= k < i ==> s@[k] != c,
        decreases s.len() - i,
    {
        proof {
            assert(s@.skip(i as int).drop_first() == s@.skip(i + 1));
        }
        i += 1;
    }
    proof {
        if i < s.len() {
            assert(s@.skip(i as int)[0] == c);
        } else {
            assert(s@.skip(i as int).len() == 0);
        }
    }
    i
}

/// The part of the text from `from` up to `to`.
pub fn slice_chars(s: &Vec<char>, from: usize, to: usize) -> (r: Vec<char>)
    requires
        from <= to <= s.len(),
    ensures
        r@ == s@.subrange(from as int, to as int),
{
    let mut out: Vec<char> = Vec::new();
    let mut i: usize = from;
    while i < to
        invariant
            from <= i <= to <= s.len(),
            out@ == s@.subrange(from as int, i as int),
        decreases to - i,
    {
        out.push(s[i]);
        i += 1;
    }
    out
}

/// Whether the character is a decimal digit.
pub open spec fn is_digit(c: char) -> bool {
    '0' <= c && c <= '9'
}

/// Every character of the text is a decimal digit.
pub open spec fn all_digits(s: Seq<char>) -> bool {
    forall|i: int| 0 <= i < s.len() ==> is_digit(#[trigger] s[i])
}

/// The value of a decimal digit.
pub open spec fn digit_value(c: char) -> nat {
    (c as u32 - '0' as u32) as nat
}

/// The number that the digits write in decimal.
pub open spec fn decimal_value(digits: Seq<char>) -> nat
    decreases digits.len(),
{
    if digits.len() == 0 {
        0
    } else {
        decimal_value(digits.drop_last()) * 10 + digit_value(digits.last())
    }
}

/// The number that a text stands for: one or more decimal digits, which may
/// follow a plus sign, that write a number below two to the thirty-second.
pub open spec fn parsed_u32(s: Seq<char>) -> Option<u32> {
    let digits = if s.len() > 0 && s[0] == '+' {
        s.skip(1)
    } else {
        s
    };
    if digits.len() > 0 && all_digits(digits) && decimal_value(digits) <= u32::MAX {
        Some(decimal_value(digits) as u32)
    } else {
        None
    }
}

/// More digits never write a smaller number.
pub proof fn lemma_decimal_grows(digits: Seq<char>, upto: int)
    requires
        0 <= upto <= digits.len(),
    ensures
        decimal_value(digits.take(upto)) <= decimal_value(digits),
    decreases digits.len() - upto,
{
    if upto < digits.len() {
        assert(digits.take(upto + 1).drop_last() == digits.take(upto));
        lemma_decimal_grows(digits, upto + 1);
    } else {
        assert(digits.take(upto) == digits);
    }
}

/// Reads a number in decimal.
pub fn parse_u32(s: &Vec<char>) -> (r: Option<u32>)
    ensures
        r == parsed_u32(s@),
{
    let start: usize = if s.len() > 0 && s[0] == '+' {
        1
    } else {
        0
    };
    let ghost digits = s@.skip(start as int);
    if start == s.len() {
        return None;
    }
    let mut value: u64 = 0;
    let mut i: usize = start;
    proof {
        assert(start == 0 ==> digits == s@);
        assert(digits.take(0).len() == 0);
    }
    while i < s.len()
        invariant
            start <= i <= s.len(),
            start == (if s@.len() > 0 && s@[0] == '+' {
                1int
            } else {
                0int
            }),
            digits == s@.skip(start as int),
            start == 0 ==> digits == s@,
            all_digits(digits.take(i - start)),
            value == decimal_value(digits.take(i - start)),
            value <= u32::MAX,
        decreases s.len() - i,
    {
        let c = s[i];
        proof {
            assert(digits[i - start] == c);
            assert(digits.take(i - start + 1).drop_last() == digits.take(i - start));
            assert(digits.take(i - start + 1).last() == c);
        }
        if !(c >= '0' && c <= '9') {
            assert(!all_digits(digits)) by {
                assert(!is_digit(digits[i - start]));
            }
            return None;
        }
        let d: u64 = (c as u32 - '0' as u32) as u64;
        let next: u64 = value * 10 + d;
        if next > u32::MAX as u64 {
            proof {
                lemma_decimal_grows(digits, i - start + 1);
            }
            return None;
        }
        proof {
            assert forall|k: int| 0 <= k < digits.take(i - start + 1).len() implies is_digit(
                #[trigger] digits.take(i - start + 1)[k],
            ) by {
                if k < i - start {
                    assert(digits.take(i - start)[k] == digits.take(i - start + 1)[k]);
                }
            }
        }
        value = next;
        i += 1;
    }
    proof {
        assert(digits.take(s.len() - start) == digits);
    }
    Some(value as u32)
}

/// The decimal digit of a value below ten.
pub open spec fn digit_char(d: nat) -> char {
    seq!['0', '1', '2', '3', '4', '5', '6', '7', '8', '9'][d as int]
}

/// The number written in decimal, without zeros before it.
pub open spec fn decimal_text(n: nat) -> Seq<char>
    decreases n,
{
    if n < 10 {
        seq![digit_char(n)]
    } else {
        decimal_text(n / 10).push(digit_char(n % 10))
    }
}

/// One decimal digit.
fn digit_of(d: usize) -> (c: char)
    requires
        d < 10,
    ensures
        c == digit_char(d as nat),
{
    if d == 0 {
        '0'
    } else if d == 1 {
        '1'
    } else if d == 2 {
        '2'
    } else if d == 3 {
        '3'
    } else if d == 4 {
        '4'
    } else if d == 5 {
        '5'
    } else if d == 6 {
        '6'
    } else if d == 7 {
        '7'
    } else if d == 8 {
        '8'
    } else {
        '9'
    }
}

/// Writes a number in decimal.
pub fn decimal(n: usize) -> (r: String)
    ensures
        r@ == decimal_text(n as nat),
    decreases n,
{
    if n < 10 {
        let mut out = String::new();
        out.push(digit_of(n));
        out
    } else {
        let mut out = decimal(n / 10);
        out.push(digit_of(n % 10));
        out
    }
}

} // verus!
