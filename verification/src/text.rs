//! Text primitives shared by the protocol parsers.
//!
//! Every parser of this library works on the characters of a string, held in a
//! `Vec<char>`, and is specified over `Seq<char>`. This module holds the
//! conversions between `String` and `Vec<char>`, and the searching, splitting
//! and trimming operations, each with the spec function that defines it.

use vstd::prelude::*;

verus! {

/// `String::push` appends one character.
pub assume_specification[ String::push ](s: &mut String, c: char)
    ensures
        final(s)@ == old(s)@.push(c),
;

/// The characters of `s`, in order.
pub fn chars_of(s: &str) -> (v: Vec<char>)
    ensures
        v@ == s@,
{
    broadcast use vstd::string::axiom_spec_iter;

    let mut v: Vec<char> = Vec::new();
    for c in it: s.chars()
        invariant
            it.seq() == s@,
            v@ == s@.take(it.index()),
    {
        v.push(c);
    }
    v
}

/// The string whose characters are those of `v`.
pub fn string_of(v: &Vec<char>) -> (s: String)
    ensures
        s@ == v@,
{
    let mut s = String::new();
    let mut i: usize = 0;
    while i < v.len()
        invariant
            i <= v.len(),
            s@ == v@.take(i as int),
        decreases v.len() - i,
    {
        s.push(v[i]);
        i += 1;
    }
    s
}

/// Appends the characters of `tail` to `out`.
pub fn append_chars(out: &mut Vec<char>, tail: &Vec<char>)
    ensures
        final(out)@ == old(out)@ + tail@,
{
    let mut i: usize = 0;
    while i < tail.len()
        invariant
            i <= tail.len(),
            out@ == old(out)@ + tail@.take(i as int),
        decreases tail.len() - i,
    {
        out.push(tail[i]);
        i += 1;
    }
}

/// Appends the characters of the string `tail` to `out`.
pub fn append_str(out: &mut Vec<char>, tail: &str)
    ensures
        final(out)@ == old(out)@ + tail@,
{
    let t = chars_of(tail);
    append_chars(out, &t);
}

/// A copy of `v[from..to]`.
pub fn slice_of(v: &Vec<char>, from: usize, to: usize) -> (out: Vec<char>)
    requires
        from <= to <= v.len(),
    ensures
        out@ == v@.subrange(from as int, to as int),
{
    let mut out: Vec<char> = Vec::new();
    let mut i: usize = from;
    while i < to
        invariant
            from <= i <= to <= v.len(),
            out@ == v@.subrange(from as int, i as int),
        decreases to - i,
    {
        out.push(v[i]);
        i += 1;
    }
    out
}

/// Whether `v` holds exactly the characters of `lit`.
pub fn is_text(v: &Vec<char>, lit: &str) -> (b: bool)
    ensures
        b == (v@ == lit@),
{
    let l = chars_of(lit);
    if l.len() != v.len() {
        return false;
    }
    let mut i: usize = 0;
    while i < v.len()
        invariant
            i <= v.len(),
            l.len() == v.len(),
            l@ == lit@,
            v@.take(i as int) == l@.take(i as int),
        decreases v.len() - i,
    {
        if v[i] != l[i] {
            assert(v@[i as int] != l@[i as int]);
            return false;
        }
        assert(v@.take(i + 1) == v@.take(i as int).push(v@[i as int]));
        assert(l@.take(i + 1) == l@.take(i as int).push(l@[i as int]));
        i += 1;
    }
    assert(v@ == v@.take(v.len() as int));
    assert(l@ == l@.take(l.len() as int));
    true
}

/// Whether `c` occurs in `v`.
pub fn has_char(v: &Vec<char>, c: char) -> (b: bool)
    ensures
        b == v@.contains(c),
{
    let mut i: usize = 0;
    while i < v.len()
        invariant
            i <= v.len(),
            forall|j: int| 0 <= j < i ==> v@[j] != c,
        decreases v.len() - i,
    {
        if v[i] == c {
            return true;
        }
        i += 1;
    }
    false
}

/// The position of the first occurrence of `sep` in `s`, or `s.len()` where
/// there is none. An empty `sep` occurs at 0.
pub open spec fn find(s: Seq<char>, sep: Seq<char>) -> int
    decreases s.len(),
{
    if s.len() < sep.len() || s.len() == 0 {
        s.len() as int
    } else if s.take(sep.len() as int) == sep {
        0
    } else {
        1 + find(s.drop_first(), sep)
    }
}

/// `find` stays inside the text, and a position short of the end leaves room
/// for the whole separator.
pub proof fn lemma_find_bounds(s: Seq<char>, sep: Seq<char>)
    ensures
        0 <= find(s, sep) <= s.len(),
        find(s, sep) < s.len() ==> find(s, sep) + sep.len() <= s.len(),
        find(s, sep) + sep.len() <= s.len() ==> s.subrange(
            find(s, sep),
            find(s, sep) + sep.len(),
        ) == sep,
    decreases s.len(),
{
    if s.len() < sep.len() || s.len() == 0 {
    } else if s.take(sep.len() as int) == sep {
    } else {
        lemma_find_bounds(s.drop_first(), sep);
        let i = find(s.drop_first(), sep);
        if i + sep.len() <= s.drop_first().len() {
            assert(s.subrange(1 + i, 1 + i + sep.len()) == s.drop_first().subrange(
                i,
                i + sep.len(),
            ));
        }
    }
}

/// Whether `sep` stands in `v` at position `at`.
fn stands_at(v: &Vec<char>, at: usize, sep: &Vec<char>) -> (b: bool)
    requires
        at <= v.len(),
    ensures
        b == (at + sep.len() <= v.len() && v@.subrange(at as int, at + sep.len()) == sep@),
{
    if sep.len() > v.len() - at {
        return false;
    }
    let mut k: usize = 0;
    while k < sep.len()
        invariant
            at + sep.len() <= v.len(),
            k <= sep.len(),
            v@.subrange(at as int, at + k) == sep@.take(k as int),
        decreases sep.len() - k,
    {
        if v[at + k] != sep[k] {
            assert(v@.subrange(at as int, at + sep.len())[k as int] != sep@[k as int]);
            return false;
        }
        assert(v@.subrange(at as int, at + k + 1) == v@.subrange(at as int, at + k).push(
            v@[at + k],
        ));
        assert(sep@.take(k + 1) == sep@.take(k as int).push(sep@[k as int]));
        k += 1;
    }
    assert(sep@ == sep@.take(sep.len() as int));
    true
}

/// The position of the first occurrence of `sep` in `v` at or after `from`,
/// or `v.len()` where there is none.
pub fn find_from(v: &Vec<char>, sep: &Vec<char>, from: usize) -> (at: usize)
    requires
        from <= v.len(),
    ensures
        at == from + find(v@.skip(from as int), sep@),
        from <= at <= v.len(),
{
    let mut i: usize = from;
    loop
        invariant
            from <= i <= v.len(),
            find(v@.skip(from as int), sep@) == (i - from) + find(v@.skip(i as int), sep@),
        decreases v.len() - i,
    {
        let ghost rest = v@.skip(i as int);
        proof {
            lemma_find_bounds(rest, sep@);
        }
        if v.len() - i < sep.len() {
            return v.len();
        }
        assert(rest.take(sep.len() as int) == v@.subrange(i as int, i + sep.len()));
        if stands_at(v, i, sep) {
            return i;
        }
        assert(rest.drop_first() == v@.skip(i + 1));
        i += 1;
    }
}

/// The pieces of `s` between the occurrences of `sep`, found from the left and
/// not overlapping. A text without `sep`, or an empty `sep`, gives one piece.
pub open spec fn split(s: Seq<char>, sep: Seq<char>) -> Seq<Seq<char>>
    decreases s.len(),
{
    let i = find(s, sep);
    if sep.len() == 0 || i < 0 || i + sep.len() > s.len() {
        seq![s]
    } else {
        seq![s.take(i)] + split(s.skip(i + sep.len()), sep)
    }
}

/// The view of each text of `parts`.
pub open spec fn views(parts: Seq<Vec<char>>) -> Seq<Seq<char>> {
    parts.map_values(|p: Vec<char>| p@)
}

/// Splits `v` at each occurrence of `sep`.
pub fn split_text(v: &Vec<char>, sep: &Vec<char>) -> (parts: Vec<Vec<char>>)
    ensures
        views(parts@) == split(v@, sep@),
        parts.len() >= 1,
{
    let mut parts: Vec<Vec<char>> = Vec::new();
    let mut pos: usize = 0;
    assert(views(parts@) == Seq::<Seq<char>>::empty());
    assert(v@.skip(0) == v@);
    loop
        invariant
            pos <= v.len(),
            split(v@, sep@) == views(parts@) + split(v@.skip(pos as int), sep@),
        decreases v.len() - pos,
    {
        let ghost rest = v@.skip(pos as int);
        let at = find_from(v, sep, pos);
        if sep.len() == 0 || sep.len() > v.len() - at {
            let last = slice_of(v, pos, v.len());
            assert(last@ == rest);
            assert(views(parts@.push(last)) == views(parts@).push(last@));
            parts.push(last);
            assert(split(rest, sep@) == seq![rest]);
            return parts;
        }
        let piece = slice_of(v, pos, at);
        assert(piece@ == rest.take(at - pos));
        assert(rest.skip(at - pos + sep.len()) == v@.skip(at + sep.len()));
        assert(views(parts@.push(piece)) == views(parts@).push(piece@));
        parts.push(piece);
        pos = at + sep.len();
    }
}

/// Splits `v` at each occurrence of the character `c`.
pub fn split_char(v: &Vec<char>, c: char) -> (parts: Vec<Vec<char>>)
    ensures
        views(parts@) == split(v@, seq![c]),
        parts.len() >= 1,
{
    let mut sep: Vec<char> = Vec::new();
    sep.push(c);
    assert(sep@ == seq![c]);
    split_text(v, &sep)
}

/// The characters that Unicode gives the property White_Space.
pub open spec fn is_space(c: char) -> bool {
    let u = c as u32;
    ||| 0x09 <= u <= 0x0D
    ||| u == 0x20
    ||| u == 0x85
    ||| u == 0xA0
    ||| u == 0x1680
    ||| 0x2000 <= u <= 0x200A
    ||| u == 0x2028
    ||| u == 0x2029
    ||| u == 0x202F
    ||| u == 0x205F
    ||| u == 0x3000
}

/// Whether `c` is a white-space character.
pub fn is_white(c: char) -> (b: bool)
    ensures
        b == is_space(c),
{
    let u: u32 = c as u32;
    (0x09 <= u && u <= 0x0D) || u == 0x20 || u == 0x85 || u == 0xA0 || u == 0x1680 || (0x2000
        <= u && u <= 0x200A) || u == 0x2028 || u == 0x2029 || u == 0x202F || u == 0x205F || u
        == 0x3000
}

/// How many white-space characters `s` starts with.
pub open spec fn leading_space(s: Seq<char>) -> int
    decreases s.len(),
{
    if s.len() > 0 && is_space(s[0]) {
        1 + leading_space(s.drop_first())
    } else {
        0
    }
}

/// How many characters other than white space `s` starts with.
pub open spec fn leading_word(s: Seq<char>) -> int
    decreases s.len(),
{
    if s.len() > 0 && !is_space(s[0]) {
        1 + leading_word(s.drop_first())
    } else {
        0
    }
}

/// How many white-space characters `s` ends with.
pub open spec fn trailing_space(s: Seq<char>) -> int
    decreases s.len(),
{
    if s.len() > 0 && is_space(s.last()) {
        1 + trailing_space(s.drop_last())
    } else {
        0
    }
}

/// `s` without the white space at its start and at its end.
pub open spec fn trim(s: Seq<char>) -> Seq<char> {
    let rest = s.skip(leading_space(s));
    rest.take(rest.len() - trailing_space(rest))
}

/// The position of the first character at or after `from` that is no white
/// space, or `v.len()`.
pub fn skip_space(v: &Vec<char>, from: usize) -> (at: usize)
    requires
        from <= v.len(),
    ensures
        from <= at <= v.len(),
        at == from + leading_space(v@.skip(from as int)),
{
    let mut i: usize = from;
    while i < v.len() && is_white(v[i])
        invariant
            from <= i <= v.len(),
            leading_space(v@.skip(from as int)) == (i - from) + leading_space(v@.skip(i as int)),
        decreases v.len() - i,
    {
        assert(v@.skip(i as int).drop_first() == v@.skip(i + 1));
        i += 1;
    }
    i
}

/// The position of the first white-space character at or after `from`, or
/// `v.len()`.
pub fn skip_word(v: &Vec<char>, from: usize) -> (at: usize)
    requires
        from <= v.len(),
    ensures
        from <= at <= v.len(),
        at == from + leading_word(v@.skip(from as int)),
{
    let mut i: usize = from;
    while i < v.len() && !is_white(v[i])
        invariant
            from <= i <= v.len(),
            leading_word(v@.skip(from as int)) == (i - from) + leading_word(v@.skip(i as int)),
        decreases v.len() - i,
    {
        assert(v@.skip(i as int).drop_first() == v@.skip(i + 1));
        i += 1;
    }
    i
}

/// A copy of `v` without the white space at its start and at its end.
pub fn trim_text(v: &Vec<char>) -> (out: Vec<char>)
    ensures
        out@ == trim(v@),
{
    let start = skip_space(v, 0);
    assert(v@.skip(0) == v@);
    let ghost rest = v@.skip(start as int);
    let mut end: usize = v.len();
    while end > start && is_white(v[end - 1])
        invariant
            start <= end <= v.len(),
            rest == v@.skip(start as int),
            trailing_space(rest) == (v.len() - end) + trailing_space(
                v@.subrange(start as int, end as int),
            ),
        decreases end - start,
    {
        assert(v@.subrange(start as int, end as int).drop_last() == v@.subrange(
            start as int,
            end - 1,
        ));
        end -= 1;
    }
    assert(rest == v@.subrange(start as int, v.len() as int));
    assert(rest.take(end - start) == v@.subrange(start as int, end as int));
    slice_of(v, start, end)
}

/// The words of `s`: its longest runs of characters other than white space.
pub open spec fn words(s: Seq<char>) -> Seq<Seq<char>>
    decreases s.len(),
{
    let k = leading_space(s);
    let rest = s.skip(k);
    let n = leading_word(rest);
    if k < 0 || k > s.len() || n <= 0 || n > rest.len() {
        seq![]
    } else {
        seq![rest.take(n)] + words(rest.skip(n))
    }
}

/// The words of `v`.
pub fn split_words(v: &Vec<char>) -> (parts: Vec<Vec<char>>)
    ensures
        views(parts@) == words(v@),
{
    let mut parts: Vec<Vec<char>> = Vec::new();
    let mut pos: usize = 0;
    assert(views(parts@) == Seq::<Seq<char>>::empty());
    assert(v@.skip(0) == v@);
    loop
        invariant
            pos <= v.len(),
            words(v@) == views(parts@) + words(v@.skip(pos as int)),
        decreases v.len() - pos,
    {
        let ghost s = v@.skip(pos as int);
        let start = skip_space(v, pos);
        let end = skip_word(v, start);
        assert(s.skip(start - pos) == v@.skip(start as int));
        if end == start {
            assert(words(s) == Seq::<Seq<char>>::empty());
            return parts;
        }
        let piece = slice_of(v, start, end);
        assert(piece@ == v@.skip(start as int).take(end - start));
        assert(v@.skip(start as int).skip(end - start) == v@.skip(end as int));
        assert(views(parts@.push(piece)) == views(parts@).push(piece@));
        parts.push(piece);
        pos = end;
    }
}

/// `l` without one carriage return at its end.
pub open spec fn strip_cr(l: Seq<char>) -> Seq<char> {
    if l.len() > 0 && l.last() == '\r' {
        l.drop_last()
    } else {
        l
    }
}

/// The lines of `s`. A line ends with a line feed, or with a carriage return
/// and a line feed; neither belongs to the line. What follows the last line
/// feed is a line of its own unless it is empty.
pub open spec fn lines(s: Seq<char>) -> Seq<Seq<char>>
    decreases s.len(),
{
    let i = find(s, seq!['\n']);
    if s.len() == 0 {
        seq![]
    } else if i < 0 || i >= s.len() {
        seq![s]
    } else {
        seq![strip_cr(s.take(i))] + lines(s.skip(i + 1))
    }
}

/// The lines of `v`.
pub fn split_lines(v: &Vec<char>) -> (parts: Vec<Vec<char>>)
    ensures
        views(parts@) == lines(v@),
{
    let mut sep: Vec<char> = Vec::new();
    sep.push('\n');
    assert(sep@ == seq!['\n']);
    let mut parts: Vec<Vec<char>> = Vec::new();
    let mut pos: usize = 0;
    assert(views(parts@) == Seq::<Seq<char>>::empty());
    assert(v@.skip(0) == v@);
    loop
        invariant
            pos <= v.len(),
            sep@ == seq!['\n'],
            lines(v@) == views(parts@) + lines(v@.skip(pos as int)),
        decreases v.len() - pos,
    {
        let ghost rest = v@.skip(pos as int);
        if pos == v.len() {
            return parts;
        }
        let at = find_from(v, &sep, pos);
        if at >= v.len() {
            let last = slice_of(v, pos, v.len());
            assert(last@ == rest);
            assert(views(parts@.push(last)) == views(parts@).push(last@));
            parts.push(last);
            return parts;
        }
        let end = if at > pos && v[at - 1] == '\r' {
            at - 1
        } else {
            at
        };
        let piece = slice_of(v, pos, end);
        assert(rest.take(at - pos) == v@.subrange(pos as int, at as int));
        assert(piece@ == strip_cr(rest.take(at - pos)));
        assert(rest.skip(at - pos + 1) == v@.skip(at + 1));
        assert(views(parts@.push(piece)) == views(parts@).push(piece@));
        parts.push(piece);
        pos = at + 1;
    }
}

/// Where `c` stands at `k` in `s` and nowhere before, `find` gives `k`.
pub proof fn lemma_find_char(s: Seq<char>, c: char, k: int)
    requires
        0 <= k < s.len(),
        s[k] == c,
        forall|j: int| 0 <= j < k ==> s[j] != c,
    ensures
        find(s, seq![c]) == k,
    decreases k,
{
    if k == 0 {
        assert(s.take(1) == seq![c]);
    } else {
        assert(s.take(1)[0] != seq![c][0]);
        lemma_find_char(s.drop_first(), c, k - 1);
    }
}

/// Where `c` stands nowhere in `s`, `find` gives the length of `s`.
pub proof fn lemma_find_char_absent(s: Seq<char>, c: char)
    requires
        forall|j: int| 0 <= j < s.len() ==> s[j] != c,
    ensures
        find(s, seq![c]) == s.len(),
    decreases s.len(),
{
    if s.len() > 0 {
        assert(s.take(1)[0] != seq![c][0]);
        lemma_find_char_absent(s.drop_first(), c);
    }
}

/// A text without line feed, a carriage return and a line feed make one line;
/// the lines of what follows come after it.
pub proof fn lemma_lines_first(a: Seq<char>, rest: Seq<char>)
    requires
        forall|j: int| 0 <= j < a.len() ==> a[j] != '\n',
    ensures
        lines(a + seq!['\r', '\n'] + rest) == seq![a] + lines(rest),
{
    let s = a + seq!['\r', '\n'] + rest;
    let i: int = a.len() as int + 1;
    assert(s[i] == '\n');
    assert forall|j: int| 0 <= j < i implies s[j] != '\n' by {
        if j < a.len() {
            assert(s[j] == a[j]);
        } else {
            assert(s[j] == '\r');
        }
    }
    lemma_find_char(s, '\n', i);
    assert(s.take(i) == a.push('\r'));
    assert(a.push('\r').drop_last() == a);
    assert(strip_cr(s.take(i)) == a);
    assert(s.skip(i + 1) == rest);
}

/// A text without white space stands before white space as one word.
pub proof fn lemma_leading_word(word: Seq<char>, rest: Seq<char>)
    requires
        forall|j: int| 0 <= j < word.len() ==> !is_space(word[j]),
        rest.len() == 0 || is_space(rest[0]),
    ensures
        leading_word(word + rest) == word.len(),
    decreases word.len(),
{
    let s = word + rest;
    if word.len() == 0 {
        assert(s == rest);
    } else {
        assert(s[0] == word[0]);
        assert(s.drop_first() == word.drop_first() + rest);
        assert forall|j: int| 0 <= j < word.drop_first().len() implies !is_space(
            word.drop_first()[j],
        ) by {
            assert(word.drop_first()[j] == word[j + 1]);
        }
        lemma_leading_word(word.drop_first(), rest);
    }
}

/// Three texts without white space, with one space between each two, are
/// three words.
pub proof fn lemma_three_words(a: Seq<char>, b: Seq<char>, c: Seq<char>)
    requires
        a.len() > 0,
        b.len() > 0,
        c.len() > 0,
        forall|j: int| 0 <= j < a.len() ==> !is_space(a[j]),
        forall|j: int| 0 <= j < b.len() ==> !is_space(b[j]),
        forall|j: int| 0 <= j < c.len() ==> !is_space(c[j]),
    ensures
        words(a + seq![' '] + b + seq![' '] + c) == seq![a, b, c],
{
    let sp = seq![' '];
    let s = a + sp + b + sp + c;
    let empty = Seq::<char>::empty();
    assert(is_space(' '));
    // the first word
    let r1 = sp + b + sp + c;
    assert(s == a + r1);
    assert(s[0] == a[0]);
    assert(leading_space(s) == 0);
    assert(s.skip(0) == s);
    lemma_leading_word(a, r1);
    assert(s.take(a.len() as int) == a);
    assert(s.skip(a.len() as int) == r1);
    // the second word
    let r2 = b + sp + c;
    assert(r1[0] == ' ');
    assert(r1.drop_first() == r2);
    assert(r2[0] == b[0]);
    assert(leading_space(r2) == 0);
    assert(leading_space(r1) == 1);
    assert(r1.skip(1) == r2);
    let r3 = sp + c;
    assert(r2 == b + r3);
    assert(r2.skip(0) == r2);
    lemma_leading_word(b, r3);
    assert(r2.take(b.len() as int) == b);
    assert(r2.skip(b.len() as int) == r3);
    // the third word
    assert(r3[0] == ' ');
    assert(r3.drop_first() == c);
    assert(c[0] == c[0] && leading_space(c) == 0);
    assert(leading_space(r3) == 1);
    assert(r3.skip(1) == c);
    assert(c == c + empty);
    assert(c.skip(0) == c);
    lemma_leading_word(c, empty);
    assert(c.take(c.len() as int) == c);
    assert(c.skip(c.len() as int) == empty);
    // the end
    assert(leading_space(empty) == 0);
    assert(empty.skip(0) == empty);
    assert(leading_word(empty) == 0);
    assert(words(empty) == Seq::<Seq<char>>::empty());
    assert(words(c) == seq![c] + words(empty));
    assert(words(r3) == words(c));
    assert(words(r2) == seq![b] + words(r3));
    assert(words(r1) == words(r2));
    assert(words(s) == seq![a] + words(r1));
    assert(seq![a] + (seq![b] + (seq![c] + Seq::<Seq<char>>::empty())) == seq![a, b, c]);
}

/// Two texts without `c`, with `c` between them, split at `c` into the two.
pub proof fn lemma_split_pair(k: Seq<char>, v: Seq<char>, c: char)
    requires
        forall|j: int| 0 <= j < k.len() ==> k[j] != c,
        forall|j: int| 0 <= j < v.len() ==> v[j] != c,
    ensures
        split(k + seq![c] + v, seq![c]) == seq![k, v],
{
    let s = k + seq![c] + v;
    let i = k.len() as int;
    assert(s[i] == c);
    assert forall|j: int| 0 <= j < i implies s[j] != c by {
        assert(s[j] == k[j]);
    }
    lemma_find_char(s, c, i);
    assert(s.take(i) == k);
    assert(s.skip(i + 1) == v);
    lemma_find_char_absent(v, c);
    assert(split(v, seq![c]) == seq![v]);
    assert(seq![k] + seq![v] == seq![k, v]);
}

/// A text that neither starts nor ends with white space is its own trimmed
/// form.
pub proof fn lemma_trim_plain(s: Seq<char>)
    requires
        s.len() > 0,
        !is_space(s[0]),
        !is_space(s.last()),
    ensures
        trim(s) == s,
{
    assert(leading_space(s) == 0);
    assert(s.skip(0) == s);
    assert(trailing_space(s) == 0);
    assert(s.take(s.len() as int) == s);
}

/// A space before a text that neither starts nor ends with white space is
/// trimmed away.
pub proof fn lemma_trim_space_before(s: Seq<char>)
    requires
        s.len() > 0,
        !is_space(s[0]),
        !is_space(s.last()),
    ensures
        trim(seq![' '] + s) == s,
{
    let t = seq![' '] + s;
    assert(is_space(t[0]));
    assert(t.drop_first() == s);
    assert(leading_space(s) == 0);
    assert(leading_space(t) == 1);
    assert(t.skip(1) == s);
    assert(trailing_space(s) == 0);
    assert(s.take(s.len() as int) == s);
}

/// Behind a text that holds the first character of `sep` nowhere, `sep` is
/// found at the end of that text.
pub proof fn lemma_find_behind(a: Seq<char>, sep: Seq<char>, rest: Seq<char>)
    requires
        sep.len() > 0,
        forall|j: int| 0 <= j < a.len() ==> a[j] != sep[0],
    ensures
        find(a + sep + rest, sep) == a.len(),
    decreases a.len(),
{
    let s = a + sep + rest;
    if a.len() == 0 {
        assert(s.take(sep.len() as int) == sep);
    } else {
        assert(s.take(sep.len() as int)[0] == a[0]);
        assert(s.drop_first() == a.drop_first() + sep + rest);
        assert forall|j: int| 0 <= j < a.drop_first().len() implies a.drop_first()[j]
            != sep[0] by {
            assert(a.drop_first()[j] == a[j + 1]);
        }
        lemma_find_behind(a.drop_first(), sep, rest);
    }
}

/// In a text that holds the first character of `sep` nowhere, `sep` is not
/// found.
pub proof fn lemma_find_absent(a: Seq<char>, sep: Seq<char>)
    requires
        sep.len() > 0,
        forall|j: int| 0 <= j < a.len() ==> a[j] != sep[0],
    ensures
        find(a, sep) == a.len(),
    decreases a.len(),
{
    if a.len() >= sep.len() && a.len() > 0 {
        assert(a.take(sep.len() as int)[0] == a[0]);
        assert forall|j: int| 0 <= j < a.drop_first().len() implies a.drop_first()[j]
            != sep[0] by {
            assert(a.drop_first()[j] == a[j + 1]);
        }
        lemma_find_absent(a.drop_first(), sep);
    }
}

/// A text that holds the first character of `sep` nowhere is the first piece
/// of what it stands before; the pieces of what follows `sep` come after it.
pub proof fn lemma_split_first(a: Seq<char>, sep: Seq<char>, rest: Seq<char>)
    requires
        sep.len() > 0,
        forall|j: int| 0 <= j < a.len() ==> a[j] != sep[0],
    ensures
        split(a + sep + rest, sep) == seq![a] + split(rest, sep),
{
    let s = a + sep + rest;
    lemma_find_behind(a, sep, rest);
    assert(s.take(a.len() as int) == a);
    assert(s.skip((a.len() + sep.len()) as int) == rest);
}

/// A text that holds the first character of `sep` nowhere is one piece.
pub proof fn lemma_split_single(a: Seq<char>, sep: Seq<char>)
    requires
        sep.len() > 0,
        forall|j: int| 0 <= j < a.len() ==> a[j] != sep[0],
    ensures
        split(a, sep) == seq![a],
{
    lemma_find_absent(a, sep);
}

} // verus!
