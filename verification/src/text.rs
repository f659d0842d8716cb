//! Text as sequences of characters: searching, splitting and trimming, each
//! with the sequence it computes.

use vstd::prelude::*;

verus! {

/// `String::push` of the standard library: the character is appended at the end.
pub assume_specification[ String::push ](s: &mut String, c: char)
    ensures
        final(s)@ == old(s)@.push(c),
;

/// The views of the pieces, in order.
pub open spec fn views(v: Seq<Vec<char>>) -> Seq<Seq<char>> {
    v.map_values(|x: Vec<char>| x@)
}

/// The characters of `s`.
pub fn to_chars(s: &str) -> (v: Vec<char>)
    ensures
        v@ == s@,
{
    let mut v: Vec<char> = Vec::new();
    for c in it: s.chars()
        invariant
            v@ == it.seq().take(it.index() as int),
            it.seq() == s@,
    {
        v.push(c);
    }
    v
}

/// The string that holds the characters of `v`.
pub fn from_chars(v: &[char]) -> (s: String)
    ensures
        s@ == v@,
{
    let mut s = String::new();
    let mut i: usize = 0;
    while i < v.len()
        invariant
            i <= v.len(),
            s@ == v@.take(i as int),
        decreases v.len() - i,
    {
        s.push(v[i]);
        i = i + 1;
        assert(v@.take(i as int) =~= v@.take(i - 1).push(v@[i - 1]));
    }
    assert(v@.take(v.len() as int) =~= v@);
    s
}

/// The characters of `text` from `from` up to `to`.
pub fn copy_range(text: &[char], from: usize, to: usize) -> (v: Vec<char>)
    requires
        from <= to <= text.len(),
    ensures
        v@ == text@.subrange(from as int, to as int),
{
    let mut v: Vec<char> = Vec::new();
    let mut i: usize = from;
    while i < to
        invariant
            from <= i <= to <= text.len(),
            v@ == text@.subrange(from as int, i as int),
        decreases to - i,
    {
        v.push(text[i]);
        i = i + 1;
        assert(text@.subrange(from as int, i as int) =~= text@.subrange(from as int, i - 1).push(
            text@[i - 1],
        ));
    }
    v
}

/// Whether the two sequences hold the same characters.
pub fn chars_eq(a: &[char], b: &[char]) -> (r: bool)
    ensures
        r == (a@ == b@),
{
    if a.len() != b.len() {
        return false;
    }
    let mut i: usize = 0;
    while i < a.len()
        invariant
            i <= a.len(),
            a.len() == b.len(),
            a@.take(i as int) == b@.take(i as int),
        decreases a.len() - i,
    {
        if a[i] != b[i] {
            assert(a@[i as int] != b@[i as int]);
            return false;
        }
        i = i + 1;
        assert(a@.take(i as int) =~= a@.take(i - 1).push(a@[i - 1]));
        assert(b@.take(i as int) =~= b@.take(i - 1).push(b@[i - 1]));
    }
    assert(a@.take(a.len() as int) =~= a@);
    assert(b@.take(b.len() as int) =~= b@);
    true
}

/// Whether two strings hold the same characters.
pub fn str_eq(a: &str, b: &str) -> (r: bool)
    ensures
        r == (a@ == b@),
{
    let x = to_chars(a);
    let y = to_chars(b);
    chars_eq(x.as_slice(), y.as_slice())
}

/// `pat` stands in `text` at position `i`.
pub open spec fn occurs_at(text: Seq<char>, pat: Seq<char>, i: int) -> bool {
    &&& 0 <= i
    &&& i + pat.len() <= text.len()
    &&& text.subrange(i, i + pat.len()) == pat
}

/// `pat` stands somewhere in `text`.
pub open spec fn occurs(text: Seq<char>, pat: Seq<char>) -> bool {
    exists|i: int| occurs_at(text, pat, i)
}

/// Whether `pat` stands in `text` at position `i`.
pub fn matches_at(text: &[char], pat: &[char], i: usize) -> (r: bool)
    ensures
        r == occurs_at(text@, pat@, i as int),
{
    if pat.len() > text.len() || i > text.len() - pat.len() {
        return false;
    }
    let mut j: usize = 0;
    while j < pat.len()
        invariant
            j <= pat.len(),
            i + pat.len() <= text.len(),
            text@.subrange(i as int, i + j) == pat@.take(j as int),
        decreases pat.len() - j,
    {
        if text[i + j] != pat[j] {
            assert(text@.subrange(i as int, i + pat.len())[j as int] != pat@[j as int]);
            return false;
        }
        j = j + 1;
        assert(text@.subrange(i as int, i + j) =~= text@.subrange(i as int, i + j - 1).push(
            text@[i + j - 1],
        ));
        assert(pat@.take(j as int) =~= pat@.take(j - 1).push(pat@[j - 1]));
    }
    assert(pat@.take(pat.len() as int) =~= pat@);
    true
}

/// Whether `pat` stands somewhere in `text`.
pub fn contains(text: &[char], pat: &[char]) -> (r: bool)
    ensures
        r == occurs(text@, pat@),
{
    if pat.len() > text.len() {
        return false;
    }
    let last: usize = text.len() - pat.len();
    let mut i: usize = 0;
    loop
        invariant
            i <= last,
            last == text.len() - pat.len(),
            forall|k: int| 0 <= k < i ==> !occurs_at(text@, pat@, k),
        decreases last - i,
    {
        if matches_at(text, pat, i) {
            return true;
        }
        if i == last {
            return false;
        }
        i = i + 1;
    }
}

/// Whether `pat` stands somewhere in `text`.
pub fn str_contains(text: &str, pat: &str) -> (r: bool)
    ensures
        r == occurs(text@, pat@),
{
    let t = to_chars(text);
    let p = to_chars(pat);
    contains(t.as_slice(), p.as_slice())
}

/// Whether `text` ends with `suffix`.
pub fn ends_with(text: &[char], suffix: &[char]) -> (r: bool)
    ensures
        r == suffix@.is_suffix_of(text@),
{
    if suffix.len() > text.len() {
        return false;
    }
    let at: usize = text.len() - suffix.len();
    let r = matches_at(text, suffix, at);
    proof {
        assert(text@.subrange(at as int, text.len() as int) =~= text@.skip(at as int));
    }
    r
}

/// Where `c` first stands in `t`; the length of `t` where it does not.
pub open spec fn find_char(t: Seq<char>, c: char) -> nat
    decreases t.len(),
{
    if t.len() == 0 || t[0] == c {
        0
    } else {
        1 + find_char(t.skip(1), c)
    }
}

/// `find_char` gives the first position of `c`, within the bounds of `t`.
pub proof fn lemma_find_char(t: Seq<char>, c: char)
    ensures
        find_char(t, c) <= t.len(),
        forall|j: int| 0 <= j < find_char(t, c) ==> t[j] != c,
        find_char(t, c) < t.len() ==> t[find_char(t, c) as int] == c,
    decreases t.len(),
{
    if t.len() == 0 || t[0] == c {
    } else {
        lemma_find_char(t.skip(1), c);
        assert forall|j: int| 0 <= j < find_char(t, c) implies t[j] != c by {
            if j > 0 {
                assert(t.skip(1)[j - 1] == t[j]);
            }
        }
    }
}

/// A position with no `c` before it, that holds `c` or is the end, is what `find_char` gives.
pub proof fn lemma_find_char_is(t: Seq<char>, c: char, i: int)
    requires
        0 <= i <= t.len(),
        forall|j: int| 0 <= j < i ==> t[j] != c,
        i < t.len() ==> t[i] == c,
    ensures
        find_char(t, c) == i,
{
    lemma_find_char(t, c);
    let f = find_char(t, c) as int;
    if f < i {
        assert(t[f] != c);
    } else if f > i {
        assert(t[i] != c);
    }
}

/// The pieces of `t` between the occurrences of `sep`: one more piece than occurrences.
pub open spec fn split_on(t: Seq<char>, sep: char) -> Seq<Seq<char>>
    decreases t.len(),
{
    let i = find_char(t, sep) as int;
    if i >= t.len() {
        seq![t]
    } else {
        seq![t.take(i)] + split_on(t.skip(i + 1), sep)
    }
}

/// There is always a piece.
pub proof fn lemma_split_on_has_piece(t: Seq<char>, sep: char)
    ensures
        split_on(t, sep).len() >= 1,
    decreases t.len(),
{
    lemma_find_char(t, sep);
    if find_char(t, sep) < t.len() {
        lemma_split_on_has_piece(t.skip(find_char(t, sep) as int + 1), sep);
    }
}

/// A line without the carriage return that ended it.
pub open spec fn strip_cr(l: Seq<char>) -> Seq<char> {
    if l.len() > 0 && l.last() == '\r' {
        l.drop_last()
    } else {
        l
    }
}

/// The lines of `t`: each ends at a line feed, which is left out together with
/// a carriage return before it; what follows the last line feed is a line
/// of its own unless it is empty.
pub open spec fn lines_of(t: Seq<char>) -> Seq<Seq<char>>
    decreases t.len(),
{
    if t.len() == 0 {
        Seq::empty()
    } else {
        let i = find_char(t, '\n') as int;
        if i >= t.len() {
            seq![t]
        } else {
            seq![strip_cr(t.take(i))] + lines_of(t.skip(i + 1))
        }
    }
}

/// The characters with the Unicode property `White_Space`.
pub open spec fn is_space(c: char) -> bool {
    let n = c as u32;
    ||| 0x09 <= n <= 0x0d
    ||| n == 0x20
    ||| n == 0x85
    ||| n == 0xa0
    ||| n == 0x1680
    ||| 0x2000 <= n <= 0x200a
    ||| n == 0x2028
    ||| n == 0x2029
    ||| n == 0x202f
    ||| n == 0x205f
    ||| n == 0x3000
}

/// How many whitespace characters `t` begins with.
pub open spec fn leading_spaces(t: Seq<char>) -> nat
    decreases t.len(),
{
    if t.len() > 0 && is_space(t[0]) {
        1 + leading_spaces(t.skip(1))
    } else {
        0
    }
}

/// How many whitespace characters `t` ends with.
pub open spec fn trailing_spaces(t: Seq<char>) -> nat
    decreases t.len(),
{
    if t.len() > 0 && is_space(t.last()) {
        1 + trailing_spaces(t.drop_last())
    } else {
        0
    }
}

/// `t` without the whitespace at its two ends.
pub open spec fn trimmed(t: Seq<char>) -> Seq<char> {
    let rest = t.skip(leading_spaces(t) as int);
    rest.take(rest.len() - trailing_spaces(rest))
}

/// A position that only whitespace precedes, and that holds none or is the end.
pub proof fn lemma_leading_spaces_is(t: Seq<char>, i: int)
    requires
        0 <= i <= t.len(),
        forall|j: int| 0 <= j < i ==> is_space(t[j]),
        i < t.len() ==> !is_space(t[i]),
    ensures
        leading_spaces(t) == i,
    decreases i,
{
    if i > 0 {
        assert(is_space(t[0]));
        assert forall|j: int| 0 <= j < i - 1 implies is_space(t.skip(1)[j]) by {
            assert(t.skip(1)[j] == t[j + 1]);
        }
        lemma_leading_spaces_is(t.skip(1), i - 1);
    }
}

/// A number of last characters that are all whitespace, with none before them.
pub proof fn lemma_trailing_spaces_is(t: Seq<char>, k: int)
    requires
        0 <= k <= t.len(),
        forall|j: int| t.len() - k <= j < t.len() ==> is_space(t[j]),
        k < t.len() ==> !is_space(t[t.len() - k - 1]),
    ensures
        trailing_spaces(t) == k,
    decreases k,
{
    if k > 0 {
        assert(is_space(t.last()));
        assert forall|j: int| t.drop_last().len() - (k - 1) <= j < t.drop_last().len() implies is_space(
            t.drop_last()[j],
        ) by {
            assert(t.drop_last()[j] == t[j]);
        }
        lemma_trailing_spaces_is(t.drop_last(), k - 1);
    }
}

/// A text that neither begins nor ends with whitespace is left as it is.
pub proof fn lemma_trimmed_keeps(t: Seq<char>)
    requires
        t.len() > 0 ==> !is_space(t[0]) && !is_space(t.last()),
    ensures
        trimmed(t) == t,
{
    lemma_leading_spaces_is(t, 0);
    assert(t.skip(0) =~= t);
    lemma_trailing_spaces_is(t, 0);
    assert(t.take(t.len() as int) =~= t);
}

/// Whether `c` is whitespace.
pub fn char_is_space(c: char) -> (r: bool)
    ensures
        r == is_space(c),
{
    let n: u32 = c as u32;
    (0x09 <= n && n <= 0x0d) || n == 0x20 || n == 0x85 || n == 0xa0 || n == 0x1680 || (0x2000 <= n
        && n <= 0x200a) || n == 0x2028 || n == 0x2029 || n == 0x202f || n == 0x205f || n == 0x3000
}

/// Where `c` first stands in `text` at or after `from`; the length of `text` where it does not.
pub fn find_from(text: &[char], from: usize, c: char) -> (i: usize)
    requires
        from <= text.len(),
    ensures
        from <= i <= text.len(),
        i - from == find_char(text@.skip(from as int), c),
{
    let mut i: usize = from;
    while i < text.len() && text[i] != c
        invariant
            from <= i <= text.len(),
            forall|j: int| from <= j < i ==> text@[j] != c,
        decreases text.len() - i,
    {
        i = i + 1;
    }
    proof {
        lemma_find_char_is(text@.skip(from as int), c, i - from);
    }
    i
}

/// The pieces of `text` between the occurrences of `sep`.
pub fn split(text: &[char], sep: char) -> (pieces: Vec<Vec<char>>)
    ensures
        views(pieces@) == split_on(text@, sep),
{
    let mut pieces: Vec<Vec<char>> = Vec::new();
    let mut start: usize = 0;
    proof {
        assert(text@.skip(0) =~= text@);
        assert(views(pieces@) =~= Seq::<Seq<char>>::empty());
    }
    loop
        invariant
            start <= text.len(),
            split_on(text@, sep) == views(pieces@) + split_on(text@.skip(start as int), sep),
        decreases text.len() - start,
    {
        let i: usize = find_from(text, start, sep);
        let piece = copy_range(text, start, i);
        let ghost rest = text@.skip(start as int);
        let ghost before = views(pieces@);
        proof {
            assert(rest.take(i - start) =~= piece@);
        }
        pieces.push(piece);
        proof {
            assert(views(pieces@) =~= before + seq![rest.take(i - start)]);
        }
        if i == text.len() {
            proof {
                assert(rest.take(i - start) =~= rest);
            }
            return pieces;
        }
        proof {
            assert(rest.skip(i - start + 1) =~= text@.skip(i + 1));
        }
        start = i + 1;
    }
}

/// The lines of `text`.
pub fn lines(text: &[char]) -> (found: Vec<Vec<char>>)
    ensures
        views(found@) == lines_of(text@),
{
    let mut found: Vec<Vec<char>> = Vec::new();
    let mut start: usize = 0;
    proof {
        assert(text@.skip(0) =~= text@);
        assert(views(found@) =~= Seq::<Seq<char>>::empty());
    }
    while start < text.len()
        invariant
            start <= text.len(),
            lines_of(text@) == views(found@) + lines_of(text@.skip(start as int)),
        decreases text.len() - start,
    {
        let i: usize = find_from(text, start, '\n');
        let ghost rest = text@.skip(start as int);
        let ghost before = views(found@);
        if i == text.len() {
            let piece = copy_range(text, start, i);
            proof {
                assert(piece@ =~= rest);
            }
            found.push(piece);
            proof {
                assert(views(found@) =~= before + seq![rest]);
                assert(text@.skip(text.len() as int) =~= Seq::<char>::empty());
                assert(lines_of(rest) =~= seq![rest] + lines_of(text@.skip(text.len() as int)));
            }
            start = text.len();
        } else {
            let end: usize = if i > start && text[i - 1] == '\r' {
                i - 1
            } else {
                i
            };
            let piece = copy_range(text, start, end);
            proof {
                assert(rest.take(i - start) =~= text@.subrange(start as int, i as int));
                assert(piece@ =~= strip_cr(rest.take(i - start)));
            }
            found.push(piece);
            proof {
                assert(views(found@) =~= before + seq![strip_cr(rest.take(i - start))]);
                assert(rest.skip(i - start + 1) =~= text@.skip(i + 1));
            }
            start = i + 1;
        }
    }
    found
}

/// `text` without the whitespace at its two ends.
pub fn trim(text: &[char]) -> (r: Vec<char>)
    ensures
        r@ == trimmed(text@),
{
    let mut from: usize = 0;
    while from < text.len() && char_is_space(text[from])
        invariant
            from <= text.len(),
            forall|j: int| 0 <= j < from ==> is_space(text@[j]),
        decreases text.len() - from,
    {
        from = from + 1;
    }
    let mut to: usize = text.len();
    while to > from && char_is_space(text[to - 1])
        invariant
            from <= to <= text.len(),
            forall|j: int| to <= j < text.len() ==> is_space(text@[j]),
        decreases to,
    {
        to = to - 1;
    }
    proof {
        lemma_leading_spaces_is(text@, from as int);
        let rest = text@.skip(from as int);
        lemma_trailing_spaces_is(rest, text.len() - to);
        assert(rest.take(rest.len() - (text.len() - to)) =~= text@.subrange(from as int, to as int));
    }
    copy_range(text, from, to)
}

/// An upper-case letter of ASCII as its lower-case letter; any other character as it is.
pub open spec fn lower(c: char) -> char {
    if 'A' <= c <= 'Z' {
        ((c as u8) + 32) as char
    } else {
        c
    }
}

/// `t` with its ASCII letters in lower case.
pub open spec fn folded(t: Seq<char>) -> Seq<char> {
    t.map_values(|c: char| lower(c))
}

/// `c` with an ASCII letter in lower case.
pub fn char_lower(c: char) -> (r: char)
    ensures
        r == lower(c),
{
    if 'A' <= c && c <= 'Z' {
        ((c as u8) + 32) as char
    } else {
        c
    }
}

/// Whether `text`, read without regard to the case of ASCII letters, is `word`.
pub fn is_word(text: &[char], word: &[char]) -> (r: bool)
    ensures
        r == (folded(text@) == folded(word@)),
{
    if text.len() != word.len() {
        assert(folded(text@).len() != folded(word@).len());
        return false;
    }
    let mut i: usize = 0;
    while i < text.len()
        invariant
            i <= text.len(),
            text.len() == word.len(),
            forall|j: int| 0 <= j < i ==> lower(text@[j]) == lower(word@[j]),
        decreases text.len() - i,
    {
        if char_lower(text[i]) != char_lower(word[i]) {
            assert(folded(text@)[i as int] != folded(word@)[i as int]);
            return false;
        }
        i = i + 1;
    }
    assert(folded(text@) =~= folded(word@));
    true
}

/// The letters of ASCII.
pub open spec fn is_letter(c: char) -> bool {
    ('a' <= c <= 'z') || ('A' <= c <= 'Z')
}

/// `word` stands in `text` at position `i` as a word of its own: the case
/// of ASCII letters does not count, and no letter stands directly before or
/// after it.
pub open spec fn word_at(text: Seq<char>, word: Seq<char>, i: int) -> bool {
    &&& occurs_at(folded(text), folded(word), i)
    &&& (i == 0 || !is_letter(text[i - 1]))
    &&& (i + word.len() == text.len() || !is_letter(text[i + word.len()]))
}

/// `word` stands somewhere in `text` as a word of its own.
pub open spec fn holds_word(text: Seq<char>, word: Seq<char>) -> bool {
    exists|i: int| word_at(text, word, i)
}

/// Whether `c` is a letter of ASCII.
pub fn char_is_letter(c: char) -> (r: bool)
    ensures
        r == is_letter(c),
{
    ('a' <= c && c <= 'z') || ('A' <= c && c <= 'Z')
}

/// `text` with its ASCII letters in lower case.
pub fn fold(text: &[char]) -> (r: Vec<char>)
    ensures
        r@ == folded(text@),
{
    let mut r: Vec<char> = Vec::new();
    let mut i: usize = 0;
    while i < text.len()
        invariant
            i <= text.len(),
            r@ == folded(text@).take(i as int),
        decreases text.len() - i,
    {
        r.push(char_lower(text[i]));
        i = i + 1;
        assert(folded(text@).take(i as int) =~= folded(text@).take(i - 1).push(lower(text@[i - 1])));
    }
    assert(folded(text@).take(text.len() as int) =~= folded(text@));
    r
}

/// Whether `word` stands somewhere in `text` as a word of its own.
pub fn contains_word(text: &[char], word: &[char]) -> (r: bool)
    ensures
        r == holds_word(text@, word@),
{
    if word.len() > text.len() {
        assert(folded(text@).len() == text@.len() && folded(word@).len() == word@.len());
        return false;
    }
    let low_text = fold(text);
    let low_word = fold(word);
    let last: usize = text.len() - word.len();
    let mut i: usize = 0;
    loop
        invariant
            i <= last,
            last == text.len() - word.len(),
            low_text@ == folded(text@),
            low_word@ == folded(word@),
            forall|k: int| 0 <= k < i ==> !word_at(text@, word@, k),
        decreases last - i,
    {
        if matches_at(low_text.as_slice(), low_word.as_slice(), i) {
            let before = i == 0 || !char_is_letter(text[i - 1]);
            let after = i == last || !char_is_letter(text[i + word.len()]);
            if before && after {
                assert(word_at(text@, word@, i as int));
                return true;
            }
        }
        if i == last {
            assert forall|k: int| !word_at(text@, word@, k) by {
                if word_at(text@, word@, k) {
                    assert(folded(text@).len() == text@.len() && folded(word@).len() == word@.len());
                    assert(0 <= k <= last);
                }
            }
            return false;
        }
        i = i + 1;
    }
}

/// Whether `word` stands somewhere in `text` as a word of its own.
pub fn str_contains_word(text: &str, word: &str) -> (r: bool)
    ensures
        r == holds_word(text@, word@),
{
    let t = to_chars(text);
    let w = to_chars(word);
    contains_word(t.as_slice(), w.as_slice())
}

/// The views of the strings, in order.
pub open spec fn string_views(items: Seq<String>) -> Seq<Seq<char>> {
    items.map_values(|s: String| s@)
}

/// The first `n` items with `sep` between them.
pub open spec fn joined(items: Seq<Seq<char>>, sep: Seq<char>, n: nat) -> Seq<char>
    decreases n,
{
    if n == 0 {
        Seq::empty()
    } else if n == 1 {
        items[0]
    } else {
        joined(items, sep, (n - 1) as nat) + sep + items[n - 1]
    }
}

/// The items with `sep` between them.
pub fn join(items: &[String], sep: &str) -> (r: String)
    ensures
        r@ == joined(string_views(items@), sep@, items@.len()),
{
    let mut r = String::new();
    let mut i: usize = 0;
    while i < items.len()
        invariant
            i <= items.len(),
            r@ == joined(string_views(items@), sep@, i as nat),
        decreases items.len() - i,
    {
        if i > 0 {
            r.append(sep);
        }
        r.append(items[i].as_str());
        proof {
            assert(string_views(items@)[i as int] == items@[i as int]@);
            if i == 0 {
                assert(r@ =~= items@[0]@);
            }
        }
        i = i + 1;
    }
    r
}

/// The decimal digit of a number below ten.
pub open spec fn digit(d: nat) -> char {
    ((48 + d) as u8) as char
}

/// A number in decimal digits, without leading zeros.
pub open spec fn decimal_of(n: nat) -> Seq<char>
    decreases n,
{
    if n < 10 {
        seq![digit(n)]
    } else {
        decimal_of(n / 10).push(digit(n % 10))
    }
}

/// `n` in decimal digits.
pub fn decimal(n: u64) -> (r: String)
    ensures
        r@ == decimal_of(n as nat),
{
    let mut low: Vec<char> = Vec::new();
    let mut rest: u64 = n;
    let ghost mut tail: Seq<char> = Seq::empty();
    while rest >= 10
        invariant
            decimal_of(n as nat) == decimal_of(rest as nat) + tail,
            tail.len() == low@.len(),
            forall|j: int| 0 <= j < tail.len() ==> tail[j] == low@[low@.len() - 1 - j],
        decreases rest,
    {
        let d: u8 = (rest % 10) as u8;
        let c: char = (48 + d) as char;
        proof {
            assert(c == digit((rest % 10) as nat));
            let shorter = decimal_of((rest / 10) as nat);
            assert(decimal_of(rest as nat) == shorter.push(c));
            assert(shorter.push(c) + tail =~= shorter + (seq![c] + tail));
            tail = seq![c] + tail;
        }
        low.push(c);
        rest = rest / 10;
    }
    let d: u8 = rest as u8;
    let c: char = (48 + d) as char;
    proof {
        assert(c == digit(rest as nat));
        assert(decimal_of(rest as nat) =~= seq![c]);
    }
    let mut r = String::new();
    r.push(c);
    let mut i: usize = low.len();
    while i > 0
        invariant
            i <= low.len(),
            tail.len() == low@.len(),
            forall|j: int| 0 <= j < tail.len() ==> tail[j] == low@[low@.len() - 1 - j],
            r@ == seq![c] + tail.take(low@.len() - i),
        decreases i,
    {
        i = i - 1;
        r.push(low[i]);
        proof {
            assert(tail.take(low@.len() - i) =~= tail.take(low@.len() - i - 1).push(low@[i as int]));
        }
    }
    proof {
        assert(tail.take(low@.len() as int) =~= tail);
    }
    r
}

/// A text in upper case, as `str::to_uppercase` of the standard library gives it.
pub uninterp spec fn uppercase(text: Seq<char>) -> Seq<char>;

/// `str::to_uppercase` of the standard library.
#[verifier::external_body]
pub(crate) fn to_uppercase(text: &str) -> (r: String)
    ensures
        r@ == uppercase(text@),
{
    text.to_uppercase()
}

/// A text in lower case, as `str::to_lowercase` of the standard library gives it.
pub uninterp spec fn lowercase(text: Seq<char>) -> Seq<char>;

/// `str::to_lowercase` of the standard library.
#[verifier::external_body]
pub(crate) fn to_lowercase(text: &str) -> (r: String)
    ensures
        r@ == lowercase(text@),
{
    text.to_lowercase()
}

/// A copy of the strings.
pub fn clone_strings(items: &Vec<String>) -> (r: Vec<String>)
    ensures
        r@ == items@,
{
    let mut r: Vec<String> = Vec::new();
    let mut i: usize = 0;
    while i < items.len()
        invariant
            i <= items.len(),
            r@ == items@.take(i as int),
        decreases items.len() - i,
    {
        r.push(items[i].clone());
        i = i + 1;
        assert(items@.take(i as int) =~= items@.take(i - 1).push(items@[i - 1]));
    }
    assert(items@.take(items.len() as int) =~= items@);
    r
}

} // verus!
