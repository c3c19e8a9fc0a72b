//! Text as a sequence of characters: the cutting, trimming and searching that
//! the rest of the library does on what commands and files report.

use vstd::prelude::*;

verus! {

/// The characters of the Unicode property `White_Space`.
pub open spec fn is_white(c: char) -> bool {
    let n = c as u32;
    ||| 0x09 <= n <= 0x0d
    ||| n == 0x20
    ||| n == 0x85
    ||| n == 0xa0
    ||| n == 0x1680
    ||| 0x2000 <= n <= 0x200a
    ||| n == 0x2028
    ||| n == 0x2029
    ||| n == 0x202f
    ||| n == 0x205f
    ||| n == 0x3000
}

/// The predicate "white space".
pub open spec fn white() -> spec_fn(char) -> bool {
    |c: char| is_white(c)
}

/// The predicate "not white space".
pub open spec fn solid() -> spec_fn(char) -> bool {
    |c: char| !is_white(c)
}

/// The predicate "is `c`".
pub open spec fn only(c: char) -> spec_fn(char) -> bool {
    |x: char| x == c
}

/// The predicate "is not `c`".
pub open spec fn other_than<T>(c: T) -> spec_fn(T) -> bool {
    |x: T| x != c
}

/// The length of the longest prefix of `s` whose elements all satisfy `p`.
pub open spec fn span<T>(s: Seq<T>, p: spec_fn(T) -> bool) -> nat
    decreases s.len(),
{
    if s.len() > 0 && p(s[0]) {
        1 + span(s.drop_first(), p)
    } else {
        0
    }
}

/// `s` without the longest suffix whose characters all satisfy `p`.
pub open spec fn drop_trailing(s: Seq<char>, p: spec_fn(char) -> bool) -> Seq<char>
    decreases s.len(),
{
    if s.len() > 0 && p(s.last()) {
        drop_trailing(s.drop_last(), p)
    } else {
        s
    }
}

/// `s` without leading and trailing white space.
pub open spec fn trimmed(s: Seq<char>) -> Seq<char> {
    drop_trailing(s.skip(span(s, white()) as int), white())
}

/// `s` without a carriage return at its end.
pub open spec fn strip_cr(s: Seq<char>) -> Seq<char> {
    if s.len() > 0 && s.last() == '\r' {
        s.drop_last()
    } else {
        s
    }
}

/// The lines of `s`. A line ends in a line feed, or in a carriage return and a
/// line feed; the last line need not end at all.
pub open spec fn lines_of(s: Seq<char>) -> Seq<Seq<char>>
    decreases s.len(),
{
    let n = span(s, other_than('\n'));
    if s.len() == 0 {
        Seq::empty()
    } else if n >= s.len() {
        seq![s]
    } else {
        seq![strip_cr(s.take(n as int))] + lines_of(s.skip(n as int + 1))
    }
}

/// The words of `s`: its longest stretches without white space.
pub open spec fn words_of(s: Seq<char>) -> Seq<Seq<char>>
    decreases s.len(),
{
    if s.len() == 0 {
        Seq::empty()
    } else if is_white(s[0]) {
        words_of(s.drop_first())
    } else {
        let n = span(s, solid());
        if 0 < n <= s.len() {
            seq![s.take(n as int)] + words_of(s.skip(n as int))
        } else {
            Seq::empty()
        }
    }
}

/// The pieces of `s` between the occurrences of `c`.
pub open spec fn pieces_of<T>(s: Seq<T>, c: T) -> Seq<Seq<T>>
    decreases s.len(),
{
    let n = span(s, other_than(c));
    if n >= s.len() {
        seq![s]
    } else {
        seq![s.take(n as int)] + pieces_of(s.skip(n as int + 1), c)
    }
}

/// At most `count` pieces of `s` between occurrences of `c`: the last piece
/// holds whatever is left, with the occurrences of `c` in it.
pub open spec fn first_pieces_of(s: Seq<char>, count: nat, c: char) -> Seq<Seq<char>>
    decreases count,
{
    let n = span(s, other_than(c));
    if count == 0 {
        Seq::empty()
    } else if count == 1 || n >= s.len() {
        seq![s]
    } else {
        seq![s.take(n as int)] + first_pieces_of(s.skip(n as int + 1), (count - 1) as nat, c)
    }
}

/// `part` occurs in `s` at position `i`.
pub open spec fn occurs_at(s: Seq<char>, part: Seq<char>, i: int) -> bool {
    0 <= i && i + part.len() <= s.len() && s.subrange(i, i + part.len()) == part
}

/// `part` occurs somewhere in `s`.
pub open spec fn has_part(s: Seq<char>, part: Seq<char>) -> bool {
    exists|i: int| #[trigger] occurs_at(s, part, i)
}

/// `s` begins with `prefix`.
pub open spec fn begins_with(s: Seq<char>, prefix: Seq<char>) -> bool {
    prefix.len() <= s.len() && s.take(prefix.len() as int) == prefix
}

/// The texts of `parts`, in order, with `separator` between neighbours.
pub open spec fn joined(parts: Seq<Seq<char>>, separator: Seq<char>) -> Seq<char>
    decreases parts.len(),
{
    if parts.len() == 0 {
        Seq::empty()
    } else if parts.len() == 1 {
        parts[0]
    } else {
        joined(parts.drop_last(), separator) + separator + parts.last()
    }
}

/// The characters of each of a sequence of string slices.
pub open spec fn texts(v: Seq<&str>) -> Seq<Seq<char>> {
    v.map_values(|s: &str| s@)
}

/// The characters of each of a sequence of strings.
pub open spec fn strings(v: Seq<String>) -> Seq<Seq<char>> {
    v.map_values(|s: String| s@)
}

/// The characters of an optional string.
pub open spec fn opt_text(s: Option<String>) -> Option<Seq<char>> {
    match s {
        Some(t) => Some(t@),
        None => None,
    }
}

/// A prefix of which every element satisfies `p`, and which cannot be made
/// longer, is the one that `span` measures.
pub proof fn lemma_span_is<T>(s: Seq<T>, p: spec_fn(T) -> bool, n: nat)
    requires
        n <= s.len(),
        forall|i: int| 0 <= i < n ==> p(#[trigger] s[i]),
        n < s.len() ==> !p(s[n as int]),
    ensures
        span(s, p) == n,
    decreases n,
{
    if n > 0 {
        let t = s.drop_first();
        assert forall|i: int| 0 <= i < n - 1 implies p(#[trigger] t[i]) by {
            assert(t[i] == s[i + 1]);
        }
        lemma_span_is(t, p, (n - 1) as nat);
    }
}

/// `span` measures a prefix of which every element satisfies `p` and which
/// cannot be made longer.
pub proof fn lemma_span<T>(s: Seq<T>, p: spec_fn(T) -> bool)
    ensures
        span(s, p) <= s.len(),
        forall|i: int| 0 <= i < span(s, p) ==> p(#[trigger] s[i]),
        span(s, p) < s.len() ==> !p(s[span(s, p) as int]),
    decreases s.len(),
{
    if s.len() > 0 && p(s[0]) {
        let t = s.drop_first();
        lemma_span(t, p);
        assert forall|i: int| 0 <= i < span(s, p) implies p(#[trigger] s[i]) by {
            if i > 0 {
                assert(t[i - 1] == s[i]);
            }
        }
    }
}

/// The characters of `s`.
pub fn chars_of(s: &str) -> (r: Vec<char>)
    ensures
        r@ == s@,
{
    let mut r: Vec<char> = Vec::new();
    for c in it: s.chars()
        invariant
            it.seq() == s@,
            r@ == s@.take(it.index() as int),
    {
        r.push(c);
        assert(s@.take(it.index() as int + 1) =~= s@.take(it.index() as int).push(c));
    }
    assert(s@.take(s@.len() as int) =~= s@);
    r
}

/// Is `c` white space?
pub fn is_white_space(c: char) -> (r: bool)
    ensures
        r == is_white(c),
{
    let n: u32 = c as u32;
    (0x09 <= n && n <= 0x0d) || n == 0x20 || n == 0x85 || n == 0xa0 || n == 0x1680 || (0x2000 <= n
        && n <= 0x200a) || n == 0x2028 || n == 0x2029 || n == 0x202f || n == 0x205f || n == 0x3000
}

/// The first position at or after `from` that holds `c`, or the end.
fn position(chars: &Vec<char>, from: usize, c: char) -> (r: usize)
    requires
        from <= chars@.len(),
    ensures
        from <= r <= chars@.len(),
        r - from == span(chars@.skip(from as int), other_than(c)),
        r < chars@.len() ==> chars@[r as int] == c,
{
    let mut i: usize = from;
    while i < chars.len() && chars[i] != c
        invariant
            from <= i <= chars@.len(),
            forall|k: int| from <= k < i ==> chars@[k] != c,
        decreases chars@.len() - i,
    {
        i += 1;
    }
    proof {
        let t = chars@.skip(from as int);
        assert forall|k: int| 0 <= k < i - from implies other_than(c)(#[trigger] t[k]) by {
            assert(t[k] == chars@[from + k]);
        }
        lemma_span_is(t, other_than(c), (i - from) as nat);
    }
    i
}

/// The first position at or after `from` that is white space (`wanted`) or is
/// not (`!wanted`), or the end.
fn white_position(chars: &Vec<char>, from: usize, wanted: bool) -> (r: usize)
    requires
        from <= chars@.len(),
    ensures
        from <= r <= chars@.len(),
        r - from == span(chars@.skip(from as int), if wanted { solid() } else { white() }),
        r < chars@.len() ==> is_white(chars@[r as int]) == wanted,
        forall|k: int| from <= k < r ==> is_white(#[trigger] chars@[k]) != wanted,
{
    let mut i: usize = from;
    while i < chars.len() && is_white_space(chars[i]) != wanted
        invariant
            from <= i <= chars@.len(),
            forall|k: int| from <= k < i ==> is_white(#[trigger] chars@[k]) != wanted,
        decreases chars@.len() - i,
    {
        i += 1;
    }
    proof {
        let t = chars@.skip(from as int);
        let p = if wanted { solid() } else { white() };
        assert forall|k: int| 0 <= k < i - from implies p(#[trigger] t[k]) by {
            assert(t[k] == chars@[from + k]);
        }
        lemma_span_is(t, p, (i - from) as nat);
    }
    i
}

/// The lines of `s`.
pub fn lines<'a>(s: &'a str) -> (r: Vec<&'a str>)
    ensures
        texts(r@) == lines_of(s@),
{
    let chars: Vec<char> = chars_of(s);
    let mut r: Vec<&'a str> = Vec::new();
    let mut i: usize = 0;
    assert(s@.skip(0) =~= s@);
    assert(texts(r@) =~= Seq::empty());
    while i < chars.len()
        invariant
            chars@ == s@,
            i <= s@.len(),
            lines_of(s@) == texts(r@) + lines_of(s@.skip(i as int)),
        decreases s@.len() - i,
    {
        let j: usize = position(&chars, i, '\n');
        let ghost rest = s@.skip(i as int);
        let ghost before = r@;
        if j >= chars.len() {
            let line = s.substring_char(i, j);
            assert(line@ =~= rest);
            r.push(line);
            assert(texts(r@) =~= texts(before).push(line@));
            proof {
                lemma_no_lines();
            }
            assert(s@.skip(s@.len() as int) =~= Seq::empty());
            assert(lines_of(s@) =~= texts(r@) + lines_of(s@.skip(s@.len() as int)));
            i = chars.len();
        } else {
            let end: usize = if j > i && chars[j - 1] == '\r' { j - 1 } else { j };
            let line = s.substring_char(i, end);
            assert(line@ =~= strip_cr(rest.take(j - i)));
            r.push(line);
            assert(texts(r@) =~= texts(before).push(line@));
            assert(rest.skip(j - i + 1) =~= s@.skip(j + 1));
            assert(lines_of(s@) =~= texts(r@) + lines_of(s@.skip(j + 1)));
            i = j + 1;
        }
    }
    proof {
        lemma_no_lines();
        assert(s@.skip(i as int) =~= Seq::empty());
        assert(lines_of(s@) =~= texts(r@));
    }
    r
}

proof fn lemma_no_lines()
    ensures
        lines_of(Seq::empty()) == Seq::<Seq<char>>::empty(),
{
}

/// The words of `s`.
pub fn words<'a>(s: &'a str) -> (r: Vec<&'a str>)
    ensures
        texts(r@) == words_of(s@),
{
    let chars: Vec<char> = chars_of(s);
    let mut r: Vec<&'a str> = Vec::new();
    let mut i: usize = 0;
    assert(s@.skip(0) =~= s@);
    assert(texts(r@) =~= Seq::empty());
    while i < chars.len()
        invariant
            chars@ == s@,
            i <= s@.len(),
            words_of(s@) == texts(r@) + words_of(s@.skip(i as int)),
        decreases s@.len() - i,
    {
        let ghost rest = s@.skip(i as int);
        if is_white_space(chars[i]) {
            assert(rest.drop_first() =~= s@.skip(i + 1));
            i = i + 1;
        } else {
            let ghost before = r@;
            let j: usize = white_position(&chars, i, true);
            let word = s.substring_char(i, j);
            assert(word@ =~= rest.take(j - i));
            r.push(word);
            assert(texts(r@) =~= texts(before).push(word@));
            assert(rest.skip(j - i) =~= s@.skip(j as int));
            assert(j > i);
            assert(words_of(s@) =~= texts(r@) + words_of(s@.skip(j as int)));
            i = j;
        }
    }
    proof {
        assert(s@.skip(i as int) =~= Seq::empty());
        assert(words_of(s@) =~= texts(r@));
    }
    r
}

/// The pieces of `s` between the occurrences of `c`.
pub fn pieces<'a>(s: &'a str, c: char) -> (r: Vec<&'a str>)
    ensures
        texts(r@) == pieces_of(s@, c),
{
    let chars: Vec<char> = chars_of(s);
    let mut r: Vec<&'a str> = Vec::new();
    let mut i: usize = 0;
    assert(s@.skip(0) =~= s@);
    assert(texts(r@) =~= Seq::empty());
    let mut j: usize = position(&chars, 0, c);
    assert(texts(r@) + pieces_of(s@, c) =~= pieces_of(s@, c));
    while j < chars.len()
        invariant
            chars@ == s@,
            i <= j <= s@.len(),
            j - i == span(s@.skip(i as int), other_than(c)),
            j < s@.len() ==> s@[j as int] == c,
            pieces_of(s@, c) == texts(r@) + pieces_of(s@.skip(i as int), c),
        decreases s@.len() - j,
    {
        let ghost rest = s@.skip(i as int);
        let ghost before = r@;
        let piece = s.substring_char(i, j);
        assert(piece@ =~= rest.take(j - i));
        r.push(piece);
        assert(texts(r@) =~= texts(before).push(piece@));
        assert(rest.skip(j - i + 1) =~= s@.skip(j + 1));
        assert(pieces_of(s@, c) =~= texts(r@) + pieces_of(s@.skip(j + 1), c));
        i = j + 1;
        j = position(&chars, i, c);
    }
    let ghost before = r@;
    let piece = s.substring_char(i, j);
    assert(piece@ =~= s@.skip(i as int));
    r.push(piece);
    assert(texts(r@) =~= texts(before).push(piece@));
    assert(pieces_of(s@, c) =~= texts(r@));
    r
}

/// At most `count` pieces of `s` between occurrences of `c`.
pub fn first_pieces<'a>(s: &'a str, count: usize, c: char) -> (r: Vec<&'a str>)
    ensures
        texts(r@) == first_pieces_of(s@, count as nat, c),
{
    let mut r: Vec<&'a str> = Vec::new();
    assert(texts(r@) =~= Seq::empty());
    if count == 0 {
        return r;
    }
    let chars: Vec<char> = chars_of(s);
    let mut i: usize = 0;
    let mut left: usize = count;
    assert(s@.skip(0) =~= s@);
    let mut j: usize = position(&chars, 0, c);
    assert(texts(r@) + first_pieces_of(s@, count as nat, c) =~= first_pieces_of(s@, count as nat, c));
    while left > 1 && j < chars.len()
        invariant
            chars@ == s@,
            i <= j <= s@.len(),
            left >= 1,
            j - i == span(s@.skip(i as int), other_than(c)),
            first_pieces_of(s@, count as nat, c) == texts(r@) + first_pieces_of(
                s@.skip(i as int),
                left as nat,
                c,
            ),
        decreases left,
    {
        let ghost rest = s@.skip(i as int);
        let ghost before = r@;
        let piece = s.substring_char(i, j);
        assert(piece@ =~= rest.take(j - i));
        r.push(piece);
        assert(texts(r@) =~= texts(before).push(piece@));
        assert(rest.skip(j - i + 1) =~= s@.skip(j + 1));
        left = left - 1;
        assert(first_pieces_of(s@, count as nat, c) =~= texts(r@) + first_pieces_of(
            s@.skip(j + 1),
            left as nat,
            c,
        ));
        i = j + 1;
        j = position(&chars, i, c);
    }
    let ghost before = r@;
    let piece = s.substring_char(i, chars.len());
    assert(piece@ =~= s@.skip(i as int));
    r.push(piece);
    assert(texts(r@) =~= texts(before).push(piece@));
    assert(first_pieces_of(s@, count as nat, c) =~= texts(r@));
    r
}

proof fn lemma_drop_trailing_is(s: Seq<char>, p: spec_fn(char) -> bool, n: nat)
    requires
        n <= s.len(),
        forall|i: int| n <= i < s.len() ==> p(#[trigger] s[i]),
        n > 0 ==> !p(s[n - 1]),
    ensures
        drop_trailing(s, p) == s.take(n as int),
    decreases s.len(),
{
    if n < s.len() {
        lemma_drop_trailing_is(s.drop_last(), p, n);
        assert(s.drop_last().take(n as int) =~= s.take(n as int));
    } else {
        assert(s.take(n as int) =~= s);
    }
}

/// `s` without leading and trailing white space.
pub fn trim<'a>(s: &'a str) -> (r: &'a str)
    ensures
        r@ == trimmed(s@),
{
    let chars: Vec<char> = chars_of(s);
    assert(s@.skip(0) =~= s@);
    let start: usize = white_position(&chars, 0, false);
    let mut end: usize = chars.len();
    while end > start && is_white_space(chars[end - 1])
        invariant
            chars@ == s@,
            start <= end <= s@.len(),
            forall|k: int| end <= k < s@.len() ==> is_white(#[trigger] s@[k]),
        decreases end,
    {
        end -= 1;
    }
    let r = s.substring_char(start, end);
    proof {
        let t = s@.skip(start as int);
        assert forall|k: int| end - start <= k < t.len() implies white()(#[trigger] t[k]) by {
            assert(t[k] == s@[start + k]);
        }
        lemma_drop_trailing_is(t, white(), (end - start) as nat);
        assert(t.take(end - start) =~= r@);
    }
    r
}

/// `s` without the occurrences of `c` at its end.
pub fn trim_end<'a>(s: &'a str, c: char) -> (r: &'a str)
    ensures
        r@ == drop_trailing(s@, only(c)),
{
    let chars: Vec<char> = chars_of(s);
    let mut end: usize = chars.len();
    while end > 0 && chars[end - 1] == c
        invariant
            chars@ == s@,
            end <= s@.len(),
            forall|k: int| end <= k < s@.len() ==> #[trigger] s@[k] == c,
        decreases end,
    {
        end -= 1;
    }
    let r = s.substring_char(0, end);
    proof {
        lemma_drop_trailing_is(s@, only(c), end as nat);
        assert(s@.take(end as int) =~= r@);
    }
    r
}

/// Does `part` stand in `chars` at position `from`?
fn stands_at(chars: &Vec<char>, part: &Vec<char>, from: usize) -> (r: bool)
    requires
        from <= chars@.len(),
    ensures
        r == occurs_at(chars@, part@, from as int),
{
    if part.len() > chars.len() - from {
        return false;
    }
    let total: usize = chars.len();
    let mut i: usize = 0;
    while i < part.len()
        invariant
            total == chars@.len(),
            from + part@.len() <= total,
            i <= part@.len(),
            forall|k: int| 0 <= k < i ==> chars@[from + k] == part@[k],
        decreases part@.len() - i,
    {
        if chars[from + i] != part[i] {
            assert(chars@.subrange(from as int, from + part@.len())[i as int] != part@[i as int]);
            return false;
        }
        i += 1;
    }
    assert(chars@.subrange(from as int, from + part@.len()) =~= part@);
    true
}

/// Does `part` occur in `s`?
pub fn contains(s: &str, part: &str) -> (r: bool)
    ensures
        r == has_part(s@, part@),
{
    let chars: Vec<char> = chars_of(s);
    let wanted: Vec<char> = chars_of(part);
    let mut i: usize = 0;
    while i <= chars.len()
        invariant
            chars@ == s@,
            wanted@ == part@,
            i <= s@.len() + 1,
            forall|k: int| 0 <= k < i ==> !#[trigger] occurs_at(s@, part@, k),
        decreases s@.len() + 1 - i,
    {
        if stands_at(&chars, &wanted, i) {
            return true;
        }
        if i == chars.len() {
            return false;
        }
        i += 1;
    }
    false
}

/// Does `s` begin with `prefix`?
pub fn starts_with(s: &str, prefix: &str) -> (r: bool)
    ensures
        r == begins_with(s@, prefix@),
{
    let chars: Vec<char> = chars_of(s);
    let wanted: Vec<char> = chars_of(prefix);
    let r = stands_at(&chars, &wanted, 0);
    proof {
        if prefix@.len() <= s@.len() {
            assert(s@.subrange(0, prefix@.len() as int) =~= s@.take(prefix@.len() as int));
        }
    }
    r
}

/// Are `a` and `b` the same text?
pub fn same_text(a: &str, b: &str) -> (r: bool)
    ensures
        r == (a@ == b@),
{
    let x: Vec<char> = chars_of(a);
    let y: Vec<char> = chars_of(b);
    if x.len() != y.len() {
        return false;
    }
    let r = stands_at(&x, &y, 0);
    assert(x@.subrange(0, x@.len() as int) =~= x@);
    r
}

/// Are `a` and `b` both absent, or both the same text?
pub fn same_option(a: &Option<String>, b: &Option<String>) -> (r: bool)
    ensures
        r == (opt_text(*a) == opt_text(*b)),
{
    match (a, b) {
        (Some(x), Some(y)) => same_text(x.as_str(), y.as_str()),
        (None, None) => true,
        _ => false,
    }
}

/// A copy of an optional string.
pub fn copy_option(s: &Option<String>) -> (r: Option<String>)
    ensures
        opt_text(r) == opt_text(*s),
{
    match s {
        Some(t) => Some(t.clone()),
        None => None,
    }
}

/// A copy of a list of strings.
pub fn copy_strings(v: &Vec<String>) -> (r: Vec<String>)
    ensures
        strings(r@) == strings(v@),
{
    let mut r: Vec<String> = Vec::new();
    let mut i: usize = 0;
    assert(strings(r@) =~= strings(v@).take(0));
    while i < v.len()
        invariant
            i <= v@.len(),
            strings(r@) == strings(v@).take(i as int),
        decreases v@.len() - i,
    {
        let ghost before = r@;
        r.push(v[i].clone());
        assert(strings(r@) =~= strings(before).push(v@[i as int]@));
        assert(strings(v@).take(i + 1) =~= strings(v@).take(i as int).push(v@[i as int]@));
        i += 1;
    }
    assert(strings(v@).take(i as int) =~= strings(v@));
    r
}

/// Owned copies of a list of string slices.
pub fn owned(v: &Vec<&str>) -> (r: Vec<String>)
    ensures
        strings(r@) == texts(v@),
{
    let mut r: Vec<String> = Vec::new();
    let mut i: usize = 0;
    assert(strings(r@) =~= texts(v@).take(0));
    while i < v.len()
        invariant
            i <= v@.len(),
            strings(r@) == texts(v@).take(i as int),
        decreases v@.len() - i,
    {
        let ghost before = r@;
        r.push(v[i].to_string());
        assert(strings(r@) =~= strings(before).push(v@[i as int]@));
        assert(texts(v@).take(i + 1) =~= texts(v@).take(i as int).push(v@[i as int]@));
        i += 1;
    }
    assert(texts(v@).take(i as int) =~= texts(v@));
    r
}

/// Is `s` one of the strings of `v`?
pub fn lists(v: &Vec<String>, s: &str) -> (r: bool)
    ensures
        r == strings(v@).contains(s@),
{
    let mut i: usize = 0;
    while i < v.len()
        invariant
            i <= v@.len(),
            forall|k: int| 0 <= k < i ==> #[trigger] strings(v@)[k] != s@,
        decreases v@.len() - i,
    {
        if same_text(v[i].as_str(), s) {
            assert(strings(v@)[i as int] == s@);
            return true;
        }
        assert(strings(v@)[i as int] == v@[i as int]@);
        i += 1;
    }
    false
}

/// Do `a` and `b` hold the same strings in the same order?
pub fn same_strings(a: &Vec<String>, b: &Vec<String>) -> (r: bool)
    ensures
        r == (strings(a@) == strings(b@)),
{
    if a.len() != b.len() {
        assert(strings(a@).len() != strings(b@).len());
        return false;
    }
    let mut i: usize = 0;
    while i < a.len()
        invariant
            a@.len() == b@.len(),
            i <= a@.len(),
            forall|k: int| 0 <= k < i ==> #[trigger] strings(a@)[k] == strings(b@)[k],
        decreases a@.len() - i,
    {
        if !same_text(a[i].as_str(), b[i].as_str()) {
            assert(strings(a@)[i as int] != strings(b@)[i as int]);
            return false;
        }
        i += 1;
    }
    assert(strings(a@) =~= strings(b@));
    true
}

/// The strings of `v`, in order, with `separator` between neighbours.
pub fn join(v: &Vec<String>, separator: &str) -> (r: String)
    ensures
        r@ == joined(strings(v@), separator@),
{
    let mut r: String = String::new();
    let mut i: usize = 0;
    assert(strings(v@).take(0) =~= Seq::empty());
    while i < v.len()
        invariant
            i <= v@.len(),
            r@ == joined(strings(v@).take(i as int), separator@),
        decreases v@.len() - i,
    {
        let ghost parts = strings(v@).take(i + 1);
        assert(parts.drop_last() =~= strings(v@).take(i as int));
        assert(parts.last() == v@[i as int]@);
        if i > 0 {
            r.append(separator);
            r.append(v[i].as_str());
        } else {
            r.append(v[i].as_str());
            assert(r@ =~= v@[0]@);
        }
        i += 1;
    }
    assert(strings(v@).take(i as int) =~= strings(v@));
    r
}

/// Cutting at a separator that stands between two texts cuts each of them.
pub proof fn lemma_pieces_join<T>(a: Seq<T>, b: Seq<T>, c: T)
    ensures
        pieces_of(a.push(c) + b, c) == pieces_of(a, c) + pieces_of(b, c),
    decreases a.len(),
{
    let s = a.push(c) + b;
    let p = other_than(c);
    let n = span(a, p);
    lemma_span(a, p);
    assert forall|i: int| 0 <= i < n implies p(#[trigger] s[i]) by {
        assert(s[i] == a[i]);
    }
    assert(s[n as int] == c) by {
        if n < a.len() {
            assert(s[n as int] == a[n as int]);
        }
    }
    lemma_span_is(s, p, n);
    assert(s.take(n as int) =~= a.take(n as int));
    if n >= a.len() {
        assert(a.take(n as int) =~= a);
        assert(s.skip(n as int + 1) =~= b);
    } else {
        let rest = a.skip(n as int + 1);
        assert(s.skip(n as int + 1) =~= rest.push(c) + b);
        lemma_pieces_join(rest, b, c);
        assert(pieces_of(s, c) =~= pieces_of(a, c) + pieces_of(b, c));
    }
}

/// A word behind a space is one word more.
proof fn lemma_words_push(s: Seq<char>, word: Seq<char>)
    requires
        word.len() > 0,
        forall|i: int| 0 <= i < word.len() ==> !is_white(#[trigger] word[i]),
    ensures
        words_of(s.push(' ') + word) == words_of(s).push(word),
    decreases s.len(),
{
    let all = s.push(' ') + word;
    if s.len() == 0 {
        assert(all[0] == ' ');
        assert(all.drop_first() =~= word);
        lemma_single_word(word);
        assert(words_of(all) =~= words_of(s).push(word));
    } else if is_white(s[0]) {
        assert(all[0] == s[0]);
        assert(all.drop_first() =~= s.drop_first().push(' ') + word);
        lemma_words_push(s.drop_first(), word);
    } else {
        let n = span(s, solid());
        lemma_span(s, solid());
        assert(n > 0);
        assert forall|i: int| 0 <= i < n implies solid()(#[trigger] all[i]) by {
            assert(all[i] == s[i]);
        }
        assert(is_white(all[n as int])) by {
            if n < s.len() {
                assert(all[n as int] == s[n as int]);
            }
        }
        lemma_span_is(all, solid(), n);
        assert(all[0] == s[0]);
        assert(all.take(n as int) =~= s.take(n as int));
        assert(all.skip(n as int) =~= s.skip(n as int).push(' ') + word);
        lemma_words_push(s.skip(n as int), word);
        assert(words_of(all) =~= words_of(s).push(word));
    }
}

proof fn lemma_single_word(word: Seq<char>)
    requires
        word.len() > 0,
        forall|i: int| 0 <= i < word.len() ==> !is_white(#[trigger] word[i]),
    ensures
        words_of(word) == seq![word],
{
    assert forall|i: int| 0 <= i < word.len() implies solid()(#[trigger] word[i]) by {}
    lemma_span_is(word, solid(), word.len());
    assert(word.take(word.len() as int) =~= word);
    assert(word.skip(word.len() as int) =~= Seq::empty());
    assert(words_of(Seq::empty()) == Seq::<Seq<char>>::empty());
    assert(words_of(word) =~= seq![word]);
}

/// Words that are written with spaces between them are read back as they are.
pub proof fn law_words_read_back(list: Seq<Seq<char>>)
    requires
        forall|i: int|
            0 <= i < list.len() ==> (#[trigger] list[i]).len() > 0 && forall|k: int|
                0 <= k < list[i].len() ==> !is_white(#[trigger] list[i][k]),
    ensures
        words_of(joined(list, seq![' '])) == list,
    decreases list.len(),
{
    if list.len() == 0 {
        assert(list =~= Seq::empty());
        assert(words_of(Seq::empty()) == Seq::<Seq<char>>::empty());
    } else if list.len() == 1 {
        lemma_single_word(list[0]);
        assert(list =~= seq![list[0]]);
    } else {
        let rest = list.drop_last();
        assert forall|i: int| 0 <= i < rest.len() implies (#[trigger] rest[i]).len() > 0 && forall|
            k: int,
        |
            0 <= k < rest[i].len() ==> !is_white(#[trigger] rest[i][k]) by {
            assert(rest[i] == list[i]);
        }
        law_words_read_back(rest);
        let before = joined(rest, seq![' ']);
        assert(before + seq![' '] + list.last() =~= before.push(' ') + list.last());
        lemma_words_push(before, list.last());
        assert(rest.push(list.last()) =~= list);
    }
}

/// Joining two lists is joining each, with the separator between them.
pub proof fn law_joined(a: Seq<Seq<char>>, b: Seq<Seq<char>>, x: Seq<char>, separator: Seq<char>)
    ensures
        joined(Seq::empty(), separator) == Seq::<char>::empty(),
        joined(seq![x], separator) == x,
        a.len() > 0 && b.len() > 0 ==> joined(a + b, separator) == joined(a, separator) + separator
            + joined(b, separator),
    decreases b.len(),
{
    if a.len() > 0 && b.len() > 0 {
        assert((a + b).drop_last() =~= a + b.drop_last());
        assert((a + b).last() == b.last());
        if b.len() == 1 {
            assert(a + b.drop_last() =~= a);
        } else {
            law_joined(a, b.drop_last(), x, separator);
        }
        assert(joined(a + b, separator) =~= joined(a, separator) + separator + joined(b, separator));
    }
}

/// White space cuts: the words of two texts with white space between them are
/// the words of the one and then those of the other. A text without white space
/// is one word, unless it is empty.
pub proof fn law_words_cut(a: Seq<char>, c: char, b: Seq<char>, word: Seq<char>)
    requires
        is_white(c),
        forall|i: int| 0 <= i < word.len() ==> !is_white(#[trigger] word[i]),
    ensures
        words_of(a.push(c) + b) == words_of(a) + words_of(b),
        words_of(word) == if word.len() > 0 {
            seq![word]
        } else {
            Seq::empty()
        },
    decreases a.len(),
{
    if word.len() > 0 {
        lemma_single_word(word);
    }
    let all = a.push(c) + b;
    assert(words_of(Seq::empty()) == Seq::<Seq<char>>::empty());
    if a.len() == 0 {
        assert(all[0] == c);
        assert(all.drop_first() =~= b);
        assert(words_of(all) =~= words_of(a) + words_of(b));
    } else if is_white(a[0]) {
        assert(all[0] == a[0]);
        assert(all.drop_first() =~= a.drop_first().push(c) + b);
        law_words_cut(a.drop_first(), c, b, word);
    } else {
        let n = span(a, solid());
        lemma_span(a, solid());
        assert(n > 0);
        assert forall|i: int| 0 <= i < n implies solid()(#[trigger] all[i]) by {
            assert(all[i] == a[i]);
        }
        assert(is_white(all[n as int])) by {
            if n < a.len() {
                assert(all[n as int] == a[n as int]);
            }
        }
        lemma_span_is(all, solid(), n);
        assert(all[0] == a[0]);
        assert(all.take(n as int) =~= a.take(n as int));
        assert(all.skip(n as int) =~= a.skip(n as int).push(c) + b);
        law_words_cut(a.skip(n as int), c, b, word);
        assert(words_of(all) =~= words_of(a) + words_of(b));
    }
}

/// A line feed ends a line, and takes a carriage return before it along; what
/// follows the last line feed is a line unless it is empty, with its carriage
/// return.
pub proof fn law_lines_cut(line: Seq<char>, rest: Seq<char>)
    requires
        !line.contains('\n'),
    ensures
        lines_of(line.push('\n') + rest) == seq![strip_cr(line)] + lines_of(rest),
        lines_of(line) == if line.len() > 0 {
            seq![line]
        } else {
            Seq::empty()
        },
        strip_cr(line.push('\r')) == line,
        line.len() == 0 || line.last() != '\r' ==> strip_cr(line) == line,
{
    let s = line.push('\n') + rest;
    let p = other_than('\n');
    assert forall|i: int| 0 <= i < line.len() implies p(#[trigger] s[i]) by {
        assert(s[i] == line[i]);
        assert(line.contains(line[i]));
    }
    assert forall|i: int| 0 <= i < line.len() implies p(#[trigger] line[i]) by {
        assert(line.contains(line[i]));
    }
    assert(s[line.len() as int] == '\n');
    lemma_span_is(s, p, line.len());
    lemma_span_is(line, p, line.len());
    assert(s.take(line.len() as int) =~= line);
    assert(s.skip(line.len() as int + 1) =~= rest);
    assert(line.push('\r').drop_last() =~= line);
}

/// The pieces, with the separator put back between them, are the text, and none
/// of them holds the separator. A text without the separator is one piece, and
/// a separator cuts.
pub proof fn law_pieces_rejoin(s: Seq<char>, c: char)
    ensures
        joined(pieces_of(s, c), seq![c]) == s,
        pieces_of(s, c).len() > 0,
        forall|i: int| 0 <= i < pieces_of(s, c).len() ==> !(#[trigger] pieces_of(s, c)[i]).contains(c),
        !s.contains(c) ==> pieces_of(s, c) == seq![s],
    decreases s.len(),
{
    let p = other_than(c);
    let n = span(s, p);
    lemma_span(s, p);
    let head = s.take(n as int);
    assert(!head.contains(c)) by {
        if head.contains(c) {
            let i = choose|i: int| 0 <= i < head.len() && head[i] == c;
            assert(p(s[i]));
        }
    }
    if n >= s.len() {
        assert(head =~= s);
        assert(pieces_of(s, c) =~= seq![s]);
    } else {
        let rest = s.skip(n as int + 1);
        law_pieces_rejoin(rest, c);
        let tail = pieces_of(rest, c);
        law_joined(seq![head], tail, head, seq![c]);
        assert(s =~= head + seq![c] + rest);
        assert(s.contains(c)) by {
            assert(s[n as int] == c);
        }
        assert forall|i: int| 0 <= i < pieces_of(s, c).len() implies !(#[trigger] pieces_of(
            s,
            c,
        )[i]).contains(c) by {
            if i > 0 {
                assert(pieces_of(s, c)[i] == tail[i - 1]);
            }
        }
    }
}

/// The first pieces, with the separator put back between them, are the text.
/// There are at most as many as asked for; only the last can hold the separator,
/// and only where there are as many as asked for.
pub proof fn law_first_pieces_rejoin(s: Seq<char>, count: nat, c: char)
    ensures
        count == 0 ==> first_pieces_of(s, count, c).len() == 0,
        count > 0 ==> joined(first_pieces_of(s, count, c), seq![c]) == s,
        count > 0 ==> 0 < first_pieces_of(s, count, c).len() <= count,
        forall|i: int|
            0 <= i < first_pieces_of(s, count, c).len() && (i < first_pieces_of(s, count, c).len() - 1
                || first_pieces_of(s, count, c).len() < count) ==> !(#[trigger] first_pieces_of(
                s,
                count,
                c,
            )[i]).contains(c),
    decreases count,
{
    let p = other_than(c);
    let n = span(s, p);
    lemma_span(s, p);
    let head = s.take(n as int);
    let all = first_pieces_of(s, count, c);
    assert(!head.contains(c)) by {
        if head.contains(c) {
            let i = choose|i: int| 0 <= i < head.len() && head[i] == c;
            assert(p(s[i]));
        }
    }
    if count > 1 && n < s.len() {
        let rest = s.skip(n as int + 1);
        let less = (count - 1) as nat;
        law_first_pieces_rejoin(rest, less, c);
        let tail = first_pieces_of(rest, less, c);
        law_joined(seq![head], tail, head, seq![c]);
        assert(s =~= head + seq![c] + rest);
        assert forall|i: int|
            0 <= i < all.len() && (i < all.len() - 1 || all.len() < count) implies !(
        #[trigger] all[i]).contains(c) by {
            if i > 0 {
                assert(all[i] == tail[i - 1]);
            }
        }
    } else {
        assert(n >= s.len() ==> head =~= s);
    }
}

/// Columns that do not hold the separator, and a last one that may where no more
/// are asked for, are read back as they are.
pub proof fn law_first_pieces_read_back(list: Seq<Seq<char>>, count: nat, c: char)
    requires
        0 < list.len() <= count,
        forall|i: int|
            0 <= i < list.len() && (i < list.len() - 1 || list.len() < count) ==> !(
            #[trigger] list[i]).contains(c),
    ensures
        first_pieces_of(joined(list, seq![c]), count, c) == list,
    decreases list.len(),
{
    let p = other_than(c);
    let head = list[0];
    if list.len() == 1 {
        assert(list =~= seq![head]);
        if count > 1 {
            assert forall|i: int| 0 <= i < head.len() implies p(#[trigger] head[i]) by {
                assert(head.contains(head[i]));
            }
            lemma_span_is(head, p, head.len());
        }
    } else {
        let tail = list.drop_first();
        let less = (count - 1) as nat;
        assert forall|i: int|
            0 <= i < tail.len() && (i < tail.len() - 1 || tail.len() < less) implies !(
        #[trigger] tail[i]).contains(c) by {
            assert(tail[i] == list[i + 1]);
        }
        law_first_pieces_read_back(tail, less, c);
        assert(list =~= seq![head] + tail);
        law_joined(seq![head], tail, head, seq![c]);
        let rest = joined(tail, seq![c]);
        let s = joined(list, seq![c]);
        assert(s =~= head + seq![c] + rest);
        assert forall|i: int| 0 <= i < head.len() implies p(#[trigger] s[i]) by {
            assert(s[i] == head[i]);
            assert(head.contains(head[i]));
        }
        assert(s[head.len() as int] == c);
        lemma_span_is(s, p, head.len());
        assert(s.take(head.len() as int) =~= head);
        assert(s.skip(head.len() as int + 1) =~= rest);
        assert(first_pieces_of(s, count, c) =~= list);
    }
}

/// Trimming takes away the white space on both sides and nothing else.
pub proof fn law_trim(before: Seq<char>, text: Seq<char>, after: Seq<char>)
    requires
        forall|i: int| 0 <= i < before.len() ==> is_white(#[trigger] before[i]),
        forall|i: int| 0 <= i < after.len() ==> is_white(#[trigger] after[i]),
        text.len() > 0 ==> !is_white(text[0]) && !is_white(text.last()),
    ensures
        trimmed(before + text + after) == text,
{
    let s = before + text + after;
    let n: nat = if text.len() > 0 {
        before.len()
    } else {
        s.len()
    };
    assert forall|i: int| 0 <= i < n implies white()(#[trigger] s[i]) by {
        if i < before.len() {
            assert(s[i] == before[i]);
        } else {
            assert(s[i] == after[i - before.len()]);
        }
    }
    if text.len() > 0 {
        assert(s[n as int] == text[0]);
    }
    lemma_span_is(s, white(), n);
    let t = s.skip(n as int);
    assert forall|i: int| text.len() <= i < t.len() implies white()(#[trigger] t[i]) by {
        assert(t[i] == after[i - text.len()]);
    }
    if text.len() > 0 {
        assert(t[text.len() - 1] == text.last());
    }
    lemma_drop_trailing_is(t, white(), text.len());
    assert(t.take(text.len() as int) =~= text);
}

/// Dropping a trailing character takes away all of it at the end and nothing
/// else.
pub proof fn law_drop_trailing(text: Seq<char>, c: char, count: nat)
    requires
        text.len() == 0 || text.last() != c,
    ensures
        drop_trailing(text + Seq::new(count, |i: int| c), only(c)) == text,
{
    let s = text + Seq::new(count, |i: int| c);
    assert forall|i: int| text.len() <= i < s.len() implies only(c)(#[trigger] s[i]) by {}
    if text.len() > 0 {
        assert(s[text.len() - 1] == text.last());
    }
    lemma_drop_trailing_is(s, only(c), text.len());
    assert(s.take(text.len() as int) =~= text);
}

/// A text has the parts that it can be cut around, and begins with what it can
/// be cut behind, and with nothing else.
pub proof fn law_parts_of_text(s: Seq<char>, a: Seq<char>, part: Seq<char>, b: Seq<char>)
    ensures
        has_part(a + part + b, part),
        has_part(s, part) ==> exists|x: Seq<char>, y: Seq<char>| s == #[trigger] ((x + part) + y),
        begins_with(part + b, part),
        begins_with(s, part) ==> exists|y: Seq<char>| s == #[trigger] (part + y),
        part.len() > s.len() ==> !has_part(s, part) && !begins_with(s, part),
{
    let all = a + part + b;
    assert(all.subrange(a.len() as int, a.len() as int + part.len()) =~= part);
    assert(occurs_at(all, part, a.len() as int));
    assert((part + b).take(part.len() as int) =~= part);
    if has_part(s, part) {
        let i = choose|i: int| #[trigger] occurs_at(s, part, i);
        let x = s.take(i);
        let y = s.skip(i + part.len());
        assert(s =~= (x + part) + y) by {
            assert(s.subrange(i, i + part.len()) == part);
            assert forall|k: int| 0 <= k < s.len() implies s[k] == ((x + part) + y)[k] by {
                if i <= k < i + part.len() {
                    assert(s.subrange(i, i + part.len())[k - i] == s[k]);
                }
            }
        }
    }
    if begins_with(s, part) {
        let y = s.skip(part.len() as int);
        assert(s =~= part + y) by {
            assert(s.take(part.len() as int) == part);
            assert forall|k: int| 0 <= k < s.len() implies s[k] == (part + y)[k] by {
                if k < part.len() {
                    assert(s.take(part.len() as int)[k] == s[k]);
                }
            }
        }
    }
}

/// Lists of texts and optional texts are seen text by text.
pub proof fn law_texts_are_seen(v: Seq<String>, w: Seq<&str>, s: String, i: int)
    ensures
        strings(v).len() == v.len(),
        texts(w).len() == w.len(),
        0 <= i < v.len() ==> strings(v)[i] == v[i]@,
        0 <= i < w.len() ==> texts(w)[i] == w[i]@,
        opt_text(Some(s)) == Some(s@),
        opt_text(None) is None,
{
}

} // verus!
