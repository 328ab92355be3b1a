//! Splitting and trimming of text, stated over sequences of characters.

use vstd::prelude::*;

verus! {

/// `String::push` appends one character to the end of the string.
pub assume_specification[ String::push ](s: &mut String, c: char)
    ensures
        final(s)@ == old(s)@.push(c),
;

/// The pieces of `s` between occurrences of `sep`, in order. There is always
/// at least one piece, and one more piece than there are separators.
pub open spec fn split_on(s: Seq<char>, sep: char) -> Seq<Seq<char>>
    decreases s.len(),
{
    if s.len() == 0 {
        seq![Seq::<char>::empty()]
    } else {
        let before = split_on(s.drop_last(), sep);
        if s.last() == sep {
            before.push(Seq::<char>::empty())
        } else {
            before.drop_last().push(before.last().push(s.last()))
        }
    }
}

/// The pieces put back together with `sep` between neighbours.
pub open spec fn join_with(parts: Seq<Seq<char>>, sep: char) -> Seq<char>
    decreases parts.len(),
{
    if parts.len() == 0 {
        Seq::<char>::empty()
    } else if parts.len() == 1 {
        parts[0]
    } else {
        join_with(parts.drop_last(), sep).push(sep) + parts.last()
    }
}

/// Unicode's `White_Space` property, which is what trimming removes.
pub open spec fn is_space(c: char) -> bool {
    let n = c as u32;
    ||| 0x09 <= n <= 0x0D
    ||| n == 0x20
    ||| n == 0x85
    ||| n == 0xA0
    ||| n == 0x1680
    ||| 0x2000 <= n <= 0x200A
    ||| n == 0x2028
    ||| n == 0x2029
    ||| n == 0x202F
    ||| n == 0x205F
    ||| n == 0x3000
}

/// `s` without its leading white space.
pub open spec fn trim_front(s: Seq<char>) -> Seq<char>
    decreases s.len(),
{
    if s.len() > 0 && is_space(s[0]) {
        trim_front(s.drop_first())
    } else {
        s
    }
}

/// `s` without its trailing white space.
pub open spec fn trim_back(s: Seq<char>) -> Seq<char>
    decreases s.len(),
{
    if s.len() > 0 && is_space(s.last()) {
        trim_back(s.drop_last())
    } else {
        s
    }
}

/// `s` without leading and trailing white space.
pub open spec fn trimmed(s: Seq<char>) -> Seq<char> {
    trim_back(trim_front(s))
}

/// A line without the carriage return that may precede its line feed.
pub open spec fn strip_cr(line: Seq<char>) -> Seq<char> {
    if line.len() > 0 && line.last() == '\r' {
        line.drop_last()
    } else {
        line
    }
}

/// The lines of `s`. A line ends at a line feed; a carriage return directly
/// before that line feed belongs to the line ending. What follows the last
/// line feed is a line of its own unless it is empty.
pub open spec fn lines_of(s: Seq<char>) -> Seq<Seq<char>> {
    let parts = split_on(s, '\n');
    let ended = parts.drop_last().map_values(|p: Seq<char>| strip_cr(p));
    if parts.last().len() == 0 {
        ended
    } else {
        ended.push(parts.last())
    }
}

/// Splitting never yields an empty list of pieces.
pub proof fn lemma_split_nonempty(s: Seq<char>, sep: char)
    ensures
        split_on(s, sep).len() >= 1,
    decreases s.len(),
{
    if s.len() > 0 {
        lemma_split_nonempty(s.drop_last(), sep);
    }
}

/// Splitting loses nothing: the pieces joined by the separator give the text
/// back, and no piece holds a separator.
pub proof fn lemma_split_join(s: Seq<char>, sep: char)
    ensures
        join_with(split_on(s, sep), sep) == s,
        forall|i: int, j: int|
            0 <= i < split_on(s, sep).len() && 0 <= j < split_on(s, sep)[i].len()
                ==> split_on(s, sep)[i][j] != sep,
    decreases s.len(),
{
    if s.len() > 0 {
        let head = s.drop_last();
        let before = split_on(head, sep);
        let now = split_on(s, sep);
        lemma_split_nonempty(head, sep);
        lemma_split_join(head, sep);
        if s.last() == sep {
            assert(now.drop_last() =~= before);
        } else if before.len() > 1 {
            assert(now.drop_last() =~= before.drop_last());
            assert(head.push(s.last()) =~= s);
        }
    }
}

/// Dropping leading white space leaves a suffix that starts at the first
/// character that is not white space.
proof fn lemma_trim_front_at(s: Seq<char>, a: int)
    requires
        0 <= a <= s.len(),
        forall|i: int| 0 <= i < a ==> is_space(#[trigger] s[i]),
        a < s.len() ==> !is_space(s[a]),
    ensures
        trim_front(s) == s.subrange(a, s.len() as int),
    decreases a,
{
    if a > 0 {
        let rest = s.drop_first();
        assert forall|i: int| 0 <= i < a - 1 implies is_space(#[trigger] rest[i]) by {}
        lemma_trim_front_at(rest, a - 1);
    }
}

/// Dropping trailing white space leaves a prefix that ends behind the last
/// character that is not white space.
proof fn lemma_trim_back_at(s: Seq<char>, b: int)
    requires
        0 <= b <= s.len(),
        forall|i: int| b <= i < s.len() ==> is_space(#[trigger] s[i]),
        b > 0 ==> !is_space(s[b - 1]),
    ensures
        trim_back(s) == s.subrange(0, b),
    decreases s.len() - b,
{
    if b < s.len() {
        lemma_trim_back_at(s.drop_last(), b);
    }
}

/// Whether `c` is white space.
pub fn space(c: char) -> (r: bool)
    ensures
        r == is_space(c),
{
    let n: u32 = c as u32;
    (0x09 <= n && n <= 0x0D) || n == 0x20 || n == 0x85 || n == 0xA0 || n == 0x1680 || (0x2000 <= n
        && n <= 0x200A) || n == 0x2028 || n == 0x2029 || n == 0x202F || n == 0x205F || n == 0x3000
}

/// The characters of a string, in order.
pub fn chars_of(s: &str) -> (v: Vec<char>)
    ensures
        v@ == s@,
{
    broadcast use vstd::string::group_string_axioms;

    let mut v: Vec<char> = Vec::new();
    for c in it: s.chars()
        invariant
            it.seq() == s@,
            v@ == s@.take(it.index()),
    {
        v.push(c);
    }
    v
}

/// The characters `from..to` of `chars` as a string.
pub fn string_from(chars: &Vec<char>, from: usize, to: usize) -> (s: String)
    requires
        from <= to <= chars.len(),
    ensures
        s@ == chars@.subrange(from as int, to as int),
{
    let mut s = String::new();
    let mut i: usize = from;
    while i < to
        invariant
            from <= i <= to <= chars.len(),
            s@ == chars@.subrange(from as int, i as int),
        decreases to - i,
    {
        s.push(chars[i]);
        i += 1;
    }
    s
}

/// Splits `s` at every `sep`.
pub fn split(s: &str, sep: char) -> (parts: Vec<String>)
    ensures
        parts.deep_view() == split_on(s@, sep),
{
    broadcast use vstd::string::group_string_axioms;

    let mut parts: Vec<String> = Vec::new();
    let mut cur = String::new();
    for c in it: s.chars()
        invariant
            it.seq() == s@,
            parts.deep_view().push(cur@) == split_on(s@.take(it.index()), sep),
    {
        assert(s@.take(it.index() + 1).drop_last() =~= s@.take(it.index()));
        if c == sep {
            parts.push(cur);
            cur = String::new();
        } else {
            cur.push(c);
        }
    }
    assert(s@.take(s@.len() as int) =~= s@);
    parts.push(cur);
    parts
}

/// Removes leading and trailing white space.
pub fn trim(s: &str) -> (r: String)
    ensures
        r@ == trimmed(s@),
{
    let chars = chars_of(s);
    let n = chars.len();
    let mut a: usize = 0;
    while a < n && space(chars[a])
        invariant
            a <= n == chars.len(),
            forall|i: int| 0 <= i < a ==> is_space(#[trigger] chars@[i]),
        decreases n - a,
    {
        a += 1;
    }
    let mut b: usize = n;
    while b > a && space(chars[b - 1])
        invariant
            a <= b <= n == chars.len(),
            forall|i: int| b <= i < n ==> is_space(#[trigger] chars@[i]),
        decreases b,
    {
        b -= 1;
    }
    proof {
        let front = chars@.subrange(a as int, n as int);
        lemma_trim_front_at(chars@, a as int);
        assert forall|i: int| b - a <= i < front.len() implies is_space(#[trigger] front[i]) by {}
        lemma_trim_back_at(front, b - a);
    }
    string_from(&chars, a, b)
}

/// Removes one carriage return from the end of `line`, if there is one.
pub fn without_cr(line: &str) -> (r: String)
    ensures
        r@ == strip_cr(line@),
{
    let chars = chars_of(line);
    let n = chars.len();
    if n > 0 && chars[n - 1] == '\r' {
        string_from(&chars, 0, n - 1)
    } else {
        string_from(&chars, 0, n)
    }
}

/// Splits `s` into its lines, without their line endings.
pub fn lines(s: &str) -> (r: Vec<String>)
    ensures
        r.deep_view() == lines_of(s@),
{
    let parts = split(s, '\n');
    proof {
        lemma_split_nonempty(s@, '\n');
    }
    let n = parts.len();
    let ghost ended = parts.deep_view().drop_last().map_values(|p: Seq<char>| strip_cr(p));
    let mut r: Vec<String> = Vec::new();
    let mut i: usize = 0;
    while i < n - 1
        invariant
            1 <= n == parts.len(),
            i <= n - 1,
            parts.deep_view() == split_on(s@, '\n'),
            ended == parts.deep_view().drop_last().map_values(|p: Seq<char>| strip_cr(p)),
            r.deep_view() == ended.take(i as int),
        decreases n - i,
    {
        let line = without_cr(parts[i].as_str());
        r.push(line);
        i += 1;
        assert(ended.take(i as int) =~= ended.take(i - 1).push(ended[i - 1]));
    }
    if parts[n - 1].as_str().is_empty() {
        r
    } else {
        let ghost shown = r.deep_view();
        let rest = parts[n - 1].clone();
        r.push(rest);
        assert(r.deep_view() =~= shown.push(rest@));
        r
    }
}

/// A copy of a list of texts.
pub fn copy_texts(v: &Vec<String>) -> (r: Vec<String>)
    ensures
        r.deep_view() == v.deep_view(),
{
    let mut r: Vec<String> = Vec::new();
    let mut i: usize = 0;
    while i < v.len()
        invariant
            i <= v.len(),
            r.deep_view() == v.deep_view().take(i as int),
        decreases v.len() - i,
    {
        let s = v[i].clone();
        r.push(s);
        i += 1;
        assert(v.deep_view().take(i as int) =~= v.deep_view().take(i - 1).push(v@[i - 1]@));
    }
    r
}

/// Whether two texts are the same, character by character.
pub fn same_text(a: &str, b: &str) -> (r: bool)
    ensures
        r == (a@ == b@),
{
    let x = chars_of(a);
    let y = chars_of(b);
    if x.len() != y.len() {
        return false;
    }
    let mut i: usize = 0;
    while i < x.len()
        invariant
            i <= x.len() == y.len(),
            x@ == a@,
            y@ == b@,
            forall|j: int| 0 <= j < i ==> x@[j] == y@[j],
        decreases x.len() - i,
    {
        if x[i] != y[i] {
            return false;
        }
        i += 1;
    }
    assert(x@ =~= y@);
    true
}

} // verus!
