//! Character-level text operations, each specified over `Seq<char>`.
//!
//! Every executable function here takes string slices and returns strings;
//! its contract is an equation between the view of the result and a spec
//! function of the views of the arguments.

use vstd::prelude::*;
use vstd::string::*;

verus! {

/// Whether `c` has the Unicode property `White_Space`.
pub open spec fn is_whitespace(c: char) -> bool {
    let n = c as u32;
    ||| 0x09 <= n <= 0x0D
    ||| n == 0x20
    ||| n == 0x85
    ||| n == 0xA0
    ||| n == 0x1680
    ||| 0x2000 <= n <= 0x200A
    ||| n == 0x2028
    ||| n == 0x2029
    ||| n == 0x202F
    ||| n == 0x205F
    ||| n == 0x3000
}

/// `s` without its leading whitespace.
pub open spec fn trimmed_start(s: Seq<char>) -> Seq<char>
    decreases s.len(),
{
    if s.len() > 0 && is_whitespace(s[0]) {
        trimmed_start(s.drop_first())
    } else {
        s
    }
}

/// `s` without its trailing whitespace.
pub open spec fn trimmed_end(s: Seq<char>) -> Seq<char>
    decreases s.len(),
{
    if s.len() > 0 && is_whitespace(s.last()) {
        trimmed_end(s.drop_last())
    } else {
        s
    }
}

/// `s` without leading and trailing whitespace.
pub open spec fn trimmed(s: Seq<char>) -> Seq<char> {
    trimmed_end(trimmed_start(s))
}

/// The index of the first occurrence of `c` in `s`, or `s.len()` if there is none.
pub open spec fn position(s: Seq<char>, c: char) -> int
    decreases s.len(),
{
    if s.len() == 0 {
        0
    } else if s[0] == c {
        0
    } else {
        1 + position(s.drop_first(), c)
    }
}

/// The pieces of `s` between occurrences of `sep`. There is always at least
/// one piece; pieces may be empty.
pub open spec fn fields(s: Seq<char>, sep: char) -> Seq<Seq<char>>
    decreases s.len(),
{
    let i = position(s, sep);
    if 0 <= i < s.len() {
        seq![s.subrange(0, i)] + fields(s.subrange(i + 1, s.len() as int), sep)
    } else {
        seq![s]
    }
}

/// `s` without one trailing carriage return, if it has one.
pub open spec fn without_carriage_return(s: Seq<char>) -> Seq<char> {
    if s.len() > 0 && s.last() == '\r' {
        s.drop_last()
    } else {
        s
    }
}

/// The lines of `s`. A line ends at a line feed, or at a carriage return
/// followed by a line feed; neither belongs to the line. The last line
/// needs no line ending, and an empty text has no lines.
pub open spec fn line_seq(s: Seq<char>) -> Seq<Seq<char>>
    decreases s.len(),
{
    let i = position(s, '\n');
    if s.len() == 0 {
        Seq::empty()
    } else if 0 <= i < s.len() {
        seq![without_carriage_return(s.subrange(0, i))] + line_seq(
            s.subrange(i + 1, s.len() as int),
        )
    } else {
        seq![s]
    }
}

/// The longest suffix of `s` that holds no whitespace.
pub open spec fn word_suffix(s: Seq<char>) -> Seq<char>
    decreases s.len(),
{
    if s.len() > 0 && !is_whitespace(s.last()) {
        word_suffix(s.drop_last()).push(s.last())
    } else {
        Seq::empty()
    }
}

/// The last of the words of `s`, where words are separated by whitespace;
/// empty if `s` holds nothing but whitespace.
pub open spec fn final_word(s: Seq<char>) -> Seq<char> {
    word_suffix(trimmed_end(s))
}

/// Whether `s` begins with `prefix`.
pub open spec fn has_prefix(s: Seq<char>, prefix: Seq<char>) -> bool {
    prefix.len() <= s.len() && s.subrange(0, prefix.len() as int) == prefix
}

/// Whether `s` ends with `suffix`.
pub open spec fn has_suffix(s: Seq<char>, suffix: Seq<char>) -> bool {
    suffix.len() <= s.len() && s.subrange(s.len() - suffix.len(), s.len() as int) == suffix
}

/// Whether the last character of `s` is `c`.
pub open spec fn has_last(s: Seq<char>, c: char) -> bool {
    s.len() > 0 && s.last() == c
}

/// `s` with every occurrence of `from` replaced by `to`, found from left to
/// right without overlap. `from` is meant to be non-empty; with an empty
/// `from` nothing is replaced.
pub open spec fn replaced(s: Seq<char>, from: Seq<char>, to: Seq<char>) -> Seq<char>
    decreases s.len(),
{
    if from.len() == 0 || s.len() < from.len() {
        s
    } else if has_prefix(s, from) {
        to + replaced(s.subrange(from.len() as int, s.len() as int), from, to)
    } else {
        seq![s[0]] + replaced(s.drop_first(), from, to)
    }
}

/// The members of `parts` in order, with `sep` between neighbours.
pub open spec fn joined(parts: Seq<Seq<char>>, sep: Seq<char>) -> Seq<char>
    decreases parts.len(),
{
    if parts.len() == 0 {
        Seq::empty()
    } else if parts.len() == 1 {
        parts[0]
    } else {
        joined(parts.drop_last(), sep) + sep + parts.last()
    }
}

/// The views of the strings of `v`, in order.
spec fn views(v: Seq<String>) -> Seq<Seq<char>> {
    Seq::new(v.len(), |i: int| v[i]@)
}

proof fn lemma_views_push(v: Seq<String>, s: String)
    ensures
        views(v.push(s)) == views(v).push(s@),
{
    assert(views(v.push(s)) =~= views(v).push(s@));
}

/// `position` is in range, finds `c`, and passes over no earlier `c`.
pub proof fn lemma_position(s: Seq<char>, c: char)
    ensures
        0 <= position(s, c) <= s.len(),
        position(s, c) < s.len() ==> s[position(s, c)] == c,
        forall|j: int| 0 <= j < position(s, c) ==> s[j] != c,
    decreases s.len(),
{
    if s.len() > 0 && s[0] != c {
        lemma_position(s.drop_first(), c);
        assert forall|j: int| 0 <= j < position(s, c) implies s[j] != c by {
            if j > 0 {
                assert(s.drop_first()[j - 1] == s[j]);
            }
        }
    }
}

/// An index that is the first to hold `c` is `position`.
pub proof fn lemma_position_is(s: Seq<char>, c: char, k: int)
    requires
        0 <= k <= s.len(),
        forall|j: int| 0 <= j < k ==> s[j] != c,
        k < s.len() ==> s[k] == c,
    ensures
        position(s, c) == k,
{
    lemma_position(s, c);
    let p = position(s, c);
    if p < k {
        assert(s[p] == c);
    } else if p > k {
        assert(s[k] == c);
    }
}

/// Whether `c` has the Unicode property `White_Space`.
pub fn char_is_whitespace(c: char) -> (b: bool)
    ensures
        b == is_whitespace(c),
{
    let n: u32 = c as u32;
    (0x09 <= n && n <= 0x0D) || n == 0x20 || n == 0x85 || n == 0xA0 || n == 0x1680 || (0x2000 <= n
        && n <= 0x200A) || n == 0x2028 || n == 0x2029 || n == 0x202F || n == 0x205F || n == 0x3000
}

/// The characters of `s`, in order.
pub fn to_chars(s: &str) -> (v: Vec<char>)
    ensures
        v@ == s@,
{
    let mut v: Vec<char> = Vec::new();
    for c in it: s.chars()
        invariant
            v@ == it.seq().take(it.index()),
            it.seq() == s@,
    {
        v.push(c);
    }
    v
}

/// The characters of `s` from index `from` up to, not including, `to`.
pub fn slice(s: &str, from: usize, to: usize) -> (r: String)
    requires
        from <= to <= s@.len(),
    ensures
        r@ == s@.subrange(from as int, to as int),
{
    s.substring_char(from, to).to_owned()
}

/// Whether `a` and `b` hold the same characters.
pub fn same_text(a: &str, b: &str) -> (r: bool)
    ensures
        r == (a@ == b@),
{
    let x = to_chars(a);
    let y = to_chars(b);
    if x.len() != y.len() {
        return false;
    }
    let mut i: usize = 0;
    while i < x.len()
        invariant
            i <= x.len(),
            x.len() == y.len(),
            x@ == a@,
            y@ == b@,
            forall|j: int| 0 <= j < i ==> x@[j] == y@[j],
        decreases x.len() - i,
    {
        if x[i] != y[i] {
            return false;
        }
        i += 1;
    }
    assert(x@ =~= y@);
    true
}

/// Whether `s` begins with `prefix`.
pub fn starts_with(s: &str, prefix: &str) -> (r: bool)
    ensures
        r == has_prefix(s@, prefix@),
{
    let x = to_chars(s);
    let p = to_chars(prefix);
    if p.len() > x.len() {
        return false;
    }
    let mut i: usize = 0;
    while i < p.len()
        invariant
            i <= p.len() <= x.len(),
            x@ == s@,
            p@ == prefix@,
            forall|j: int| 0 <= j < i ==> x@[j] == p@[j],
        decreases p.len() - i,
    {
        if x[i] != p[i] {
            assert(s@.subrange(0, p.len() as int)[i as int] != prefix@[i as int]);
            return false;
        }
        i += 1;
    }
    assert(s@.subrange(0, p.len() as int) =~= prefix@);
    true
}

/// `s` without leading and trailing whitespace.
pub fn trim(s: &str) -> (r: String)
    ensures
        r@ == trimmed(s@),
{
    let chars = to_chars(s);
    let n = chars.len();
    let mut start: usize = 0;
    assert(s@.subrange(0, n as int) =~= s@);
    while start < n && char_is_whitespace(chars[start])
        invariant
            start <= n,
            n == chars.len(),
            chars@ == s@,
            trimmed_start(s@) == trimmed_start(s@.subrange(start as int, n as int)),
        decreases n - start,
    {
        assert(s@.subrange(start as int, n as int).drop_first() =~= s@.subrange(
            start + 1,
            n as int,
        ));
        start += 1;
    }
    let ghost rest = s@.subrange(start as int, n as int);
    assert(trimmed_start(s@) == rest);
    let mut end: usize = n;
    while end > start && char_is_whitespace(chars[end - 1])
        invariant
            start <= end <= n,
            n == chars.len(),
            chars@ == s@,
            trimmed_end(rest) == trimmed_end(s@.subrange(start as int, end as int)),
        decreases end,
    {
        assert(s@.subrange(start as int, end as int).drop_last() =~= s@.subrange(
            start as int,
            end - 1,
        ));
        end -= 1;
    }
    slice(s, start, end)
}

/// The pieces of `s` between occurrences of `sep`.
pub fn split(s: &str, sep: char) -> (parts: Vec<String>)
    ensures
        parts.deep_view() == fields(s@, sep),
{
    let chars = to_chars(s);
    let n = chars.len();
    let mut parts: Vec<String> = Vec::new();
    let mut start: usize = 0;
    let mut i: usize = 0;
    assert(s@.subrange(0, n as int) =~= s@);
    assert(views(parts@) =~= Seq::<Seq<char>>::empty());
    while i < n
        invariant
            start <= i <= n,
            n == chars.len(),
            chars@ == s@,
            forall|j: int| start <= j < i ==> s@[j] != sep,
            fields(s@, sep) == views(parts@) + fields(s@.subrange(start as int, n as int), sep),
        decreases n - i,
    {
        if chars[i] == sep {
            let ghost rest = s@.subrange(start as int, n as int);
            proof {
                lemma_position_is(rest, sep, i - start);
                assert(rest.subrange(0, i - start) =~= s@.subrange(start as int, i as int));
                assert(rest.subrange(i - start + 1, rest.len() as int) =~= s@.subrange(
                    i + 1,
                    n as int,
                ));
            }
            let piece = slice(s, start, i);
            proof {
                lemma_views_push(parts@, piece);
                assert(views(parts@).push(piece@) + fields(s@.subrange(i + 1, n as int), sep)
                    =~= views(parts@) + (seq![piece@] + fields(
                    s@.subrange(i + 1, n as int),
                    sep,
                )));
            }
            parts.push(piece);
            start = i + 1;
        }
        i += 1;
    }
    let ghost rest = s@.subrange(start as int, n as int);
    proof {
        lemma_position_is(rest, sep, n - start);
    }
    let piece = slice(s, start, n);
    proof {
        lemma_views_push(parts@, piece);
        assert(views(parts@).push(piece@) =~= views(parts@) + seq![piece@]);
    }
    parts.push(piece);
    assert(parts.deep_view() =~= views(parts@));
    parts
}


/// Putting texts together does not depend on where one begins.
pub proof fn lemma_append_associates(a: Seq<char>, b: Seq<char>, c: Seq<char>)
    ensures
        (a + b) + c == a + (b + c),
{
    assert((a + b) + c =~= a + (b + c));
}

/// Trimming never lengthens a text.
pub proof fn lemma_trimmed_len(s: Seq<char>)
    ensures
        trimmed_start(s).len() <= s.len(),
        trimmed_end(s).len() <= s.len(),
        trimmed(s).len() <= s.len(),
    decreases s.len(),
{
    if s.len() > 0 {
        lemma_trimmed_len(s.drop_first());
        lemma_trimmed_len(s.drop_last());
    }
    lemma_trimmed_end_len(trimmed_start(s));
}

proof fn lemma_trimmed_end_len(s: Seq<char>)
    ensures
        trimmed_end(s).len() <= s.len(),
    decreases s.len(),
{
    if s.len() > 0 {
        lemma_trimmed_end_len(s.drop_last());
    }
}

/// The last of the words of `s`, where words are separated by whitespace.
pub fn last_word(s: &str) -> (r: String)
    ensures
        r@ == final_word(s@),
{
    let chars = to_chars(s);
    let n = chars.len();
    let mut end: usize = n;
    assert(s@.subrange(0, n as int) =~= s@);
    while end > 0 && char_is_whitespace(chars[end - 1])
        invariant
            end <= n,
            n == chars.len(),
            chars@ == s@,
            trimmed_end(s@) == trimmed_end(s@.subrange(0, end as int)),
        decreases end,
    {
        assert(s@.subrange(0, end as int).drop_last() =~= s@.subrange(0, end - 1));
        end -= 1;
    }
    let ghost body = s@.subrange(0, end as int);
    assert(trimmed_end(s@) == body);
    let mut start: usize = end;
    assert(s@.subrange(end as int, end as int) =~= Seq::<char>::empty());
    while start > 0 && !char_is_whitespace(chars[start - 1])
        invariant
            start <= end <= n,
            n == chars.len(),
            chars@ == s@,
            body == s@.subrange(0, end as int),
            word_suffix(body) == word_suffix(s@.subrange(0, start as int)) + s@.subrange(
                start as int,
                end as int,
            ),
        decreases start,
    {
        let ghost head = s@.subrange(0, start as int);
        assert(head.drop_last() =~= s@.subrange(0, start - 1));
        assert(word_suffix(head.drop_last()).push(head.last()) + s@.subrange(
            start as int,
            end as int,
        ) =~= word_suffix(head.drop_last()) + s@.subrange(start - 1, end as int));
        start -= 1;
    }
    assert(word_suffix(s@.subrange(0, start as int)) =~= Seq::<char>::empty());
    assert(Seq::<char>::empty() + s@.subrange(start as int, end as int) =~= s@.subrange(
        start as int,
        end as int,
    ));
    slice(s, start, end)
}

/// The members of `parts` in order, with `sep` between neighbours.
pub fn join(parts: &Vec<String>, sep: &str) -> (r: String)
    ensures
        r@ == joined(parts.deep_view(), sep@),
{
    assert(parts.deep_view() =~= views(parts@));
    let mut out = String::new();
    let mut i: usize = 0;
    assert(views(parts@).take(0) =~= Seq::<Seq<char>>::empty());
    while i < parts.len()
        invariant
            i <= parts.len(),
            out@ == joined(views(parts@).take(i as int), sep@),
        decreases parts.len() - i,
    {
        let ghost before = views(parts@).take(i as int);
        let ghost after = views(parts@).take(i + 1);
        assert(after.drop_last() =~= before);
        assert(after.last() == parts@[i as int]@);
        if i > 0 {
            out.append(sep);
        } else {
            assert(out@ + parts@[i as int]@ =~= parts@[i as int]@);
        }
        out.append(parts[i].as_str());
        i += 1;
    }
    assert(views(parts@).take(parts.len() as int) =~= views(parts@));
    out
}

/// Whether `pattern` stands in `chars` at index `at`.
fn matches_at(chars: &Vec<char>, at: usize, pattern: &Vec<char>) -> (r: bool)
    requires
        at <= chars.len(),
    ensures
        r == has_prefix(chars@.subrange(at as int, chars.len() as int), pattern@),
{
    let n = chars.len();
    let m = pattern.len();
    let ghost rest = chars@.subrange(at as int, n as int);
    if m > n - at {
        return false;
    }
    let mut k: usize = 0;
    while k < m
        invariant
            k <= m,
            m == pattern.len(),
            n == chars.len(),
            at + m <= n,
            rest == chars@.subrange(at as int, n as int),
            forall|j: int| 0 <= j < k ==> chars@[at + j] == pattern@[j],
        decreases m - k,
    {
        if chars[at + k] != pattern[k] {
            assert(rest.subrange(0, m as int)[k as int] != pattern@[k as int]);
            return false;
        }
        k += 1;
    }
    assert(rest.subrange(0, m as int) =~= pattern@);
    true
}

/// `s` with every occurrence of `from` replaced by `to`, found from left to
/// right without overlap. With an empty `from` the result is `s`.
pub fn replace(s: &str, from: &str, to: &str) -> (r: String)
    ensures
        r@ == replaced(s@, from@, to@),
{
    let chars = to_chars(s);
    let pattern = to_chars(from);
    let n = chars.len();
    let m = pattern.len();
    if m == 0 {
        assert(s@.subrange(0, n as int) =~= s@);
        return slice(s, 0, n);
    }
    let mut out = String::new();
    let mut i: usize = 0;
    assert(s@.subrange(0, n as int) =~= s@);
    assert(out@ + replaced(s@, from@, to@) =~= replaced(s@, from@, to@));
    while i < n
        invariant
            i <= n,
            n == chars.len(),
            m == pattern.len(),
            m > 0,
            chars@ == s@,
            pattern@ == from@,
            replaced(s@, from@, to@) == out@ + replaced(
                s@.subrange(i as int, n as int),
                from@,
                to@,
            ),
        decreases n - i,
    {
        let ghost rest = s@.subrange(i as int, n as int);
        if matches_at(&chars, i, &pattern) {
            assert(rest.subrange(m as int, rest.len() as int) =~= s@.subrange(i + m, n as int));
            assert(out@ + (to@ + replaced(s@.subrange(i + m, n as int), from@, to@)) =~= out@
                + to@ + replaced(s@.subrange(i + m, n as int), from@, to@));
            out.append(to);
            i += m;
        } else {
            let one = slice(s, i, i + 1);
            if n - i < m {
                assert(replaced(rest, from@, to@) == rest);
                let tail = slice(s, i, n);
                out.append(tail.as_str());
                assert(s@.subrange(n as int, n as int) =~= Seq::<char>::empty());
                assert(out@ + replaced(s@.subrange(n as int, n as int), from@, to@) =~= out@);
                i = n;
            } else {
                assert(rest.drop_first() =~= s@.subrange(i + 1, n as int));
                assert(one@ =~= seq![rest[0]]);
                assert(out@ + (seq![rest[0]] + replaced(s@.subrange(i + 1, n as int), from@, to@))
                    =~= out@ + one@ + replaced(s@.subrange(i + 1, n as int), from@, to@));
                out.append(one.as_str());
                i += 1;
            }
        }
    }
    assert(s@.subrange(n as int, n as int) =~= Seq::<char>::empty());
    assert(out@ + Seq::<char>::empty() =~= out@);
    out
}


/// The last `count` members of `lines`, the last one first.
pub open spec fn last_reversed(lines: Seq<Seq<char>>, count: nat) -> Seq<Seq<char>> {
    let k = if count < lines.len() {
        count
    } else {
        lines.len()
    };
    Seq::new(k, |i: int| lines[lines.len() - 1 - i])
}

/// The texts that `spans` cut out of `s`, each span a pair of a start and an end.
pub open spec fn span_texts(s: Seq<char>, spans: Seq<(usize, usize)>) -> Seq<Seq<char>> {
    Seq::new(spans.len(), |k: int| s.subrange(spans[k].0 as int, spans[k].1 as int))
}

/// Where each line of `chars` starts and ends.
fn line_spans(chars: &Vec<char>) -> (spans: Vec<(usize, usize)>)
    ensures
        span_texts(chars@, spans@) == line_seq(chars@),
        forall|k: int|
            0 <= k < spans.len() ==> (#[trigger] spans@[k]).0 <= spans@[k].1 <= chars.len(),
{
    let n = chars.len();
    let ghost s = chars@;
    let mut spans: Vec<(usize, usize)> = Vec::new();
    let mut start: usize = 0;
    let mut i: usize = 0;
    assert(s.subrange(0, n as int) =~= s);
    assert(span_texts(s, spans@) =~= Seq::<Seq<char>>::empty());
    assert(Seq::<Seq<char>>::empty() + line_seq(s) =~= line_seq(s));
    while i < n
        invariant
            start <= i <= n,
            n == chars.len(),
            s == chars@,
            forall|j: int| start <= j < i ==> s[j] != '\n',
            forall|k: int| 0 <= k < spans.len() ==> (#[trigger] spans@[k]).0 <= spans@[k].1 <= n,
            line_seq(s) == span_texts(s, spans@) + line_seq(s.subrange(start as int, n as int)),
        decreases n - i,
    {
        if chars[i] == '\n' {
            let ghost rest = s.subrange(start as int, n as int);
            let end: usize = if i > start && chars[i - 1] == '\r' {
                (i - 1) as usize
            } else {
                i
            };
            proof {
                lemma_position_is(rest, '\n', i - start);
                let raw = rest.subrange(0, i - start);
                assert(raw =~= s.subrange(start as int, i as int));
                assert(without_carriage_return(raw) =~= s.subrange(start as int, end as int));
                assert(rest.subrange(i - start + 1, rest.len() as int) =~= s.subrange(
                    i + 1,
                    n as int,
                ));
                assert(span_texts(s, spans@.push((start, end))) =~= span_texts(s, spans@).push(
                    s.subrange(start as int, end as int),
                ));
                assert(span_texts(s, spans@).push(s.subrange(start as int, end as int)) + line_seq(
                    s.subrange(i + 1, n as int),
                ) =~= span_texts(s, spans@) + (seq![s.subrange(start as int, end as int)]
                    + line_seq(s.subrange(i + 1, n as int))));
            }
            spans.push((start, end));
            start = i + 1;
        }
        i += 1;
    }
    if start < n {
        let ghost rest = s.subrange(start as int, n as int);
        proof {
            lemma_position_is(rest, '\n', n - start);
            assert(span_texts(s, spans@.push((start, n))) =~= span_texts(s, spans@).push(rest));
            assert(span_texts(s, spans@).push(rest) =~= span_texts(s, spans@) + seq![rest]);
        }
        spans.push((start, n));
    } else {
        assert(span_texts(s, spans@) + Seq::<Seq<char>>::empty() =~= span_texts(s, spans@));
    }
    spans
}

/// The last `count` lines of `s`, the last one first.
pub fn last_lines(s: &str, count: usize) -> (r: Vec<String>)
    ensures
        r.deep_view() == last_reversed(line_seq(s@), count as nat),
{
    let chars = to_chars(s);
    let spans = line_spans(&chars);
    let total = spans.len();
    let k: usize = if count < total {
        count
    } else {
        total
    };
    let mut r: Vec<String> = Vec::new();
    let mut i: usize = 0;
    while i < k
        invariant
            i <= k <= total,
            total == spans.len(),
            k == if count < total { count } else { total },
            chars@ == s@,
            span_texts(s@, spans@) == line_seq(s@),
            forall|j: int|
                0 <= j < spans.len() ==> (#[trigger] spans@[j]).0 <= spans@[j].1 <= chars.len(),
            r.len() == i,
            forall|j: int| 0 <= j < i ==> r@[j]@ == line_seq(s@)[total - 1 - j],
        decreases k - i,
    {
        let span = spans[total - 1 - i];
        assert(span_texts(s@, spans@)[total - 1 - i] == s@.subrange(
            span.0 as int,
            span.1 as int,
        ));
        let line = slice(s, span.0, span.1);
        r.push(line);
        i += 1;
    }
    assert(r.deep_view() =~= last_reversed(line_seq(s@), count as nat));
    r
}


/// What trimming leaves is a stretch of the text it was given.
pub proof fn lemma_trimmed_is_subrange(s: Seq<char>) -> (bounds: (int, int))
    ensures
        0 <= bounds.0 <= bounds.1 <= s.len(),
        trimmed(s) == s.subrange(bounds.0, bounds.1),
{
    let a = lemma_trimmed_start_is_suffix(s);
    let t = trimmed_start(s);
    let b = lemma_trimmed_end_is_prefix(t);
    assert(t.subrange(0, b) =~= s.subrange(a, a + b));
    (a, a + b)
}

proof fn lemma_trimmed_start_is_suffix(s: Seq<char>) -> (a: int)
    ensures
        0 <= a <= s.len(),
        trimmed_start(s) == s.subrange(a, s.len() as int),
    decreases s.len(),
{
    if s.len() > 0 && is_whitespace(s[0]) {
        let a = lemma_trimmed_start_is_suffix(s.drop_first());
        assert(s.drop_first().subrange(a, s.len() - 1) =~= s.subrange(a + 1, s.len() as int));
        a + 1
    } else {
        assert(s.subrange(0, s.len() as int) =~= s);
        0
    }
}

proof fn lemma_trimmed_end_is_prefix(s: Seq<char>) -> (b: int)
    ensures
        0 <= b <= s.len(),
        trimmed_end(s) == s.subrange(0, b),
    decreases s.len(),
{
    if s.len() > 0 && is_whitespace(s.last()) {
        let b = lemma_trimmed_end_is_prefix(s.drop_last());
        assert(s.drop_last().subrange(0, b) =~= s.subrange(0, b));
        b
    } else {
        assert(s.subrange(0, s.len() as int) =~= s);
        s.len() as int
    }
}

} // verus!
