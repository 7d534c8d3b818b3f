//! Character-level text operations with their specifications.
//!
//! Text is specified as `Seq<char>`; executable code works on `Vec<char>`
//! and converts to and from `String` at the edges.
use vstd::prelude::*;

verus! {

// ---------------------------------------------------------------------------
// Specifications
// ---------------------------------------------------------------------------

/// Unicode `White_Space`, the property that `char::is_whitespace` tests.
pub open spec fn is_ws(c: char) -> bool {
    let u = c as u32;
    ||| 0x09 <= u <= 0x0D
    ||| u == 0x20
    ||| u == 0x85
    ||| u == 0xA0
    ||| u == 0x1680
    ||| 0x2000 <= u <= 0x200A
    ||| u == 0x2028
    ||| u == 0x2029
    ||| u == 0x202F
    ||| u == 0x205F
    ||| u == 0x3000
}

/// `s` without its leading white space.
pub open spec fn trim_start(s: Seq<char>) -> Seq<char>
    decreases s.len(),
{
    if s.len() > 0 && is_ws(s[0]) {
        trim_start(s.drop_first())
    } else {
        s
    }
}

/// `s` without its trailing white space.
pub open spec fn trim_end(s: Seq<char>) -> Seq<char>
    decreases s.len(),
{
    if s.len() > 0 && is_ws(s.last()) {
        trim_end(s.drop_last())
    } else {
        s
    }
}

/// `s` without leading and trailing white space, as `str::trim` gives it.
pub open spec fn trim(s: Seq<char>) -> Seq<char> {
    trim_end(trim_start(s))
}

/// `s` without every trailing `c`, as `str::trim_end_matches(c)` gives it.
pub open spec fn trim_end_char(s: Seq<char>, c: char) -> Seq<char>
    decreases s.len(),
{
    if s.len() > 0 && s.last() == c {
        trim_end_char(s.drop_last(), c)
    } else {
        s
    }
}

pub open spec fn starts_with(s: Seq<char>, p: Seq<char>) -> bool {
    p.len() <= s.len() && s.subrange(0, p.len() as int) == p
}

pub open spec fn ends_with(s: Seq<char>, p: Seq<char>) -> bool {
    p.len() <= s.len() && s.subrange(s.len() - p.len(), s.len() as int) == p
}

/// What `str::strip_prefix` gives.
pub open spec fn strip_prefix(s: Seq<char>, p: Seq<char>) -> Option<Seq<char>> {
    if starts_with(s, p) {
        Some(s.subrange(p.len() as int, s.len() as int))
    } else {
        None
    }
}

/// What `str::strip_suffix` gives.
pub open spec fn strip_suffix(s: Seq<char>, p: Seq<char>) -> Option<Seq<char>> {
    if ends_with(s, p) {
        Some(s.subrange(0, s.len() - p.len()))
    } else {
        None
    }
}

/// `p` occurs in `s` at position `i`.
pub open spec fn occurs_at(s: Seq<char>, p: Seq<char>, i: int) -> bool {
    0 <= i && i + p.len() <= s.len() && s.subrange(i, i + p.len()) == p
}

/// `p` occurs somewhere in `s`, as `str::contains` tests.
pub open spec fn contains(s: Seq<char>, p: Seq<char>) -> bool {
    exists|i: int| occurs_at(s, p, i)
}

/// Position of the first `c` at or after `i`, or `s.len()` when there is none.
pub open spec fn find_char_from(s: Seq<char>, c: char, i: int) -> int
    decreases s.len() - i,
{
    if i >= s.len() {
        s.len() as int
    } else if i >= 0 && s[i] == c {
        i
    } else {
        find_char_from(s, c, i + 1)
    }
}

/// The line before a line feed, without a final carriage return.
pub open spec fn strip_cr(line: Seq<char>) -> Seq<char> {
    if line.len() > 0 && line.last() == '\r' {
        line.drop_last()
    } else {
        line
    }
}

/// The lines of `s` from position `start` on, as `str::lines` gives them.
pub open spec fn lines_from(s: Seq<char>, start: int) -> Seq<Seq<char>>
    decreases s.len() - start,
{
    if start < 0 || start >= s.len() {
        Seq::empty()
    } else {
        let j = find_char_from(s, '\n', start);
        proof {
            lemma_find_char_from_bounds(s, '\n', start);
        }
        if j >= s.len() {
            seq![s.subrange(start, s.len() as int)]
        } else {
            seq![strip_cr(s.subrange(start, j))].add(lines_from(s, j + 1))
        }
    }
}

/// The lines of `s`, as `str::lines` gives them.
pub open spec fn lines(s: Seq<char>) -> Seq<Seq<char>> {
    lines_from(s, 0)
}

/// ASCII letters mapped to lower case, other characters unchanged.
pub open spec fn ascii_lower_char(c: char) -> char {
    if 'A' <= c <= 'Z' {
        ((c as u32) + 32) as char
    } else {
        c
    }
}

/// What `str::to_ascii_lowercase` gives.
pub open spec fn ascii_lower(s: Seq<char>) -> Seq<char> {
    s.map_values(|c: char| ascii_lower_char(c))
}

/// The decimal digit for `d < 10`.
pub open spec fn digit_char(d: nat) -> char {
    (('0' as u32) + d) as char
}

/// The decimal notation of `n`, as `Display` writes an unsigned integer.
pub open spec fn decimal(n: nat) -> Seq<char>
    decreases n,
{
    if n < 10 {
        seq![digit_char(n)]
    } else {
        decimal(n / 10).push(digit_char(n % 10))
    }
}

/// Distinct numbers are written differently.
pub proof fn lemma_decimal_injective(m: nat, n: nat)
    ensures
        decimal(m) == decimal(n) ==> m == n,
    decreases m + n,
{
    if decimal(m) == decimal(n) {
        if m < 10 && n < 10 {
            assert(decimal(m)[0] == digit_char(m));
        } else if m >= 10 && n >= 10 {
            lemma_decimal_len(m / 10);
            lemma_decimal_injective(m / 10, n / 10);
            assert(decimal(m).drop_last() =~= decimal(m / 10));
            assert(decimal(n).drop_last() =~= decimal(n / 10));
            assert(decimal(m).last() == digit_char(m % 10));
            assert(decimal(n).last() == digit_char(n % 10));
        } else if m >= 10 {
            lemma_decimal_len(m / 10);
        } else {
            lemma_decimal_len(n / 10);
        }
    }
}

/// Every number is written with at least one digit.
pub proof fn lemma_decimal_len(n: nat)
    ensures
        decimal(n).len() >= 1,
    decreases n,
{
    if n >= 10 {
        lemma_decimal_len(n / 10);
    }
}

/// The number of bytes UTF-8 takes for `c`.
pub open spec fn utf8_width(c: char) -> nat {
    if (c as u32) < 0x80 {
        1
    } else if (c as u32) < 0x800 {
        2
    } else if (c as u32) < 0x10000 {
        3
    } else {
        4
    }
}

/// The number of bytes UTF-8 takes for `s`.
pub open spec fn utf8_len(s: Seq<char>) -> nat
    decreases s.len(),
{
    if s.len() == 0 {
        0
    } else {
        utf8_len(s.drop_last()) + utf8_width(s.last())
    }
}

/// UTF-8 lengths add up over a concatenation.
pub proof fn lemma_utf8_len_add(a: Seq<char>, b: Seq<char>)
    ensures
        utf8_len(a + b) == utf8_len(a) + utf8_len(b),
    decreases b.len(),
{
    if b.len() == 0 {
        assert(a + b =~= a);
    } else {
        lemma_utf8_len_add(a, b.drop_last());
        assert((a + b).drop_last() =~= a + b.drop_last());
        assert((a + b).last() == b.last());
    }
}

/// `base` without trailing slashes, followed by `path`.
pub open spec fn url_join(base: Seq<char>, path: Seq<char>) -> Seq<char> {
    trim_end_char(base, '/') + path
}

/// The texts held by a sequence of character vectors.
pub open spec fn views(v: Seq<Vec<char>>) -> Seq<Seq<char>> {
    v.map_values(|x: Vec<char>| x@)
}

/// The pieces of `parts` joined with `sep` between neighbours.
pub open spec fn join(parts: Seq<Seq<char>>, sep: Seq<char>) -> Seq<char>
    decreases parts.len(),
{
    if parts.len() == 0 {
        Seq::empty()
    } else if parts.len() == 1 {
        parts[0]
    } else {
        join(parts.drop_last(), sep) + sep + parts.last()
    }
}

// ---------------------------------------------------------------------------
// Lemmas
// ---------------------------------------------------------------------------

pub proof fn lemma_find_char_from_bounds(s: Seq<char>, c: char, i: int)
    requires
        0 <= i,
    ensures
        i <= s.len() ==> i <= find_char_from(s, c, i) <= s.len(),
        i > s.len() ==> find_char_from(s, c, i) == s.len(),
        find_char_from(s, c, i) < s.len() ==> s[find_char_from(s, c, i)] == c,
        forall|k: int| i <= k < find_char_from(s, c, i) ==> s[k] != c,
    decreases s.len() - i,
{
    if i < s.len() && s[i] != c {
        lemma_find_char_from_bounds(s, c, i + 1);
    }
}

proof fn lemma_trim_start_skip(s: Seq<char>, i: int)
    requires
        0 <= i < s.len(),
        is_ws(s[i]),
    ensures
        trim_start(s.subrange(i, s.len() as int)) == trim_start(s.subrange(i + 1, s.len() as int)),
{
    let t = s.subrange(i, s.len() as int);
    assert(t.drop_first() =~= s.subrange(i + 1, s.len() as int));
}

proof fn lemma_trim_end_skip(s: Seq<char>, j: int)
    requires
        0 < j <= s.len(),
        is_ws(s[j - 1]),
    ensures
        trim_end(s.subrange(0, j)) == trim_end(s.subrange(0, j - 1)),
{
    let t = s.subrange(0, j);
    assert(t.drop_last() =~= s.subrange(0, j - 1));
}

proof fn lemma_find_shift(p: Seq<char>, t: Seq<char>, c: char, i: int)
    requires
        0 <= i,
    ensures
        find_char_from(p + t, c, p.len() + i) == p.len() + find_char_from(t, c, i),
    decreases t.len() - i,
{
    if i < t.len() && t[i] != c {
        lemma_find_shift(p, t, c, i + 1);
    }
}

proof fn lemma_lines_shift(p: Seq<char>, t: Seq<char>, i: int)
    requires
        0 <= i,
    ensures
        lines_from(p + t, p.len() + i) == lines_from(t, i),
    decreases t.len() - i,
{
    let s = p + t;
    if i < t.len() {
        lemma_find_shift(p, t, '\n', i);
        lemma_find_char_from_bounds(t, '\n', i);
        let j = find_char_from(t, '\n', i);
        if j < t.len() {
            lemma_lines_shift(p, t, j + 1);
            assert(s.subrange(p.len() + i, p.len() + j) =~= t.subrange(i, j));
        } else {
            assert(s.subrange(p.len() + i, s.len() as int) =~= t.subrange(i, t.len() as int));
        }
    }
}

proof fn lemma_find_in_prefix(base: Seq<char>, tail: Seq<char>, start: int)
    requires
        0 <= start < base.len(),
        base.last() == '\n',
    ensures
        find_char_from(base + tail, '\n', start) == find_char_from(base, '\n', start),
        find_char_from(base, '\n', start) < base.len(),
    decreases base.len() - start,
{
    if base[start] != '\n' {
        lemma_find_in_prefix(base, tail, start + 1);
    }
}

proof fn lemma_lines_from_concat(base: Seq<char>, tail: Seq<char>, start: int)
    requires
        0 <= start <= base.len(),
        base.len() > 0 ==> base.last() == '\n',
    ensures
        lines_from(base + tail, start) == lines_from(base, start) + lines(tail),
    decreases base.len() - start,
{
    let s = base + tail;
    if start == base.len() {
        lemma_lines_shift(base, tail, 0);
        assert(lines_from(base, start) =~= Seq::<Seq<char>>::empty());
        assert(Seq::<Seq<char>>::empty() + lines(tail) =~= lines(tail));
    } else {
        lemma_find_in_prefix(base, tail, start);
        lemma_find_char_from_bounds(base, '\n', start);
        let j = find_char_from(base, '\n', start);
        lemma_lines_from_concat(base, tail, j + 1);
        assert(s.subrange(start, j) =~= base.subrange(start, j));
        assert(lines_from(s, start) == seq![strip_cr(base.subrange(start, j))] + lines_from(s, j + 1));
        assert(lines_from(base, start) == seq![strip_cr(base.subrange(start, j))] + lines_from(base, j + 1));
        assert(lines_from(s, start) =~= lines_from(base, start) + lines(tail));
    }
}

/// The lines of a text that ends a line, followed by another text, are the
/// lines of the first followed by those of the second.
pub proof fn lemma_lines_concat(base: Seq<char>, tail: Seq<char>)
    requires
        base.len() > 0 ==> base.last() == '\n',
    ensures
        lines(base + tail) == lines(base) + lines(tail),
{
    lemma_lines_from_concat(base, tail, 0);
}

/// A text with no line feed, followed by one, is a single line (without a
/// final carriage return).
pub proof fn lemma_single_line(l: Seq<char>)
    requires
        forall|k: int| 0 <= k < l.len() ==> l[k] != '\n',
    ensures
        lines(l.push('\n')) == seq![strip_cr(l)],
{
    let s = l.push('\n');
    lemma_find_char_from_bounds(s, '\n', 0);
    assert(find_char_from(s, '\n', 0) == l.len()) by {
        assert(s[l.len() as int] == '\n');
        if find_char_from(s, '\n', 0) < l.len() {
            assert(s[find_char_from(s, '\n', 0)] == l[find_char_from(s, '\n', 0)]);
        }
    }
    assert(s.subrange(0, l.len() as int) =~= l);
    assert(lines_from(s, (l.len() + 1) as int) =~= Seq::<Seq<char>>::empty());
    assert(seq![strip_cr(l)] + Seq::<Seq<char>>::empty() =~= seq![strip_cr(l)]);
}

/// Where `c` first comes in `s + u`, from a position inside `s` on.
proof fn lemma_find_extend(s: Seq<char>, u: Seq<char>, c: char, i: int)
    requires
        0 <= i <= s.len(),
    ensures
        find_char_from(s + u, c, i) == (if find_char_from(s, c, i) < s.len() {
            find_char_from(s, c, i)
        } else {
            s.len() + find_char_from(u, c, 0)
        }),
    decreases s.len() - i,
{
    if i == s.len() {
        lemma_find_shift(s, u, c, 0);
    } else if s[i] != c {
        lemma_find_extend(s, u, c, i + 1);
    }
}

proof fn lemma_lines_from_terminate(s: Seq<char>, start: int)
    requires
        0 <= start < s.len(),
        s.last() != '\n',
    ensures
        lines_from(s, start).len() > 0,
        lines_from(s.push('\n'), start) == lines_from(s, start).drop_last().push(
            strip_cr(lines_from(s, start).last()),
        ),
    decreases s.len() - start,
{
    let t = s.push('\n');
    assert(t =~= s + seq!['\n']);
    lemma_find_extend(s, seq!['\n'], '\n', start);
    lemma_find_char_from_bounds(s, '\n', start);
    lemma_find_char_from_bounds(t, '\n', start);
    let j = find_char_from(s, '\n', start);
    if j < s.len() {
        assert(j + 1 < s.len());
        lemma_lines_from_terminate(s, j + 1);
        assert(t.subrange(start, j) =~= s.subrange(start, j));
        let x = strip_cr(s.subrange(start, j));
        let rest = lines_from(s, j + 1);
        assert(lines_from(s, start) == seq![x] + rest);
        assert(lines_from(t, start) == seq![x] + lines_from(t, j + 1));
        assert((seq![x] + rest).drop_last() =~= seq![x] + rest.drop_last());
        assert((seq![x] + rest).last() == rest.last());
        assert(seq![x] + rest.drop_last().push(strip_cr(rest.last())) =~= (seq![x]
            + rest.drop_last()).push(strip_cr(rest.last())));
    } else {
        assert(find_char_from(seq!['\n'], '\n', 0) == 0);
        assert(t.subrange(start, s.len() as int) =~= s.subrange(start, s.len() as int));
        assert(lines_from(t, (s.len() + 1) as int) =~= Seq::<Seq<char>>::empty());
        assert(lines_from(t, start) =~= seq![strip_cr(s.subrange(start, s.len() as int))]);
        assert(lines_from(s, start) =~= seq![s.subrange(start, s.len() as int)]);
    }
}

/// Ending the last line of a text with a line feed changes only that line,
/// which loses a final carriage return.
pub proof fn lemma_lines_terminate(s: Seq<char>)
    requires
        s.len() > 0,
        s.last() != '\n',
    ensures
        lines(s).len() > 0,
        lines(s.push('\n')) == lines(s).drop_last().push(strip_cr(lines(s).last())),
{
    lemma_lines_from_terminate(s, 0);
}

proof fn lemma_trim_start_drop_last(s: Seq<char>)
    requires
        s.len() > 0,
    ensures
        trim_start(s.drop_last()) == (if trim_start(s).len() > 0 {
            trim_start(s).drop_last()
        } else {
            Seq::<char>::empty()
        }),
        trim_start(s).len() > 0 ==> trim_start(s).last() == s.last(),
    decreases s.len(),
{
    if s.len() == 1 {
        assert(s.drop_last() =~= Seq::<char>::empty());
        assert(s.drop_first() =~= Seq::<char>::empty());
    } else {
        assert(s.drop_last()[0] == s[0]);
        if is_ws(s[0]) {
            lemma_trim_start_drop_last(s.drop_first());
            assert(s.drop_last().drop_first() =~= s.drop_first().drop_last());
            assert(s.drop_first().last() == s.last());
        }
    }
}

/// A line's final carriage return makes no difference once it is trimmed.
pub proof fn lemma_trim_strip_cr(l: Seq<char>)
    ensures
        trim(strip_cr(l)) == trim(l),
{
    if l.len() > 0 && l.last() == '\r' {
        lemma_trim_start_drop_last(l);
        assert(is_ws(l.last()));
    }
}

/// `s` holds no `c`.
pub open spec fn no_char(s: Seq<char>, c: char) -> bool {
    forall|k: int| 0 <= k < s.len() ==> #[trigger] s[k] != c
}

/// Taking a part of a text brings in no new character.
pub proof fn lemma_subrange_no_char(s: Seq<char>, c: char, i: int, j: int)
    requires
        no_char(s, c),
        0 <= i <= j <= s.len(),
    ensures
        no_char(s.subrange(i, j), c),
{
    assert forall|k: int| 0 <= k < j - i implies #[trigger] s.subrange(i, j)[k] != c by {
        assert(s.subrange(i, j)[k] == s[i + k]);
    }
}

/// Trimming brings in no new character.
pub proof fn lemma_trim_no_char(s: Seq<char>, c: char)
    requires
        no_char(s, c),
    ensures
        no_char(trim_start(s), c),
        no_char(trim_end(s), c),
        no_char(trim(s), c),
    decreases s.len(),
{
    if s.len() > 0 {
        lemma_subrange_no_char(s, c, 1, s.len() as int);
        assert(s.drop_first() =~= s.subrange(1, s.len() as int));
        lemma_subrange_no_char(s, c, 0, s.len() - 1);
        assert(s.drop_last() =~= s.subrange(0, s.len() - 1));
        lemma_trim_no_char(s.drop_first(), c);
        lemma_trim_no_char(s.drop_last(), c);
    }
    if no_char(trim_start(s), c) {
        lemma_trim_end_no_char(trim_start(s), c);
    }
}

proof fn lemma_trim_end_no_char(s: Seq<char>, c: char)
    requires
        no_char(s, c),
    ensures
        no_char(trim_end(s), c),
    decreases s.len(),
{
    if s.len() > 0 {
        lemma_subrange_no_char(s, c, 0, s.len() - 1);
        assert(s.drop_last() =~= s.subrange(0, s.len() - 1));
        lemma_trim_end_no_char(s.drop_last(), c);
    }
}

proof fn lemma_lines_from_no_newline(s: Seq<char>, start: int)
    requires
        0 <= start,
    ensures
        forall|i: int| 0 <= i < lines_from(s, start).len() ==> no_char(#[trigger] lines_from(s, start)[i], '\n'),
    decreases s.len() - start,
{
    if start < s.len() {
        lemma_find_char_from_bounds(s, '\n', start);
        let j = find_char_from(s, '\n', start);
        let piece = s.subrange(start, if j >= s.len() { s.len() as int } else { j });
        assert forall|k: int| 0 <= k < piece.len() implies #[trigger] piece[k] != '\n' by {
            assert(piece[k] == s[start + k]);
        }
        if j >= s.len() {
            assert(lines_from(s, start) == seq![piece]);
        } else {
            lemma_lines_from_no_newline(s, j + 1);
            let x = strip_cr(piece);
            assert(no_char(x, '\n')) by {
                if piece.len() > 0 && piece.last() == '\r' {
                    assert forall|k: int| 0 <= k < x.len() implies #[trigger] x[k] != '\n' by {
                        assert(x[k] == piece[k]);
                    }
                }
            }
            let rest = lines_from(s, j + 1);
            assert(lines_from(s, start) == seq![x] + rest);
            assert forall|i: int| 0 <= i < lines_from(s, start).len() implies no_char(
                #[trigger] lines_from(s, start)[i],
                '\n',
            ) by {
                if i > 0 {
                    assert(lines_from(s, start)[i] == rest[i - 1]);
                }
            }
        }
    }
}

/// No line holds a line feed.
pub proof fn lemma_lines_no_newline(s: Seq<char>)
    ensures
        forall|i: int| 0 <= i < lines(s).len() ==> no_char(#[trigger] lines(s)[i], '\n'),
{
    lemma_lines_from_no_newline(s, 0);
}

/// Trimming never makes a text longer.
pub proof fn lemma_trim_len(s: Seq<char>)
    ensures
        trim_start(s).len() <= s.len(),
        trim_end(s).len() <= s.len(),
        trim(s).len() <= s.len(),
    decreases s.len(),
{
    if s.len() > 0 && is_ws(s[0]) {
        lemma_trim_len(s.drop_first());
    }
    if s.len() > 0 && is_ws(s.last()) {
        lemma_trim_len(s.drop_last());
    }
    lemma_trim_end_len(trim_start(s));
}

proof fn lemma_trim_end_len(s: Seq<char>)
    ensures
        trim_end(s).len() <= s.len(),
    decreases s.len(),
{
    if s.len() > 0 && is_ws(s.last()) {
        lemma_trim_end_len(s.drop_last());
    }
}

/// A trimmed text has no white space at either end.
pub proof fn lemma_trim_edges(s: Seq<char>)
    ensures
        trim(s).len() > 0 ==> !is_ws(trim(s)[0]) && !is_ws(trim(s).last()),
        trim_start(s).len() > 0 ==> !is_ws(trim_start(s)[0]),
    decreases s.len(),
{
    if s.len() > 0 && is_ws(s[0]) {
        lemma_trim_edges(s.drop_first());
    }
    lemma_trim_end_keeps_start(trim_start(s));
}

/// Trimming the end of a text that starts with no white space keeps its
/// first character.
pub proof fn lemma_trim_end_keeps_start(s: Seq<char>)
    requires
        s.len() > 0 ==> !is_ws(s[0]),
    ensures
        trim_end(s).len() > 0 ==> !is_ws(trim_end(s)[0]) && !is_ws(trim_end(s).last()),
        trim_end(s).len() > 0 ==> trim_end(s)[0] == s[0],
    decreases s.len(),
{
    if s.len() > 0 && is_ws(s.last()) {
        if s.len() > 1 {
            assert(s.drop_last()[0] == s[0]);
        }
        lemma_trim_end_keeps_start(s.drop_last());
    }
}

/// Trimming a trimmed text changes nothing.
pub proof fn lemma_trim_idempotent(s: Seq<char>)
    ensures
        trim(trim(s)) == trim(s),
{
    lemma_trim_edges(s);
    let t = trim(s);
    assert(trim_start(t) == t);
    assert(trim_end(t) == t);
}

// ---------------------------------------------------------------------------
// Outside calls
// ---------------------------------------------------------------------------

/// Appends one character, as `String::push` does (std documents that it
/// appends the given char to the end of the string).
#[verifier::external_body]
fn push_char(s: &mut String, c: char)
    ensures
        final(s)@ == old(s)@.push(c),
{
    s.push(c);
}

/// `r` is `base` extended by `part`: directly (after an empty base, or one
/// that already ends in a separator), or with one path separator between.
pub open spec fn joined_path(base: Seq<char>, part: Seq<char>, r: Seq<char>) -> bool {
    ||| r == base + part
    ||| r == base + seq!['/'] + part
    ||| r == base + seq!['\\'] + part
}

/// A single ordinary path component: not empty, not `.` or `..`, without a
/// separator or a colon.
pub open spec fn plain_component(s: Seq<char>) -> bool {
    &&& s.len() > 0
    &&& forall|k: int| 0 <= k < s.len() ==> #[trigger] s[k] != '/' && s[k] != '\\' && s[k] != ':'
    &&& s != seq!['.']
    &&& s != seq!['.', '.']
}

/// A text without `?`, so no Windows verbatim path (`\\?\...`), whose
/// joining rebuilds the base, can begin it.
pub open spec fn no_question_mark(s: Seq<char>) -> bool {
    forall|k: int| 0 <= k < s.len() ==> #[trigger] s[k] != '?'
}

/// `base` joined with `part` by `std::path::Path::join`, rendered with
/// `to_string_lossy` (both are UTF-8, so nothing is lost). Claimed, as the
/// documentation of `PathBuf::push` says that pushing a relative path
/// extends the existing path: for a single ordinary component `part` and a
/// base that is no verbatim path, the result is the base extended by
/// `part`, with at most one separator between. Not stated: which separator
/// (it is the platform's), and the result for other arguments.
#[verifier::external_body]
pub fn path_join(base: &str, part: &str) -> (r: String)
    ensures
        no_question_mark(base@) && plain_component(part@) ==> joined_path(base@, part@, r@),
{
    std::path::Path::new(base).join(part).to_string_lossy().into_owned()
}

/// A text of at least three characters, none a separator, a colon or `?`,
/// is a plain component without `?`.
pub proof fn lemma_plain_component(s: Seq<char>)
    requires
        s.len() >= 3,
        forall|k: int| 0 <= k < s.len() ==> #[trigger] s[k] != '/' && s[k] != '\\' && s[k] != ':' && s[k] != '?',
    ensures
        plain_component(s),
        no_question_mark(s),
{
    assert(seq!['.'].len() == 1);
    assert(seq!['.', '.'].len() == 2);
}

/// A path joined from a base without `?` and a plain component holds no `?`.
pub proof fn lemma_joined_no_question_mark(base: Seq<char>, part: Seq<char>, r: Seq<char>)
    requires
        no_question_mark(base),
        plain_component(part),
        no_question_mark(part),
        joined_path(base, part, r),
    ensures
        no_question_mark(r),
{
    assert forall|k: int| 0 <= k < r.len() implies #[trigger] r[k] != '?' by {
        if k < base.len() {
            assert(r[k] == base[k]);
        } else if r == base + part {
            assert(r[k] == part[k - base.len()]);
        } else if k > base.len() {
            assert(r[k] == part[k - base.len() - 1]);
        }
    }
}

/// What `str::to_lowercase` gives: the Unicode lower-case mapping of the
/// text, independent of locale (mostly character by character, but a
/// capital sigma at the end of a word becomes a final sigma).
pub uninterp spec fn unicode_lowercase(s: Seq<char>) -> Seq<char>;

/// All characters of `s` are ASCII.
pub open spec fn all_ascii(s: Seq<char>) -> bool {
    forall|k: int| 0 <= k < s.len() ==> (#[trigger] s[k] as u32) < 128
}

/// `s` in lower case by `str::to_lowercase`; the mapping depends only on
/// `s`, and is named rather than spelled out. Claimed besides: on ASCII
/// text it is the ASCII lower case, as the Unicode lower-case mapping of
/// an ASCII character is its ASCII lower case (`A`-`Z` to `a`-`z`, others
/// unchanged), and the final-sigma rule touches no ASCII character.
#[verifier::external_body]
pub fn to_lowercase(s: &str) -> (r: String)
    ensures
        r@ == unicode_lowercase(s@),
        all_ascii(s@) ==> r@ == ascii_lower(s@),
{
    s.to_lowercase()
}

// ---------------------------------------------------------------------------
// Executable operations
// ---------------------------------------------------------------------------

/// The characters of `s`, in order.
pub fn chars_of(s: &str) -> (v: Vec<char>)
    ensures
        v@ == s@,
{
    broadcast use vstd::string::group_string_axioms;

    let mut v: Vec<char> = Vec::new();
    for c in it: s.chars()
        invariant
            it.seq() == s@,
            v@ == s@.take(it.index() as int),
    {
        v.push(c);
    }
    v
}

/// The string made of the characters of `v`, in order.
pub fn string_of(v: &Vec<char>) -> (s: String)
    ensures
        s@ == v@,
{
    let mut s = String::new();
    let mut i: usize = 0;
    while i < v.len()
        invariant
            i <= v.len(),
            s@ == v@.subrange(0, i as int),
        decreases v.len() - i,
    {
        push_char(&mut s, v[i]);
        i = i + 1;
        assert(s@ =~= v@.subrange(0, i as int));
    }
    assert(v@.subrange(0, v.len() as int) =~= v@);
    s
}

/// Appends the characters of `v` to `s`.
pub fn push_chars(s: &mut String, v: &Vec<char>)
    ensures
        final(s)@ == old(s)@ + v@,
{
    let mut i: usize = 0;
    while i < v.len()
        invariant
            i <= v.len(),
            s@ == old(s)@ + v@.subrange(0, i as int),
        decreases v.len() - i,
    {
        push_char(s, v[i]);
        i = i + 1;
        assert(s@ =~= old(s)@ + v@.subrange(0, i as int));
    }
    assert(v@.subrange(0, v.len() as int) =~= v@);
}

/// Appends one character to `s`.
pub fn push_one(s: &mut String, c: char)
    ensures
        final(s)@ == old(s)@.push(c),
{
    push_char(s, c);
}

/// `true` exactly when `c` has the Unicode `White_Space` property.
pub fn is_whitespace(c: char) -> (b: bool)
    ensures
        b == is_ws(c),
{
    let u = c as u32;
    (0x09 <= u && u <= 0x0D) || u == 0x20 || u == 0x85 || u == 0xA0 || u == 0x1680 || (0x2000
        <= u && u <= 0x200A) || u == 0x2028 || u == 0x2029 || u == 0x202F || u == 0x205F || u
        == 0x3000
}

/// The characters of `v` from `from` up to `to`.
pub fn slice_chars(v: &Vec<char>, from: usize, to: usize) -> (r: Vec<char>)
    requires
        from <= to <= v.len(),
    ensures
        r@ == v@.subrange(from as int, to as int),
{
    let mut r: Vec<char> = Vec::new();
    let mut i = from;
    while i < to
        invariant
            from <= i <= to <= v.len(),
            r@ == v@.subrange(from as int, i as int),
        decreases to - i,
    {
        r.push(v[i]);
        i = i + 1;
        assert(r@ =~= v@.subrange(from as int, i as int));
    }
    r
}

/// `v` without leading and trailing white space.
pub fn trim_chars(v: &Vec<char>) -> (r: Vec<char>)
    ensures
        r@ == trim(v@),
{
    let n = v.len();
    let mut i: usize = 0;
    assert(v@.subrange(0, n as int) =~= v@);
    while i < n && is_whitespace(v[i])
        invariant
            i <= n == v.len(),
            trim_start(v@) == trim_start(v@.subrange(i as int, n as int)),
        decreases n - i,
    {
        proof {
            lemma_trim_start_skip(v@, i as int);
        }
        i = i + 1;
    }
    let ghost rest = v@.subrange(i as int, n as int);
    assert(trim_start(rest) == rest);
    let mut j: usize = n;
    assert(rest.subrange(0, (n - i) as int) =~= rest);
    while j > i && is_whitespace(v[j - 1])
        invariant
            i <= j <= n == v.len(),
            rest == v@.subrange(i as int, n as int),
            trim_end(rest) == trim_end(rest.subrange(0, (j - i) as int)),
        decreases j - i,
    {
        proof {
            assert(rest[(j - i) - 1] == v@[j - 1]);
            lemma_trim_end_skip(rest, (j - i) as int);
        }
        j = j - 1;
    }
    let r = slice_chars(v, i, j);
    assert(r@ =~= rest.subrange(0, (j - i) as int));
    r
}

/// `v` without every trailing `c`.
pub fn trim_end_char_chars(v: &Vec<char>, c: char) -> (r: Vec<char>)
    ensures
        r@ == trim_end_char(v@, c),
{
    let mut j: usize = v.len();
    assert(v@.subrange(0, j as int) =~= v@);
    while j > 0 && v[j - 1] == c
        invariant
            j <= v.len(),
            trim_end_char(v@, c) == trim_end_char(v@.subrange(0, j as int), c),
        decreases j,
    {
        assert(v@.subrange(0, j as int).drop_last() =~= v@.subrange(0, j - 1));
        j = j - 1;
    }
    slice_chars(v, 0, j)
}

/// `true` exactly when `v` and `w` hold the same characters.
pub fn chars_eq(v: &Vec<char>, w: &Vec<char>) -> (b: bool)
    ensures
        b == (v@ == w@),
{
    if v.len() != w.len() {
        return false;
    }
    let mut i: usize = 0;
    while i < v.len()
        invariant
            i <= v.len() == w.len(),
            forall|k: int| 0 <= k < i ==> v@[k] == w@[k],
        decreases v.len() - i,
    {
        if v[i] != w[i] {
            return false;
        }
        i = i + 1;
    }
    assert(v@ =~= w@);
    true
}

/// `true` exactly when `p` is a prefix of `v`.
pub fn starts_with_chars(v: &Vec<char>, p: &Vec<char>) -> (b: bool)
    ensures
        b == starts_with(v@, p@),
{
    if p.len() > v.len() {
        return false;
    }
    let mut i: usize = 0;
    while i < p.len()
        invariant
            i <= p.len() <= v.len(),
            forall|k: int| 0 <= k < i ==> v@[k] == p@[k],
        decreases p.len() - i,
    {
        if v[i] != p[i] {
            assert(v@.subrange(0, p.len() as int)[i as int] != p@[i as int]);
            return false;
        }
        i = i + 1;
    }
    assert(v@.subrange(0, p.len() as int) =~= p@);
    true
}

/// `true` exactly when `p` occurs in `v` at position `at`.
fn occurs_at_chars(v: &Vec<char>, p: &Vec<char>, at: usize) -> (b: bool)
    requires
        at + p.len() <= v.len(),
    ensures
        b == occurs_at(v@, p@, at as int),
{
    let mut i: usize = 0;
    while i < p.len()
        invariant
            i <= p.len(),
            at + p.len() <= v.len(),
            forall|k: int| 0 <= k < i ==> v@[at + k] == p@[k],
        decreases p.len() - i,
    {
        if v[at + i] != p[i] {
            assert(v@.subrange(at as int, at + p.len())[i as int] != p@[i as int]);
            return false;
        }
        i = i + 1;
    }
    assert(v@.subrange(at as int, at + p.len()) =~= p@);
    true
}

/// `true` exactly when `p` is a suffix of `v`.
pub fn ends_with_chars(v: &Vec<char>, p: &Vec<char>) -> (b: bool)
    ensures
        b == ends_with(v@, p@),
{
    if p.len() > v.len() {
        return false;
    }
    occurs_at_chars(v, p, v.len() - p.len())
}

/// `true` exactly when `p` occurs somewhere in `v`.
pub fn contains_chars(v: &Vec<char>, p: &Vec<char>) -> (b: bool)
    ensures
        b == contains(v@, p@),
{
    if p.len() > v.len() {
        assert forall|i: int| !occurs_at(v@, p@, i) by {}
        return false;
    }
    let last = v.len() - p.len();
    let mut at: usize = 0;
    while at < last
        invariant
            p.len() <= v.len(),
            last == v.len() - p.len(),
            at <= last,
            forall|i: int| 0 <= i < at ==> !occurs_at(v@, p@, i),
        decreases last - at,
    {
        if occurs_at_chars(v, p, at) {
            return true;
        }
        at = at + 1;
    }
    if occurs_at_chars(v, p, last) {
        return true;
    }
    assert forall|i: int| !occurs_at(v@, p@, i) by {
        if 0 <= i <= last {
        } else if i > last {
            assert(i + p.len() > v.len());
        }
    }
    false
}

/// What `str::strip_prefix` gives, on characters.
pub fn strip_prefix_chars(v: &Vec<char>, p: &Vec<char>) -> (r: Option<Vec<char>>)
    ensures
        match r {
            Some(t) => strip_prefix(v@, p@) == Some(t@),
            None => strip_prefix(v@, p@) is None,
        },
{
    if starts_with_chars(v, p) {
        Some(slice_chars(v, p.len(), v.len()))
    } else {
        None
    }
}

/// What `str::strip_suffix` gives, on characters.
pub fn strip_suffix_chars(v: &Vec<char>, p: &Vec<char>) -> (r: Option<Vec<char>>)
    ensures
        match r {
            Some(t) => strip_suffix(v@, p@) == Some(t@),
            None => strip_suffix(v@, p@) is None,
        },
{
    if ends_with_chars(v, p) {
        Some(slice_chars(v, 0, v.len() - p.len()))
    } else {
        None
    }
}

/// Position of the first `c` at or after `from`, or `v.len()`.
pub fn find_char(v: &Vec<char>, c: char, from: usize) -> (r: usize)
    requires
        from <= v.len(),
    ensures
        r == find_char_from(v@, c, from as int),
{
    let mut i = from;
    while i < v.len() && v[i] != c
        invariant
            from <= i <= v.len(),
            find_char_from(v@, c, from as int) == find_char_from(v@, c, i as int),
        decreases v.len() - i,
    {
        i = i + 1;
    }
    i
}

/// The lines of `v`, as `str::lines` splits them.
pub fn lines_of(v: &Vec<char>) -> (r: Vec<Vec<char>>)
    ensures
        r@.len() == lines(v@).len(),
        forall|k: int| 0 <= k < r@.len() ==> #[trigger] r@[k]@ == lines(v@)[k],
{
    let mut r: Vec<Vec<char>> = Vec::new();
    let mut start: usize = 0;
    let ghost mut done: Seq<Seq<char>> = Seq::empty();
    while start < v.len()
        invariant
            start <= v.len(),
            r@.len() == done.len(),
            forall|k: int| 0 <= k < r@.len() ==> #[trigger] r@[k]@ == done[k],
            done + lines_from(v@, start as int) == lines(v@),
        decreases v.len() - start,
    {
        let j = find_char(v, '\n', start);
        proof {
            lemma_find_char_from_bounds(v@, '\n', start as int);
        }
        if j >= v.len() {
            let line = slice_chars(v, start, v.len());
            proof {
                assert(lines_from(v@, start as int) == seq![v@.subrange(start as int, v.len() as int)]);
                assert(lines_from(v@, v.len() as int) =~= Seq::<Seq<char>>::empty());
                done = done.push(line@);
                assert(done + lines_from(v@, v.len() as int) =~= lines(v@));
            }
            r.push(line);
            start = v.len();
        } else {
            let mut line = slice_chars(v, start, j);
            if line.len() > 0 && line[line.len() - 1] == '\r' {
                line.pop();
            }
            proof {
                assert(line@ =~= strip_cr(v@.subrange(start as int, j as int)));
                assert(lines_from(v@, start as int) == seq![line@].add(
                    lines_from(v@, j + 1),
                ));
                assert(done + lines_from(v@, start as int) =~= done.push(line@) + lines_from(
                    v@,
                    j + 1,
                ));
                done = done.push(line@);
            }
            r.push(line);
            start = j + 1;
        }
    }
    proof {
        assert(lines_from(v@, start as int) =~= Seq::<Seq<char>>::empty());
        assert(done + Seq::<Seq<char>>::empty() =~= done);
    }
    r
}

/// What `str::to_ascii_lowercase` gives, on characters.
pub fn ascii_lower_chars(v: &Vec<char>) -> (r: Vec<char>)
    ensures
        r@ == ascii_lower(v@),
{
    let mut r: Vec<char> = Vec::new();
    let mut i: usize = 0;
    while i < v.len()
        invariant
            i <= v.len(),
            r@ == ascii_lower(v@.subrange(0, i as int)),
        decreases v.len() - i,
    {
        let c = v[i];
        let d = if 'A' <= c && c <= 'Z' {
            assert(((c as u32) + 32) as char == ascii_lower_char(c));
            ((c as u32 + 32) as u8) as char
        } else {
            c
        };
        proof {
            if 'A' <= c && c <= 'Z' {
                assert(((c as u32 + 32) as u8) as char == ((c as u32) + 32) as char) by {
                    assert('A' as u32 == 65);
                    assert('Z' as u32 == 90);
                }
            }
        }
        r.push(d);
        i = i + 1;
        assert(r@ =~= ascii_lower(v@.subrange(0, i as int)));
    }
    assert(v@.subrange(0, v.len() as int) =~= v@);
    r
}

/// The decimal notation of `n`.
pub fn decimal_chars(n: u64) -> (r: Vec<char>)
    ensures
        r@ == decimal(n as nat),
    decreases n,
{
    let d = (n % 10) as u32;
    let c = char_from_digit(d);
    if n < 10 {
        let mut r = Vec::new();
        r.push(c);
        assert(r@ =~= seq![digit_char(n as nat)]);
        r
    } else {
        let mut r = decimal_chars(n / 10);
        r.push(c);
        r
    }
}

fn char_from_digit(d: u32) -> (c: char)
    requires
        d < 10,
    ensures
        c == digit_char(d as nat),
{
    let c = ((48 + d) as u8) as char;
    assert(c == digit_char(d as nat)) by {
        assert('0' as u32 == 48);
    }
    c
}

/// The decimal notation of `n` as a string.
pub fn decimal_string(n: u64) -> (s: String)
    ensures
        s@ == decimal(n as nat),
{
    let v = decimal_chars(n);
    string_of(&v)
}

/// `parts` joined with `sep` between neighbours.
pub fn join_chars(parts: &Vec<Vec<char>>, sep: &Vec<char>) -> (r: Vec<char>)
    ensures
        r@ == join(parts@.map_values(|p: Vec<char>| p@), sep@),
{
    let ghost views = parts@.map_values(|p: Vec<char>| p@);
    let mut r: Vec<char> = Vec::new();
    let mut i: usize = 0;
    while i < parts.len()
        invariant
            i <= parts.len(),
            views == parts@.map_values(|p: Vec<char>| p@),
            r@ == join(views.take(i as int), sep@),
        decreases parts.len() - i,
    {
        if i > 0 {
            r.extend_from_slice(sep.as_slice());
        }
        r.extend_from_slice(parts[i].as_slice());
        proof {
            let t = views.take(i + 1);
            assert(t.drop_last() =~= views.take(i as int));
            assert(t.last() == parts@[i as int]@);
            if i == 0 {
                assert(t.len() == 1);
            }
        }
        i = i + 1;
    }
    assert(views.take(parts.len() as int) =~= views);
    r
}


/// `base` without trailing slashes, followed by `path`, as
/// `format!("{}{}", base.trim_end_matches('/'), path)` writes it.
pub fn url_join_str(base: &str, path: &str) -> (r: String)
    ensures
        r@ == url_join(base@, path@),
{
    let b = trim_end_char_chars(&chars_of(base), '/');
    let mut out = string_of(&b);
    out.append(path);
    out
}

/// `true` exactly when `p` occurs in `s`.
pub fn str_contains(s: &str, p: &str) -> (b: bool)
    ensures
        b == contains(s@, p@),
{
    contains_chars(&chars_of(s), &chars_of(p))
}

/// `true` exactly when `s` starts with `p`.
pub fn str_starts_with(s: &str, p: &str) -> (b: bool)
    ensures
        b == starts_with(s@, p@),
{
    starts_with_chars(&chars_of(s), &chars_of(p))
}

/// `true` exactly when `s` ends with `p`.
pub fn str_ends_with(s: &str, p: &str) -> (b: bool)
    ensures
        b == ends_with(s@, p@),
{
    ends_with_chars(&chars_of(s), &chars_of(p))
}

/// `true` exactly when `a` and `b` hold the same text.
pub fn str_eq(a: &str, b: &str) -> (r: bool)
    ensures
        r == (a@ == b@),
{
    chars_eq(&chars_of(a), &chars_of(b))
}

/// `s` without leading and trailing white space.
pub fn str_trim(s: &str) -> (r: String)
    ensures
        r@ == trim(s@),
{
    string_of(&trim_chars(&chars_of(s)))
}

} // verus!
