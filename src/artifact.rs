//! The two files shared with the measurement tool: the input list it reads
//! (one address per line) and the result table it writes (a header line, then
//! comma-separated fields whose last one is a latency).
use crate::text::push_char;
use vstd::prelude::*;

verus! {

/// The pieces of `s` between occurrences of `d`, in order; there is always at
/// least one, and two adjacent delimiters give an empty piece.
pub open spec fn split_on(s: Seq<char>, d: char) -> Seq<Seq<char>>
    decreases s.len(),
{
    if s.len() == 0 {
        seq![Seq::<char>::empty()]
    } else {
        let prev = split_on(s.drop_last(), d);
        if s.last() == d {
            prev.push(Seq::<char>::empty())
        } else {
            prev.update(prev.len() - 1, prev.last().push(s.last()))
        }
    }
}

/// A line without the carriage return of a `\r\n` ending.
pub open spec fn strip_cr(l: Seq<char>) -> Seq<char> {
    if l.len() > 0 && l.last() == '\r' {
        l.drop_last()
    } else {
        l
    }
}

/// Each line without its carriage return.
pub open spec fn strip_each(ls: Seq<Seq<char>>) -> Seq<Seq<char>> {
    ls.map_values(|l: Seq<char>| strip_cr(l))
}

/// The lines of a text: it is cut at each `\n`, a line that the cut ends loses
/// a `\r` before it, and an empty remainder after the last `\n` is no line.
pub open spec fn lines_of(s: Seq<char>) -> Seq<Seq<char>> {
    let p = split_on(s, '\n');
    let ended = strip_each(p.drop_last());
    if p.last().len() == 0 {
        ended
    } else {
        ended.push(p.last())
    }
}

/// There is always at least one piece.
proof fn lemma_split_nonempty(s: Seq<char>, d: char)
    ensures
        split_on(s, d).len() >= 1,
    decreases s.len(),
{
    if s.len() > 0 {
        lemma_split_nonempty(s.drop_last(), d);
    }
}

/// Chars in a view, in order.
fn chars_of(s: &str) -> (r: Vec<char>)
    ensures
        r@ == s@,
{
    let mut r: Vec<char> = Vec::new();
    for c in it: s.chars()
        invariant
            r@ == it.seq().take(it.index() as int),
    {
        r.push(c);
    }
    r
}

/// Views of a vector of char vectors.
pub open spec fn char_rows(v: Seq<Vec<char>>) -> Seq<Seq<char>> {
    v.map_values(|x: Vec<char>| x@)
}

/// Cuts `s` at each `d`.
fn split_chars(s: &Vec<char>, d: char) -> (r: Vec<Vec<char>>)
    ensures
        char_rows(r@) == split_on(s@, d),
{
    let mut done: Vec<Vec<char>> = Vec::new();
    let mut cur: Vec<char> = Vec::new();
    let mut i: usize = 0;
    while i < s.len()
        invariant
            i <= s.len(),
            char_rows(done@).push(cur@) == split_on(s@.take(i as int), d),
        decreases s.len() - i,
    {
        assert(s@.take(i + 1).drop_last() == s@.take(i as int));
        if s[i] == d {
            done.push(cur);
            cur = Vec::new();
            assert(char_rows(done@).push(cur@) == split_on(s@.take(i + 1), d));
        } else {
            cur.push(s[i]);
            assert(char_rows(done@).push(cur@) == split_on(s@.take(i + 1), d));
        }
        i = i + 1;
    }
    assert(s@.take(s.len() as int) == s@);
    done.push(cur);
    done
}

/// The lines of `text`, as [`lines_of`] says.
fn split_lines(text: &Vec<char>) -> (r: Vec<Vec<char>>)
    ensures
        char_rows(r@) == lines_of(text@),
{
    let pieces = split_chars(text, '\n');
    let ghost p = char_rows(pieces@);
    proof {
        lemma_split_nonempty(text@, '\n');
    }
    let mut r: Vec<Vec<char>> = Vec::new();
    let mut i: usize = 0;
    while i + 1 < pieces.len()
        invariant
            p == char_rows(pieces@),
            p == split_on(text@, '\n'),
            p.len() >= 1,
            i + 1 <= pieces.len(),
            r.len() == i,
            char_rows(r@) == strip_each(p.take(i as int)),
        decreases pieces.len() - i,
    {
        let piece = &pieces[i];
        let mut line: Vec<char> = piece.clone();
        if line.len() > 0 && line[line.len() - 1] == '\r' {
            line.pop();
        }
        assert(line@ == strip_cr(p[i as int]));
        let ghost before = r@;
        r.push(line);
        assert(r@ == before.push(line));
        assert(p.take(i + 1) =~= p.take(i as int).push(p[i as int]));
        assert forall|j: int| 0 <= j < i + 1 implies #[trigger] char_rows(r@)[j] == strip_each(
            p.take(i + 1),
        )[j] by {
            if j < i {
                assert(char_rows(before)[j] == strip_each(p.take(i as int))[j]);
                assert(r@[j] == before[j]);
            } else {
                assert(r@[j] == line);
            }
        }
        assert(char_rows(r@) =~= strip_each(p.take(i + 1)));
        i = i + 1;
    }
    assert(p.take(i as int) == p.drop_last());
    let last = &pieces[pieces.len() - 1];
    if last.len() > 0 {
        r.push(last.clone());
    }
    r
}

/// A decimal digit.
pub open spec fn is_digit(c: char) -> bool {
    '0' <= c && c <= '9'
}

/// Only digits.
pub open spec fn all_digits(s: Seq<char>) -> bool {
    forall|i: int| 0 <= i < s.len() ==> is_digit(#[trigger] s[i])
}

/// A digit other than zero occurs in `s`.
pub open spec fn has_nonzero_digit(s: Seq<char>) -> bool {
    exists|i: int| 0 <= i < s.len() && is_digit(#[trigger] s[i]) && s[i] != '0'
}

/// Digits with at most one decimal point among them, and at least one digit:
/// `12`, `12.`, `.5`, `1.25`.
pub open spec fn mantissa(s: Seq<char>) -> bool {
    &&& forall|i: int| 0 <= i < s.len() ==> is_digit(#[trigger] s[i]) || s[i] == '.'
    &&& forall|i: int, j: int|
        0 <= i < s.len() && 0 <= j < s.len() && #[trigger] s[i] == '.' && #[trigger] s[j] == '.'
            ==> i == j
    &&& exists|i: int| 0 <= i < s.len() && is_digit(#[trigger] s[i])
}

/// What follows the exponent's `e`: an optional sign, then digits.
pub open spec fn exponent(s: Seq<char>) -> bool {
    let d = if s.len() > 0 && (s[0] == '+' || s[0] == '-') {
        s.skip(1)
    } else {
        s
    };
    d.len() > 0 && all_digits(d)
}

/// The letter that starts an exponent.
pub open spec fn is_exp_mark(c: char) -> bool {
    c == 'e' || c == 'E'
}

/// An unsigned decimal number whose value is above zero: a mantissa with a
/// digit other than zero, then optionally an exponent.
pub open spec fn positive_unsigned(s: Seq<char>) -> bool {
    ||| mantissa(s) && has_nonzero_digit(s)
    ||| exists|k: int|
        0 <= k < s.len() && is_exp_mark(#[trigger] s[k]) && mantissa(s.take(k))
            && has_nonzero_digit(s.take(k)) && exponent(s.skip(k + 1))
}

/// A valid latency: a finite decimal number strictly above zero, with an
/// optional `+` sign (`1.5`, `+3`, `2e-1`; not `0`, `-2`, `abc`, `inf`).
pub open spec fn positive_latency(s: Seq<char>) -> bool {
    if s.len() > 0 && s[0] == '+' {
        positive_unsigned(s.skip(1))
    } else {
        positive_unsigned(s)
    }
}

/// The chars of `s` from `lo` to `hi`.
fn sub_chars(s: &Vec<char>, lo: usize, hi: usize) -> (r: Vec<char>)
    requires
        lo <= hi <= s.len(),
    ensures
        r@ == s@.subrange(lo as int, hi as int),
{
    let mut r: Vec<char> = Vec::new();
    let mut i: usize = lo;
    while i < hi
        invariant
            lo <= i <= hi <= s.len(),
            r@ == s@.subrange(lo as int, i as int),
        decreases hi - i,
    {
        r.push(s[i]);
        assert(s@.subrange(lo as int, i + 1) =~= s@.subrange(lo as int, i as int).push(s[i as int]));
        i = i + 1;
    }
    r
}

/// Whether `m` is a mantissa with a digit other than zero.
fn mantissa_above_zero(m: &Vec<char>) -> (r: bool)
    ensures
        r == (mantissa(m@) && has_nonzero_digit(m@)),
{
    let mut dot = false;
    let mut digit = false;
    let mut nonzero = false;
    let mut k: usize = 0;
    while k < m.len()
        invariant
            k <= m.len(),
            forall|i: int| 0 <= i < k ==> is_digit(#[trigger] m@[i]) || m@[i] == '.',
            forall|i: int, j: int|
                0 <= i < k && 0 <= j < k && #[trigger] m@[i] == '.' && #[trigger] m@[j] == '.' ==> i
                    == j,
            dot <==> exists|i: int| 0 <= i < k && #[trigger] m@[i] == '.',
            digit <==> exists|i: int| 0 <= i < k && is_digit(#[trigger] m@[i]),
            nonzero <==> exists|i: int| 0 <= i < k && is_digit(#[trigger] m@[i]) && m@[i] != '0',
        decreases m.len() - k,
    {
        let c = m[k];
        if c == '.' {
            if dot {
                assert(!mantissa(m@)) by {
                    let i = choose|i: int| 0 <= i < k && #[trigger] m@[i] == '.';
                    assert(m@[i] == '.' && m@[k as int] == '.');
                }
                return false;
            }
            dot = true;
        } else if '0' <= c && c <= '9' {
            digit = true;
            if c != '0' {
                nonzero = true;
            }
        } else {
            assert(!mantissa(m@)) by {
                assert(!(is_digit(m@[k as int]) || m@[k as int] == '.'));
            }
            return false;
        }
        k = k + 1;
    }
    digit && nonzero
}

/// Whether `x` is what may follow an exponent's `e`.
fn exponent_ok(x: &Vec<char>) -> (r: bool)
    ensures
        r == exponent(x@),
{
    let start: usize = if x.len() > 0 && (x[0] == '+' || x[0] == '-') {
        1
    } else {
        0
    };
    let ghost d = if x@.len() > 0 && (x@[0] == '+' || x@[0] == '-') {
        x@.skip(1)
    } else {
        x@
    };
    assert(d =~= x@.skip(start as int));
    if start == x.len() {
        assert(d.len() == 0);
        assert(!exponent(x@));
        return false;
    }
    let mut k: usize = start;
    while k < x.len()
        invariant
            start <= k <= x.len(),
            d == x@.skip(start as int),
            d.len() > 0,
            exponent(x@) == all_digits(d),
            forall|i: int| start <= i < k ==> is_digit(#[trigger] x@[i]),
        decreases x.len() - k,
    {
        if !('0' <= x[k] && x[k] <= '9') {
            assert(!all_digits(d)) by {
                assert(d[k - start] == x@[k as int]);
            }
            return false;
        }
        k = k + 1;
    }
    assert(all_digits(d)) by {
        assert forall|i: int| 0 <= i < d.len() implies is_digit(#[trigger] d[i]) by {
            assert(d[i] == x@[i + start]);
        }
    }
    true
}

/// Where the first exponent mark stands in `s`, or its length.
fn first_exp_mark(s: &Vec<char>) -> (r: usize)
    ensures
        r <= s.len(),
        forall|i: int| 0 <= i < r ==> !is_exp_mark(#[trigger] s@[i]),
        r < s.len() ==> is_exp_mark(s@[r as int]),
{
    let mut k: usize = 0;
    while k < s.len()
        invariant
            k <= s.len(),
            forall|i: int| 0 <= i < k ==> !is_exp_mark(#[trigger] s@[i]),
        decreases s.len() - k,
    {
        if s[k] == 'e' || s[k] == 'E' {
            return k;
        }
        k = k + 1;
    }
    k
}

/// Whether `u` is an unsigned decimal number above zero.
fn unsigned_above_zero(u: &Vec<char>) -> (r: bool)
    ensures
        r == positive_unsigned(u@),
{
    let k = first_exp_mark(u);
    if k == u.len() {
        let r = mantissa_above_zero(u);
        assert(!exists|j: int|
            0 <= j < u@.len() && is_exp_mark(#[trigger] u@[j]) && mantissa(u@.take(j))
                && has_nonzero_digit(u@.take(j)) && exponent(u@.skip(j + 1)));
        r
    } else {
        let m = sub_chars(u, 0, k);
        let x = sub_chars(u, k + 1, u.len());
        assert(m@ == u@.take(k as int));
        assert(x@ == u@.skip(k + 1));
        let r = mantissa_above_zero(&m) && exponent_ok(&x);
        assert(!mantissa(u@)) by {
            assert(!(is_digit(u@[k as int]) || u@[k as int] == '.'));
        }
        assert forall|j: int|
            0 <= j < u@.len() && is_exp_mark(#[trigger] u@[j]) && mantissa(u@.take(j)) implies j
            == k by {
            if j > k {
                assert(u@.take(j)[k as int] == u@[k as int]);
                assert(!(is_digit(u@.take(j)[k as int]) || u@.take(j)[k as int] == '.'));
            }
        }
        r
    }
}

/// Whether a field is a valid latency, as [`positive_latency`] says.
pub fn latency_above_zero(field: &Vec<char>) -> (r: bool)
    ensures
        r == positive_latency(field@),
{
    if field.len() > 0 && field[0] == '+' {
        let u = sub_chars(field, 1, field.len());
        assert(u@ == field@.skip(1));
        unsigned_above_zero(&u)
    } else {
        unsigned_above_zero(field)
    }
}

/// The fields of each line.
pub open spec fn fields_each(ls: Seq<Seq<char>>) -> Seq<Seq<Seq<char>>> {
    ls.map_values(|l: Seq<char>| split_on(l, ','))
}

/// A row whose last field is a valid latency.
pub open spec fn kept(row: Seq<Seq<char>>) -> bool {
    row.len() > 0 && positive_latency(row.last())
}

/// The rows that are kept, in order.
pub open spec fn keep_valid(rows: Seq<Seq<Seq<char>>>) -> Seq<Seq<Seq<char>>> {
    rows.filter(|r: Seq<Seq<char>>| kept(r))
}

/// The rows of a result artifact: every line after the first (the header),
/// cut into fields at each comma, kept only where its last field is a valid
/// latency. A text of at most one line has none.
pub open spec fn rows_of(text: Seq<char>) -> Seq<Seq<Seq<char>>> {
    keep_valid(fields_each(after_header(lines_of(text))))
}

/// All lines but the first; none when there are none.
pub open spec fn after_header(ls: Seq<Seq<char>>) -> Seq<Seq<char>> {
    if ls.len() == 0 {
        ls
    } else {
        ls.skip(1)
    }
}

/// Views of a table of strings.
pub open spec fn table_view(rows: Seq<Vec<String>>) -> Seq<Seq<Seq<char>>> {
    rows.map_values(|r: Vec<String>| r@.map_values(|f: String| f@))
}

/// The string of the chars in `v`.
fn string_of(v: &Vec<char>) -> (r: String)
    ensures
        r@ == v@,
{
    let mut r = String::new();
    let mut i: usize = 0;
    while i < v.len()
        invariant
            i <= v.len(),
            r@ == v@.take(i as int),
        decreases v.len() - i,
    {
        push_char(&mut r, v[i]);
        assert(v@.take(i + 1) =~= v@.take(i as int).push(v[i as int]));
        i = i + 1;
    }
    assert(v@.take(v.len() as int) == v@);
    r
}

/// One string per char vector.
fn strings_of(fields: &Vec<Vec<char>>) -> (r: Vec<String>)
    ensures
        r@.map_values(|f: String| f@) == char_rows(fields@),
{
    let mut r: Vec<String> = Vec::new();
    let mut i: usize = 0;
    while i < fields.len()
        invariant
            i <= fields.len(),
            r.len() == i,
            forall|j: int| 0 <= j < i ==> (#[trigger] r@[j])@ == fields@[j]@,
        decreases fields.len() - i,
    {
        r.push(string_of(&fields[i]));
        i = i + 1;
    }
    assert(r@.map_values(|f: String| f@) =~= char_rows(fields@));
    r
}

/// Parses the text of a result artifact into the rows it keeps, as
/// [`rows_of`] says. The header line is always dropped; a row whose last field
/// is not a number above zero is left out, which is no error.
pub fn parse_rows(text: &str) -> (rows: Vec<Vec<String>>)
    ensures
        table_view(rows@) == rows_of(text@),
{
    let cs = chars_of(text);
    let lines = split_lines(&cs);
    let ghost body = after_header(char_rows(lines@));
    let mut rows: Vec<Vec<String>> = Vec::new();
    if lines.len() == 0 {
        assert(body.len() == 0);
        assert(fields_each(body) =~= Seq::empty());
        proof {
            reveal(Seq::filter);
        }
        return rows;
    }
    let mut i: usize = 1;
    while i < lines.len()
        invariant
            1 <= i <= lines.len(),
            body == char_rows(lines@).skip(1),
            body == after_header(lines_of(text@)),
            char_rows(lines@) == lines_of(cs@),
            cs@ == text@,
            table_view(rows@) == keep_valid(fields_each(body.take(i - 1))),
        decreases lines.len() - i,
    {
        let fields = split_chars(&lines[i], ',');
        proof {
            lemma_split_nonempty(lines@[i as int]@, ',');
        }
        let ghost f = char_rows(fields@);
        let keep = latency_above_zero(&fields[fields.len() - 1]);
        assert(body.take(i as int) =~= body.take(i - 1).push(lines@[i as int]@));
        assert(fields_each(body.take(i as int)) =~= fields_each(body.take(i - 1)).push(f));
        assert(f.last() == fields@[fields.len() - 1]@);
        proof {
            reveal(Seq::filter);
            assert(fields_each(body.take(i as int)).drop_last() == fields_each(body.take(i - 1)));
        }
        if keep {
            let ghost before = rows@;
            rows.push(strings_of(&fields));
            assert(table_view(rows@) =~= table_view(before).push(f));
        }
        i = i + 1;
    }
    assert(body.take(i - 1) == body);
    rows
}

/// A text without the delimiter is one piece.
proof fn lemma_split_without(s: Seq<char>, d: char)
    requires
        forall|i: int| 0 <= i < s.len() ==> s[i] != d,
    ensures
        split_on(s, d) == seq![s],
    decreases s.len(),
{
    if s.len() == 0 {
        assert(s =~= Seq::<char>::empty());
    } else {
        lemma_split_without(s.drop_last(), d);
        assert(s.drop_last().push(s.last()) =~= s);
        assert(seq![s.drop_last()].update(0, s) =~= seq![s]);
    }
}

/// An artifact of a header alone, or an empty one, has no rows: a text with
/// no line break but possibly one at its very end gives an empty table, not
/// an error.
pub proof fn lemma_header_only(text: Seq<char>)
    requires
        forall|i: int| 0 <= i < text.len() && text[i] == '\n' ==> i == text.len() - 1,
    ensures
        rows_of(text) == Seq::<Seq<Seq<char>>>::empty(),
{
    if text.len() > 0 && text.last() == '\n' {
        lemma_split_without(text.drop_last(), '\n');
        assert(split_on(text, '\n') == seq![text.drop_last(), Seq::<char>::empty()]);
    } else {
        lemma_split_without(text, '\n');
    }
    assert(lines_of(text).len() <= 1);
    assert(after_header(lines_of(text)).len() == 0);
    assert(fields_each(after_header(lines_of(text))) =~= Seq::empty());
    reveal(Seq::filter);
}

/// The text of the input artifact: the addresses joined by `\n`, with no
/// line break after the last.
pub open spec fn joined_lines(a: Seq<Seq<char>>) -> Seq<char>
    decreases a.len(),
{
    if a.len() == 0 {
        Seq::empty()
    } else if a.len() == 1 {
        a[0]
    } else {
        joined_lines(a.drop_last()) + seq!['\n'] + a.last()
    }
}

/// Views of a vector of strings.
pub open spec fn string_views(a: Seq<String>) -> Seq<Seq<char>> {
    a.map_values(|s: String| s@)
}

/// The input artifact for a run on `addresses`: one per line, in order. The
/// addresses are opaque here; none is checked.
pub fn input_artifact(addresses: &Vec<String>) -> (r: String)
    ensures
        r@ == joined_lines(string_views(addresses@)),
{
    let mut r = String::new();
    let mut i: usize = 0;
    while i < addresses.len()
        invariant
            i <= addresses.len(),
            r@ == joined_lines(string_views(addresses@).take(i as int)),
        decreases addresses.len() - i,
    {
        let ghost a = string_views(addresses@);
        assert(a.take(i + 1).drop_last() =~= a.take(i as int));
        if i > 0 {
            push_char(&mut r, '\n');
        } else {
            assert(a.take(0) =~= Seq::<Seq<char>>::empty());
        }
        r.append(addresses[i].as_str());
        i = i + 1;
    }
    assert(string_views(addresses@).take(i as int) =~= string_views(addresses@));
    r
}

} // verus!
