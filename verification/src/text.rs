//! Text primitives shared by the exporters: decimal rendering of indices,
//! splitting into lines, and concatenation of rendered pieces.
use crate::records::{lemma_records_text_append, lemma_records_text_small, records_text, single_line};
use vstd::prelude::*;
use vstd::std_specs::iter::IteratorSpec;

verus! {

/// The number of gaps between `n` consecutive samples.
pub open spec fn gaps(n: nat) -> nat {
    if n > 0 {
        (n - 1) as nat
    } else {
        0
    }
}

/// Concatenation of a sequence of text pieces, in order.
pub open spec fn concat(parts: Seq<Seq<char>>) -> Seq<char>
    decreases parts.len(),
{
    if parts.len() == 0 {
        Seq::empty()
    } else {
        concat(parts.drop_last()) + parts.last()
    }
}

/// Appending one more piece appends its text.
pub proof fn lemma_concat_push(parts: Seq<Seq<char>>, piece: Seq<char>)
    ensures
        concat(parts.push(piece)) == concat(parts) + piece,
{
    assert(parts.push(piece).drop_last() =~= parts);
}

/// The decimal digit character for `d < 10`.
pub open spec fn digit_char(d: nat) -> char {
    if d == 0 {
        '0'
    } else if d == 1 {
        '1'
    } else if d == 2 {
        '2'
    } else if d == 3 {
        '3'
    } else if d == 4 {
        '4'
    } else if d == 5 {
        '5'
    } else if d == 6 {
        '6'
    } else if d == 7 {
        '7'
    } else if d == 8 {
        '8'
    } else {
        '9'
    }
}

/// The decimal rendering of `n`, most significant digit first, without leading zeros.
pub open spec fn decimal(n: nat) -> Seq<char>
    decreases n,
{
    if n < 10 {
        seq![digit_char(n)]
    } else {
        decimal(n / 10).push(digit_char(n % 10))
    }
}

/// Appends `c` to `s` (`String::push`).
#[verifier::external_body]
pub fn push_char(s: &mut String, c: char)
    ensures
        final(s)@ == old(s)@.push(c),
{
    s.push(c);
}

fn digit(d: usize) -> (c: char)
    requires
        d < 10,
    ensures
        c == digit_char(d as nat),
{
    if d == 0 {
        '0'
    } else if d == 1 {
        '1'
    } else if d == 2 {
        '2'
    } else if d == 3 {
        '3'
    } else if d == 4 {
        '4'
    } else if d == 5 {
        '5'
    } else if d == 6 {
        '6'
    } else if d == 7 {
        '7'
    } else if d == 8 {
        '8'
    } else {
        '9'
    }
}

/// Appends the decimal rendering of `n`.
pub fn push_decimal(out: &mut String, n: usize)
    ensures
        final(out)@ == old(out)@ + decimal(n as nat),
    decreases n,
{
    if n >= 10 {
        push_decimal(out, n / 10);
    }
    let c = digit(n % 10);
    push_char(out, c);
}

/// Index of the first `c` in `s`, or `s.len()` when there is none.
pub open spec fn index_of(s: Seq<char>, c: char) -> nat
    decreases s.len(),
{
    if s.len() == 0 {
        0
    } else if s[0] == c {
        0
    } else {
        1 + index_of(s.drop_first(), c)
    }
}

/// A line taken from before a line feed loses one trailing carriage return.
pub open spec fn strip_cr(line: Seq<char>) -> Seq<char> {
    if line.len() > 0 && line.last() == '\r' {
        line.drop_last()
    } else {
        line
    }
}

/// The lines of `s`: pieces separated by `\n` (a `\r` right before it belongs to the
/// separator); a final line feed does not start another, empty, line.
pub open spec fn lines(s: Seq<char>) -> Seq<Seq<char>>
    decreases s.len(),
{
    if s.len() == 0 {
        Seq::empty()
    } else {
        let i = index_of(s, '\n');
        if i < s.len() {
            seq![strip_cr(s.take(i as int))] + lines(s.skip(i as int + 1))
        } else {
            seq![s]
        }
    }
}

pub open spec fn no_newline(s: Seq<char>) -> bool {
    forall|j: int| 0 <= j < s.len() ==> s[j] != '\n'
}

proof fn lemma_newline_index_bound(s: Seq<char>)
    ensures
        index_of(s, '\n') <= s.len(),
        index_of(s, '\n') < s.len() ==> s[index_of(s, '\n') as int] == '\n',
    decreases s.len(),
{
    if s.len() > 0 && s[0] != '\n' {
        lemma_newline_index_bound(s.drop_first());
    }
}

proof fn lemma_newline_after(c: Seq<char>, r: Seq<char>)
    requires
        no_newline(c),
    ensures
        r.len() > 0 && r[0] == '\n' ==> index_of(c + r, '\n') == c.len(),
        r.len() == 0 ==> index_of(c + r, '\n') == c.len(),
    decreases c.len(),
{
    if c.len() > 0 {
        assert((c + r).drop_first() =~= c.drop_first() + r);
        lemma_newline_after(c.drop_first(), r);
    } else {
        assert(c + r =~= r);
    }
}

/// Drops one trailing carriage return.
fn strip_line_end(line: Vec<char>) -> (out: Vec<char>)
    ensures
        out@ == strip_cr(line@),
{
    let mut line = line;
    let n = line.len();
    if n > 0 && line[n - 1] == '\r' {
        line.pop();
    }
    line
}

/// Splits `s` into its `lines` (`str::lines`), each as a vector of characters.
pub fn split_lines(s: &str) -> (out: Vec<Vec<char>>)
    ensures
        out@.len() == lines(s@).len(),
        forall|i: int| 0 <= i < out@.len() ==> #[trigger] out@[i]@ == lines(s@)[i],
{
    broadcast use vstd::string::group_string_axioms;

    let ghost text = s@;
    let mut it = s.chars();
    let mut out: Vec<Vec<char>> = Vec::new();
    let mut current: Vec<char> = Vec::new();
    let ghost mut done: Seq<Seq<char>> = Seq::empty();
    let ghost mut k: int = 0;
    assert(current@ + text.skip(0) =~= text);
    loop
        invariant_except_break
            it.remaining() == text.skip(k),
            it.obeys_prophetic_iter_laws(),
            no_newline(current@),
            done + lines(current@ + text.skip(k)) == lines(text),
        invariant
            0 <= k <= text.len(),
            out@.len() == done.len(),
            forall|i: int| 0 <= i < out@.len() ==> #[trigger] out@[i]@ == done[i],
        ensures
            done == lines(text),
        decreases text.len() - k,
    {
        let next = it.next();
        match next {
            Some(c) => {
                proof {
                    assert(text.skip(k)[0] == c);
                    assert(text.skip(k).drop_first() =~= text.skip(k + 1));
                }
                if c == '\n' {
                    let ghost cur = current@;
                    proof {
                        let r = text.skip(k);
                        lemma_newline_after(cur, r);
                        let whole = cur + r;
                        assert(whole.take(cur.len() as int) =~= cur);
                        assert(whole.skip(cur.len() as int + 1) =~= text.skip(k + 1));
                        assert(lines(whole) == seq![strip_cr(cur)] + lines(text.skip(k + 1)));
                        assert(done.push(strip_cr(cur)) + lines(Seq::<char>::empty() + text.skip(k + 1))
                            =~= done + lines(whole)) by {
                            assert(Seq::<char>::empty() + text.skip(k + 1) =~= text.skip(k + 1));
                        }
                    }
                    let line = strip_line_end(current);
                    out.push(line);
                    current = Vec::new();
                    proof {
                        done = done.push(strip_cr(cur));
                    }
                } else {
                    let ghost cur = current@;
                    current.push(c);
                    proof {
                        assert(current@ + text.skip(k + 1) =~= cur + text.skip(k));
                    }
                }
                proof {
                    k = k + 1;
                }
            },
            None => {
                proof {
                    assert(k == text.len());
                    assert(text.skip(k) =~= Seq::<char>::empty());
                    assert(current@ + text.skip(k) =~= current@);
                    lemma_newline_after(current@, Seq::empty());
                    assert(current@ + Seq::<char>::empty() =~= current@);
                }
                if current.len() > 0 {
                    let ghost cur = current@;
                    out.push(current);
                    proof {
                        assert(lines(cur) == seq![cur]);
                        assert(done.push(cur) =~= done + seq![cur]);
                        done = done.push(cur);
                    }
                } else {
                    proof {
                        assert(lines(current@) =~= Seq::<Seq<char>>::empty());
                        assert(done + lines(current@) =~= done);
                    }
                }
                break;
            },
        }
    }
    out
}


/// Appends `piece`.
pub fn push_str(out: &mut String, piece: &str)
    ensures
        final(out)@ == old(out)@ + piece@,
{
    out.append(piece);
}

/// Appends all characters of `piece`.
pub fn push_chars(out: &mut String, piece: &Vec<char>)
    ensures
        final(out)@ == old(out)@ + piece@,
{
    let ghost start = out@;
    let mut i: usize = 0;
    while i < piece.len()
        invariant
            i <= piece.len(),
            out@ == start + piece@.take(i as int),
        decreases piece.len() - i,
    {
        push_char(out, piece[i]);
        i += 1;
        assert(out@ =~= start + piece@.take(i as int));
    }
    assert(piece@.take(i as int) =~= piece@);
}

/// Extending `Seq::new` by one element extends the concatenation by that piece.
pub proof fn lemma_concat_new_step(n: nat, f: spec_fn(int) -> Seq<char>)
    ensures
        concat(Seq::new(n + 1, f)) == concat(Seq::new(n, f)) + f(n as int),
{
    assert(Seq::new(n + 1, f) =~= Seq::new(n, f).push(f(n as int)));
    lemma_concat_push(Seq::new(n, f), f(n as int));
}

/// The first occurrence is no later than any occurrence.
pub proof fn lemma_index_of_first(s: Seq<char>, c: char, j: int)
    requires
        0 <= j < s.len(),
        s[j] == c,
    ensures
        index_of(s, c) <= j,
        index_of(s, c) < s.len(),
        s[index_of(s, c) as int] == c,
    decreases s.len(),
{
    if s[0] != c {
        lemma_index_of_first(s.drop_first(), c, j - 1);
    }
}

/// `s` with `middle` inserted right after the first `>` and the character after it
/// (where an opening tag and its line break end).
pub open spec fn insert_after_tag(s: Seq<char>, middle: Seq<char>) -> Seq<char> {
    let k = index_of(s, '>') + 2;
    s.take(k as int) + middle + s.skip(k as int)
}

/// The characters of `s`.
pub fn chars_of(s: &str) -> (out: Vec<char>)
    ensures
        out@ == s@,
{
    broadcast use vstd::string::group_string_axioms;

    let ghost text = s@;
    let mut it = s.chars();
    let mut out: Vec<char> = Vec::new();
    loop
        invariant_except_break
            it.remaining() == text.skip(out@.len() as int),
            it.obeys_prophetic_iter_laws(),
            out@ == text.take(out@.len() as int),
            out@.len() <= text.len(),
        ensures
            out@ == text,
        decreases text.len() - out@.len(),
    {
        match it.next() {
            Some(c) => {
                proof {
                    assert(text.skip(out@.len() as int)[0] == c);
                    assert(text.skip(out@.len() as int).drop_first() =~= text.skip(out@.len() as int + 1));
                }
                out.push(c);
                assert(out@ =~= text.take(out@.len() as int));
            },
            None => {
                assert(text.take(text.len() as int) =~= text);
                break;
            },
        }
    }
    out
}

/// Splits `s` right after the first `>` and the character after it.
pub fn split_after_tag(s: &String) -> (r: (String, String))
    requires
        index_of(s@, '>') + 2 <= s@.len(),
    ensures
        r.0@ == s@.take(index_of(s@, '>') as int + 2),
        r.1@ == s@.skip(index_of(s@, '>') as int + 2),
{
    let cs = chars_of(s.as_str());
    let mut k: usize = 0;
    assert(cs@.skip(0) =~= cs@);
    while k < cs.len() && cs[k] != '>'
        invariant
            k <= cs.len(),
            cs@ == s@,
            index_of(cs@.skip(k as int), '>') + k == index_of(cs@, '>'),
        decreases cs.len() - k,
    {
        proof {
            assert(cs@.skip(k as int).drop_first() =~= cs@.skip(k + 1));
        }
        k += 1;
    }
    proof {
        if k < cs.len() {
            assert(cs@.skip(k as int)[0] == '>');
        }
        assert(index_of(cs@, '>') == k);
    }
    let mut head = String::new();
    let mut tail = String::new();
    let mut i: usize = 0;
    while i < cs.len()
        invariant
            i <= cs.len(),
            k + 2 <= cs.len(),
            cs@ == s@,
            i <= k + 2 ==> head@ == cs@.take(i as int) && tail@ == Seq::<char>::empty(),
            i > k + 2 ==> head@ == cs@.take(k + 2) && tail@ == cs@.subrange(k + 2, i as int),
        decreases cs.len() - i,
    {
        if i < k + 2 {
            push_char(&mut head, cs[i]);
        } else {
            push_char(&mut tail, cs[i]);
        }
        i += 1;
        assert(i <= k + 2 ==> head@ =~= cs@.take(i as int));
        assert(i > k + 2 ==> tail@ =~= cs@.subrange(k + 2, i as int));
    }
    assert(cs@.subrange(k + 2, cs@.len() as int) =~= cs@.skip(k + 2));
    assert(cs@.take(k + 2) =~= cs@.take(k + 2));
    if k + 2 == cs.len() {
        assert(cs@.skip(k + 2) =~= Seq::<char>::empty());
    }
    (head, tail)
}

proof fn lemma_newline_index_prefix(t: Seq<char>, r: Seq<char>)
    requires
        index_of(t, '\n') < t.len(),
    ensures
        index_of(t + r, '\n') == index_of(t, '\n'),
    decreases t.len(),
{
    if t[0] != '\n' {
        assert((t + r).drop_first() =~= t.drop_first() + r);
        lemma_newline_index_prefix(t.drop_first(), r);
    }
}

/// A final line ending adds no line: text that ends neither in `\n` nor in `\r` has the
/// same lines with a line feed appended.
pub proof fn lemma_lines_final_line_feed(t: Seq<char>)
    requires
        t.len() > 0,
        t.last() != '\n',
        t.last() != '\r',
    ensures
        lines(t.push('\n')) == lines(t),
    decreases t.len(),
{
    let tn = t.push('\n');
    lemma_newline_index_bound(t);
    let i = index_of(t, '\n');
    if i < t.len() {
        assert(tn =~= t + seq!['\n']);
        lemma_newline_index_prefix(t, seq!['\n']);
        assert(tn.take(i as int) =~= t.take(i as int));
        let rest = t.skip(i as int + 1);
        assert(tn.skip(i as int + 1) =~= rest.push('\n'));
        assert(i < t.len() - 1);
        assert(rest.last() == t.last());
        lemma_lines_final_line_feed(rest);
    } else {
        assert(no_newline(t)) by {
            assert forall|j: int| 0 <= j < t.len() implies t[j] != '\n' by {
                if t[j] == '\n' {
                    lemma_index_of_first(t, '\n', j);
                }
            }
        }
        lemma_newline_after(t, seq!['\n']);
        assert(tn =~= t + seq!['\n']);
        assert(tn.take(t.len() as int) =~= t);
        assert(tn.skip(t.len() as int + 1) =~= Seq::<char>::empty());
        assert(strip_cr(t) == t);
        assert(lines(tn) =~= seq![t] + lines(Seq::<char>::empty()));
    }
}


/// The value of a string of decimal digits, most significant first.
pub open spec fn decimal_value(s: Seq<char>) -> int
    decreases s.len(),
{
    if s.len() == 0 {
        0
    } else {
        decimal_value(s.drop_last()) * 10 + (s.last() as int - '0' as int)
    }
}

proof fn lemma_digit_char_value(d: nat)
    requires
        d < 10,
    ensures
        digit_char(d) as int - '0' as int == d,
        '0' <= digit_char(d) <= '9',
{
    assert('0' as int == 48 && '1' as int == 49 && '2' as int == 50 && '3' as int == 51
        && '4' as int == 52 && '5' as int == 53 && '6' as int == 54 && '7' as int == 55
        && '8' as int == 56 && '9' as int == 57);
}

/// The rendering of `n` is a string of decimal digits, without a leading zero, whose value
/// is `n`.
pub proof fn lemma_decimal_value(n: nat)
    ensures
        decimal(n).len() >= 1,
        forall|j: int| 0 <= j < decimal(n).len() ==> '0' <= #[trigger] decimal(n)[j] <= '9',
        decimal_value(decimal(n)) == n,
        n > 0 ==> decimal(n)[0] != '0',
    decreases n,
{
    if n < 10 {
        lemma_digit_char_value(n);
        let s = decimal(n);
        assert(s == seq![digit_char(n)]);
        assert(s.drop_last() =~= Seq::<char>::empty());
        assert(decimal_value(Seq::<char>::empty()) == 0);
        assert(decimal_value(s) == decimal_value(s.drop_last()) * 10 + (s.last() as int - '0' as int));
    } else {
        lemma_decimal_value(n / 10);
        lemma_digit_char_value(n % 10);
        let p = decimal(n / 10);
        let s = decimal(n);
        assert(s == p.push(digit_char(n % 10)));
        assert(s.drop_last() =~= p);
        assert(s[0] == p[0]);
        assert(decimal_value(s) == decimal_value(p) * 10 + (digit_char(n % 10) as int - '0' as int));
        assert((n / 10) * 10 + n % 10 == n);
    }
}

/// Before the first `c` there is no `c`; without any `c` the index is the length.
pub proof fn lemma_index_of_before(s: Seq<char>, c: char)
    ensures
        index_of(s, c) <= s.len(),
        forall|j: int| 0 <= j < index_of(s, c) ==> s[j] != c,
        (forall|j: int| 0 <= j < s.len() ==> s[j] != c) ==> index_of(s, c) == s.len(),
    decreases s.len(),
{
    if s.len() > 0 && s[0] != c {
        lemma_index_of_before(s.drop_first(), c);
        assert forall|j: int| 0 <= j < index_of(s, c) implies s[j] != c by {
            if j > 0 {
                assert(s[j] == s.drop_first()[j - 1]);
            }
        }
        if forall|j: int| 0 <= j < s.len() ==> s[j] != c {
            assert forall|j: int| 0 <= j < s.drop_first().len() implies s.drop_first()[j] != c by {
                assert(s.drop_first()[j] == s[j + 1]);
            }
        }
    }
}

/// Without carriage returns, the lines of a text, each followed by a line feed, give the
/// text back (with a line feed added if it did not end in one); no line holds a line feed.
pub proof fn lemma_lines_rejoin(s: Seq<char>)
    requires
        forall|j: int| 0 <= j < s.len() ==> s[j] != '\r',
    ensures
        forall|k: int| 0 <= k < lines(s).len() ==> single_line(#[trigger] lines(s)[k]),
        records_text(lines(s)) == if s.len() == 0 || s.last() == '\n' {
            s
        } else {
            s + "\n"@
        },
    decreases s.len(),
{
    reveal_strlit("\n");
    if s.len() == 0 {
        assert(lines(s) =~= Seq::<Seq<char>>::empty());
    } else {
        let i = index_of(s, '\n');
        lemma_index_of_before(s, '\n');
        lemma_newline_index_bound(s);
        if i < s.len() {
            let head = s.take(i as int);
            let rest = s.skip(i as int + 1);
            assert(strip_cr(head) == head) by {
                if head.len() > 0 {
                    assert(head.last() == s[i - 1]);
                }
            }
            assert forall|j: int| 0 <= j < rest.len() implies rest[j] != '\r' by {
                assert(rest[j] == s[i + 1 + j]);
            }
            lemma_lines_rejoin(rest);
            let ls = lines(s);
            assert(ls == seq![head] + lines(rest));
            lemma_records_text_append(seq![head], lines(rest));
            lemma_records_text_small(head, head, head, head);
            assert(single_line(head));
            assert forall|k: int| 0 <= k < ls.len() implies single_line(#[trigger] ls[k]) by {
                if k > 0 {
                    assert(ls[k] == lines(rest)[k - 1]);
                }
            }
            if rest.len() == 0 {
                assert(records_text(lines(rest)) =~= Seq::<char>::empty());
                assert(head + "\n"@ =~= s);
            } else {
                assert(rest.last() == s.last());
                if s.last() == '\n' {
                    assert(head + "\n"@ + rest =~= s);
                } else {
                    assert(head + "\n"@ + (rest + "\n"@) =~= s + "\n"@);
                }
            }
        } else {
            assert(lines(s) == seq![s]);
            lemma_records_text_small(s, s, s, s);
            assert(single_line(s));
        }
    }
}

} // verus!
