//! Text primitives: splitting a buffer into physical lines, cutting it into
//! line tokens, and building strings character by character.

use vstd::prelude::*;
use vstd::std_specs::iter::IteratorSpec;

verus! {

/// Appends one character to a `String` by `String::push`. Trusted: the new
/// contents are the old ones followed by `c`.
#[verifier::external_body]
pub(crate) fn push_char(s: &mut String, c: char)
    ensures
        final(s)@ == old(s)@.push(c),
{
    s.push(c);
}

/// The views of a sequence of strings, in order.
pub open spec fn views(v: Seq<String>) -> Seq<Seq<char>> {
    Seq::new(v.len(), |i: int| v[i]@)
}

/// `s` without one trailing carriage return, if it has one.
pub open spec fn strip_cr(s: Seq<char>) -> Seq<char> {
    if s.len() > 0 && s.last() == '\r' {
        s.drop_last()
    } else {
        s
    }
}

/// Index of the first line feed of `s`, or `s.len()` when it has none.
pub open spec fn newline_at(s: Seq<char>) -> nat
    decreases s.len(),
{
    if s.len() == 0 || s[0] == '\n' {
        0
    } else {
        1 + newline_at(s.drop_first())
    }
}

/// The physical lines of a text. A line ends at a line feed; the line feed,
/// and a carriage return directly before it, are not part of the line. A last
/// line without a line feed is a line as it stands; a text that ends in a line
/// feed has no empty line after it.
pub open spec fn text_lines(s: Seq<char>) -> Seq<Seq<char>>
    decreases s.len(),
{
    if s.len() == 0 {
        Seq::empty()
    } else {
        let k = newline_at(s);
        if k >= s.len() {
            seq![s]
        } else {
            seq![strip_cr(s.take(k as int))].add(text_lines(s.skip(k as int + 1)))
        }
    }
}

/// Whether position `i` of `s` holds a carriage return that no line feed
/// follows.
pub open spec fn bare_cr_at(s: Seq<char>, i: int) -> bool {
    0 <= i < s.len() && s[i] == '\r' && !(i + 1 < s.len() && s[i + 1] == '\n')
}

/// Whether `s` holds a carriage return that no line feed follows.
pub open spec fn has_bare_cr(s: Seq<char>) -> bool {
    exists|i: int| bare_cr_at(s, i)
}

/// Length of the first line token of `s`: the token runs up to and including
/// the first line ending, which is a line feed, a carriage return with a line
/// feed, or a carriage return alone; without a line ending it is all of `s`.
pub open spec fn first_token_len(s: Seq<char>) -> nat
    decreases s.len(),
{
    if s.len() == 0 {
        0
    } else if s[0] == '\n' {
        1
    } else if s[0] == '\r' {
        if s.len() > 1 && s[1] == '\n' {
            2
        } else {
            1
        }
    } else {
        1 + first_token_len(s.drop_first())
    }
}

/// The line tokens of a text: consecutive pieces, each with its line ending
/// attached, that together make up the text. A first token is never empty,
/// so the test on its length only serves to show that the pieces end.
pub open spec fn line_tokens(s: Seq<char>) -> Seq<Seq<char>>
    decreases s.len(),
{
    if s.len() == 0 {
        Seq::empty()
    } else {
        let n = first_token_len(s);
        if 0 < n <= s.len() {
            seq![s.take(n as int)].add(line_tokens(s.skip(n as int)))
        } else {
            seq![s]
        }
    }
}

/// `newline_at` is at most the length, and names a line feed when below it;
/// no line feed stands before it.
pub proof fn lemma_newline_at(s: Seq<char>)
    ensures
        newline_at(s) <= s.len(),
        newline_at(s) < s.len() ==> s[newline_at(s) as int] == '\n',
        forall|j: int| 0 <= j < newline_at(s) ==> s[j] != '\n',
    decreases s.len(),
{
    if s.len() == 0 || s[0] == '\n' {
    } else {
        let t = s.drop_first();
        lemma_newline_at(t);
        assert forall|j: int| 0 <= j < newline_at(s) implies s[j] != '\n' by {
            if j > 0 {
                assert(s[j] == t[j - 1]);
            }
        }
    }
}

/// A position with a line feed that no line feed precedes is `newline_at`.
pub proof fn lemma_newline_at_is(s: Seq<char>, k: int)
    requires
        0 <= k <= s.len(),
        forall|j: int| 0 <= j < k ==> s[j] != '\n',
        k < s.len() ==> s[k] == '\n',
    ensures
        newline_at(s) == k,
{
    lemma_newline_at(s);
    let n = newline_at(s) as int;
    if n < k {
        assert(s[n] == '\n');
    } else if n > k {
        assert(s[k] != '\n');
    }
}

/// The physical lines of each piece of `pieces`, one piece after the other.
pub open spec fn flat_lines(pieces: Seq<Seq<char>>) -> Seq<Seq<char>>
    decreases pieces.len(),
{
    if pieces.len() == 0 {
        Seq::empty()
    } else {
        flat_lines(pieces.drop_last()).add(text_lines(pieces.last()))
    }
}

/// `flat_lines` of a concatenation is the concatenation of the `flat_lines`.
pub proof fn lemma_flat_lines_add(x: Seq<Seq<char>>, y: Seq<Seq<char>>)
    ensures
        flat_lines(x.add(y)) == flat_lines(x).add(flat_lines(y)),
    decreases y.len(),
{
    if y.len() == 0 {
        assert(x.add(y) == x);
    } else {
        lemma_flat_lines_add(x, y.drop_last());
        assert(x.add(y).drop_last() == x.add(y.drop_last()));
        assert(x.add(y).last() == y.last());
    }
}

/// A text without a bare carriage return has none after any cut.
pub proof fn lemma_no_bare_cr_skip(s: Seq<char>, m: int)
    requires
        !has_bare_cr(s),
        0 <= m <= s.len(),
    ensures
        !has_bare_cr(s.skip(m)),
{
    let t = s.skip(m);
    if has_bare_cr(t) {
        let i = choose|i: int| bare_cr_at(t, i);
        assert(bare_cr_at(s, i + m));
    }
}

/// In a text without a bare carriage return the first line token ends with
/// the first line feed, or is the whole text when there is none.
pub proof fn lemma_first_token_ends_at_newline(s: Seq<char>)
    requires
        !has_bare_cr(s),
        s.len() > 0,
    ensures
        first_token_len(s) == if newline_at(s) < s.len() {
            newline_at(s) + 1
        } else {
            s.len()
        },
    decreases s.len(),
{
    lemma_newline_at(s);
    if s[0] == '\n' {
    } else if s[0] == '\r' {
        assert(!bare_cr_at(s, 0));
        lemma_newline_at_is(s, 1);
    } else {
        let t = s.drop_first();
        assert(t == s.skip(1));
        lemma_no_bare_cr_skip(s, 1);
        if t.len() > 0 {
            lemma_first_token_ends_at_newline(t);
        } else {
            assert(first_token_len(t) == 0);
            assert(newline_at(t) == 0);
        }
    }
}

/// Cutting a text without a bare carriage return into line tokens and each
/// token into lines gives the lines of the text.
pub proof fn lemma_tokens_lines(s: Seq<char>)
    requires
        !has_bare_cr(s),
    ensures
        flat_lines(line_tokens(s)) == text_lines(s),
    decreases s.len(),
{
    if s.len() == 0 {
    } else {
        lemma_first_token_ends_at_newline(s);
        lemma_newline_at(s);
        let k = newline_at(s) as int;
        let n = first_token_len(s) as int;
        let first = s.take(n);
        let rest = s.skip(n);
        lemma_no_bare_cr_skip(s, n);
        lemma_tokens_lines(rest);
        lemma_flat_lines_add(seq![first], line_tokens(rest));
        assert(flat_lines(seq![first]) == text_lines(first)) by {
            assert(flat_lines(seq![first].drop_last()) == Seq::<Seq<char>>::empty());
            assert(seq![first].last() == first);
            assert(Seq::<Seq<char>>::empty().add(text_lines(first)) == text_lines(first));
        }
        if k < s.len() {
            lemma_newline_at_is(first, k);
            assert(first.take(k) == s.take(k));
            assert(text_lines(first) == seq![strip_cr(s.take(k))]) by {
                assert(text_lines(first.skip(k + 1)) == Seq::<Seq<char>>::empty());
                assert(seq![strip_cr(first.take(k))].add(Seq::empty()) == seq![
                    strip_cr(first.take(k)),
                ]);
            }
        } else {
            assert(first == s);
            assert(rest.len() == 0);
            assert(text_lines(s).add(Seq::empty()) == text_lines(s));
        }
    }
}

/// Whether `s` holds no line feed.
pub open spec fn no_newline(s: Seq<char>) -> bool {
    forall|i: int| 0 <= i < s.len() ==> s[i] != '\n'
}

/// A line with its line feed, followed by more text, is that line and then
/// the lines of the rest.
pub proof fn lemma_first_line(line: Seq<char>, rest: Seq<char>)
    requires
        no_newline(line),
    ensures
        text_lines(line.push('\n').add(rest)) == seq![strip_cr(line)].add(text_lines(rest)),
{
    let s = line.push('\n').add(rest);
    let k = line.len() as int;
    lemma_newline_at_is(s, k);
    assert(s.take(k) == line);
    assert(s.skip(k + 1) == rest);
}

/// After a text that is empty or ends in a line feed, the lines of what
/// follows come after the lines of the text.
pub proof fn lemma_text_lines_add(a: Seq<char>, b: Seq<char>)
    requires
        a.len() == 0 || a.last() == '\n',
    ensures
        text_lines(a.add(b)) == text_lines(a).add(text_lines(b)),
    decreases a.len(),
{
    if a.len() == 0 {
        assert(a.add(b) == b);
        assert(text_lines(a).add(text_lines(b)) == text_lines(b));
    } else {
        lemma_newline_at(a);
        let k = newline_at(a) as int;
        assert(k < a.len()) by {
            if k >= a.len() {
                assert(a[a.len() - 1] != '\n');
            }
        }
        let line = a.take(k);
        let tail = a.skip(k + 1);
        assert(a == line.push('\n').add(tail));
        assert(a.add(b) == line.push('\n').add(tail.add(b)));
        lemma_first_line(line, tail);
        lemma_first_line(line, tail.add(b));
        if tail.len() > 0 {
            assert(tail.last() == a.last());
        }
        lemma_text_lines_add(tail, b);
        assert(seq![strip_cr(line)].add(text_lines(tail).add(text_lines(b))) == seq![
            strip_cr(line),
        ].add(text_lines(tail)).add(text_lines(b)));
    }
}

/// No physical line of a text holds a line feed.
pub proof fn lemma_lines_hold_no_newline(s: Seq<char>)
    ensures
        forall|i: int| 0 <= i < text_lines(s).len() ==> no_newline(#[trigger] text_lines(s)[i]),
    decreases s.len(),
{
    if s.len() > 0 {
        lemma_newline_at(s);
        let k = newline_at(s) as int;
        if k < s.len() {
            let rest = s.skip(k + 1);
            lemma_lines_hold_no_newline(rest);
            let first = strip_cr(s.take(k));
            assert(no_newline(first));
            assert forall|i: int| 0 <= i < text_lines(s).len() implies no_newline(
                #[trigger] text_lines(s)[i],
            ) by {
                if i > 0 {
                    assert(text_lines(s)[i] == text_lines(rest)[i - 1]);
                }
            }
        } else {
            assert(no_newline(s));
        }
    }
}

/// Copies the characters of a string slice into a vector.
pub fn to_chars(s: &str) -> (out: Vec<char>)
    ensures
        out@ == s@,
{
    let mut out: Vec<char> = Vec::new();
    for c in it: s.chars()
        invariant
            out@ == it.seq().take(it.index() as int),
            it.seq() == s@,
    {
        out.push(c);
    }
    out
}

/// The string made of `chars[from..to]`.
pub fn string_of(chars: &Vec<char>, from: usize, to: usize) -> (out: String)
    requires
        from <= to <= chars.len(),
    ensures
        out@ == chars@.subrange(from as int, to as int),
{
    let mut out = String::new();
    let mut i: usize = from;
    while i < to
        invariant
            from <= i <= to <= chars.len(),
            out@ == chars@.subrange(from as int, i as int),
        decreases to - i,
    {
        push_char(&mut out, chars[i]);
        i += 1;
    }
    out
}

/// Splits a text into its physical lines.
pub fn split_lines(text: &str) -> (out: Vec<String>)
    ensures
        views(out@) == text_lines(text@),
{
    let chars = to_chars(text);
    let n = chars.len();
    let mut out: Vec<String> = Vec::new();
    let mut start: usize = 0;
    let mut i: usize = 0;
    proof {
        assert(chars@.skip(0) == chars@);
        assert(views(out@).add(text_lines(chars@)) == text_lines(chars@));
    }
    while i < n
        invariant
            n == chars.len(),
            chars@ == text@,
            start <= i <= n,
            forall|j: int| start <= j < i ==> chars@[j] != '\n',
            text_lines(chars@) == views(out@).add(text_lines(chars@.skip(start as int))),
        decreases n - i,
    {
        if chars[i] == '\n' {
            let end: usize = if i > start && chars[i - 1] == '\r' {
                i - 1
            } else {
                i
            };
            let line = string_of(&chars, start, end);
            proof {
                let rest = chars@.skip(start as int);
                let k = i - start;
                lemma_newline_at_is(rest, k);
                assert(rest.take(k) == chars@.subrange(start as int, i as int));
                assert(strip_cr(rest.take(k)) == line@);
                assert(rest.skip(k + 1) == chars@.skip(i + 1));
                assert(views(out@.push(line)) == views(out@).push(line@));
            }
            out.push(line);
            start = i + 1;
        }
        i += 1;
    }
    if start < n {
        let line = string_of(&chars, start, n);
        proof {
            let rest = chars@.skip(start as int);
            lemma_newline_at_is(rest, rest.len() as int);
            assert(rest == chars@.subrange(start as int, n as int));
            assert(views(out@.push(line)) == views(out@).push(line@));
        }
        out.push(line);
    } else {
        assert(chars@.skip(start as int).len() == 0);
    }
    out
}

/// The character of a decimal digit.
pub open spec fn digit_char(d: nat) -> char {
    if d == 0 {
        '0'
    } else if d == 1 {
        '1'
    } else if d == 2 {
        '2'
    } else if d == 3 {
        '3'
    } else if d == 4 {
        '4'
    } else if d == 5 {
        '5'
    } else if d == 6 {
        '6'
    } else if d == 7 {
        '7'
    } else if d == 8 {
        '8'
    } else {
        '9'
    }
}

/// A number in decimal digits, without leading zeros.
pub open spec fn decimal(n: nat) -> Seq<char>
    decreases n,
{
    if n < 10 {
        seq![digit_char(n)]
    } else {
        decimal(n / 10).push(digit_char(n % 10))
    }
}

/// Different digits have different characters.
pub proof fn lemma_digit_char_injective(a: nat, b: nat)
    requires
        a < 10,
        b < 10,
        digit_char(a) == digit_char(b),
    ensures
        a == b,
{
}

/// Different numbers have different decimal digits.
pub proof fn lemma_decimal_injective(a: nat, b: nat)
    requires
        decimal(a) == decimal(b),
    ensures
        a == b,
    decreases a,
{
    if a < 10 && b < 10 {
        assert(decimal(a)[0] == digit_char(a));
        assert(decimal(b)[0] == digit_char(b));
        lemma_digit_char_injective(a, b);
    } else if a >= 10 && b >= 10 {
        let x = decimal(a / 10);
        let y = decimal(b / 10);
        assert(x.push(digit_char(a % 10)).drop_last() == x);
        assert(y.push(digit_char(b % 10)).drop_last() == y);
        assert(x.push(digit_char(a % 10)).last() == digit_char(a % 10));
        assert(y.push(digit_char(b % 10)).last() == digit_char(b % 10));
        lemma_decimal_injective(a / 10, b / 10);
        lemma_digit_char_injective(a % 10, b % 10);
    } else if a < 10 {
        lemma_decimal_len(b / 10);
        assert(decimal(b).len() >= 2);
    } else {
        lemma_decimal_len(a / 10);
        assert(decimal(a).len() >= 2);
    }
}

/// Every number has a digit.
pub proof fn lemma_decimal_len(n: nat)
    ensures
        decimal(n).len() >= 1,
    decreases n,
{
    if n >= 10 {
        lemma_decimal_len(n / 10);
    }
}

/// The character of the digit `d`.
pub fn digit(d: u8) -> (c: char)
    requires
        d < 10,
    ensures
        c == digit_char(d as nat),
{
    match d {
        0 => '0',
        1 => '1',
        2 => '2',
        3 => '3',
        4 => '4',
        5 => '5',
        6 => '6',
        7 => '7',
        8 => '8',
        _ => '9',
    }
}

/// Appends `n` in decimal digits.
pub fn push_decimal(out: &mut String, n: u128)
    ensures
        final(out)@ == old(out)@.add(decimal(n as nat)),
    decreases n,
{
    if n >= 10 {
        push_decimal(out, n / 10);
    }
    let d: u8 = (n % 10) as u8;
    push_char(out, digit(d));
}

} // verus!
