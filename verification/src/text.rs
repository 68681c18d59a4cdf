//! Text as sequences of characters: order, decimal numbers, and splitting into lines.

use vstd::prelude::*;

verus! {

/// `String::push` of std appends the given character to the end of the string.
pub assume_specification[ String::push ](s: &mut String, ch: char)
    ensures
        final(s)@ == old(s)@.push(ch),
;

/// The characters of a string.
pub fn to_chars(s: &str) -> (r: Vec<char>)
    ensures
        r@ == s@,
{
    let mut out: Vec<char> = Vec::new();
    for c in it: s.chars()
        invariant
            it.seq() == s@,
            out@ == s@.take(it.index() as int),
    {
        out.push(c);
        assert(out@ =~= s@.take(it.index() + 1));
    }
    assert(s@.take(s@.len() as int) =~= s@);
    out
}

/// The string made of the characters from `from` up to `to`.
pub fn from_chars(chars: &Vec<char>, from: usize, to: usize) -> (r: String)
    requires
        from <= to <= chars@.len(),
    ensures
        r@ == chars@.subrange(from as int, to as int),
{
    let mut out: String = String::new();
    let mut i: usize = from;
    while i < to
        invariant
            from <= i <= to <= chars@.len(),
            out@ == chars@.subrange(from as int, i as int),
        decreases to - i,
    {
        out.push(chars[i]);
        i = i + 1;
        assert(out@ =~= chars@.subrange(from as int, i as int));
    }
    out
}

/// The contents of a sequence of strings.
pub open spec fn texts(strings: Seq<String>) -> Seq<Seq<char>> {
    strings.map_values(|s: String| s@)
}

/// The content of an optional string.
pub open spec fn opt_text(s: Option<String>) -> Option<Seq<char>> {
    match s {
        Some(s) => Some(s@),
        None => None,
    }
}

/// `a` comes before `b` in the order of strings: at the first place where they differ, `a` has
/// the smaller code point or has already ended.
pub open spec fn precedes(a: Seq<char>, b: Seq<char>) -> bool
    decreases a.len(),
{
    if b.len() == 0 {
        false
    } else if a.len() == 0 {
        true
    } else if a[0] != b[0] {
        (a[0] as int) < (b[0] as int)
    } else {
        precedes(a.drop_first(), b.drop_first())
    }
}

/// Of two strings, either one precedes the other or they are equal, and only one of these holds.
pub proof fn law_order_total(a: Seq<char>, b: Seq<char>)
    ensures
        a == b ==> !precedes(a, b) && !precedes(b, a),
        a != b ==> precedes(a, b) != precedes(b, a),
    decreases a.len(),
{
    if a.len() > 0 && b.len() > 0 && a[0] == b[0] {
        law_order_total(a.drop_first(), b.drop_first());
        if a.drop_first() == b.drop_first() {
            assert(a =~= seq![a[0]] + a.drop_first());
            assert(b =~= seq![b[0]] + b.drop_first());
        }
    } else if a.len() == 0 && b.len() == 0 {
        assert(a =~= b);
    }
}

/// The order of strings is transitive.
pub proof fn law_order_transitive(a: Seq<char>, b: Seq<char>, c: Seq<char>)
    requires
        precedes(a, b),
        precedes(b, c),
    ensures
        precedes(a, c),
    decreases a.len(),
{
    if a.len() > 0 && a[0] == b[0] && b[0] == c[0] {
        law_order_transitive(a.drop_first(), b.drop_first(), c.drop_first());
    }
}

/// Whether `a` comes before `b` in the order of strings.
pub fn text_precedes(a: &str, b: &str) -> (r: bool)
    ensures
        r == precedes(a@, b@),
{
    let left: Vec<char> = to_chars(a);
    let right: Vec<char> = to_chars(b);
    let mut i: usize = 0;
    assert(a@.skip(0) =~= a@ && b@.skip(0) =~= b@);
    while i < left.len() && i < right.len()
        invariant
            left@ == a@,
            right@ == b@,
            i <= left@.len(),
            i <= right@.len(),
            precedes(a@, b@) == precedes(a@.skip(i as int), b@.skip(i as int)),
        decreases left@.len() - i,
    {
        let x: char = left[i];
        let y: char = right[i];
        if x != y {
            return x < y;
        }
        assert(a@.skip(i as int).drop_first() =~= a@.skip(i + 1));
        assert(b@.skip(i as int).drop_first() =~= b@.skip(i + 1));
        i = i + 1;
    }
    i < right.len()
}

/// The decimal digit for a number below ten.
pub open spec fn digit(d: nat) -> char {
    if d == 0 {
        '0'
    } else if d == 1 {
        '1'
    } else if d == 2 {
        '2'
    } else if d == 3 {
        '3'
    } else if d == 4 {
        '4'
    } else if d == 5 {
        '5'
    } else if d == 6 {
        '6'
    } else if d == 7 {
        '7'
    } else if d == 8 {
        '8'
    } else {
        '9'
    }
}

/// A number in decimal digits, without leading zeros.
pub open spec fn decimal(n: nat) -> Seq<char>
    decreases n,
{
    if n < 10 {
        seq![digit(n)]
    } else {
        decimal(n / 10).push(digit(n % 10))
    }
}

/// A signed number in decimal digits, with a minus sign if it is negative.
pub open spec fn signed_decimal(n: int) -> Seq<char> {
    if n < 0 {
        seq!['-'] + decimal((-n) as nat)
    } else {
        decimal(n as nat)
    }
}

fn digit_char(d: u64) -> (r: char)
    requires
        d < 10,
    ensures
        r == digit(d as nat),
{
    match d {
        0 => '0',
        1 => '1',
        2 => '2',
        3 => '3',
        4 => '4',
        5 => '5',
        6 => '6',
        7 => '7',
        8 => '8',
        _ => '9',
    }
}

/// The text of an unsigned number.
pub fn decimal_text(n: u64) -> (r: String)
    ensures
        r@ == decimal(n as nat),
    decreases n,
{
    if n < 10 {
        let mut out: String = String::new();
        out.push(digit_char(n));
        assert(out@ =~= decimal(n as nat));
        out
    } else {
        let mut out: String = decimal_text(n / 10);
        out.push(digit_char(n % 10));
        out
    }
}

/// The text of a signed number.
pub fn signed_decimal_text(n: i64) -> (r: String)
    ensures
        r@ == signed_decimal(n as int),
{
    if n < 0 {
        let mut out: String = String::new();
        out.push('-');
        let size: u64 = (-(n as i128)) as u64;
        let digits: String = decimal_text(size);
        out.append(digits.as_str());
        assert(out@ =~= signed_decimal(n as int));
        out
    } else {
        decimal_text(n as u64)
    }
}

/// The index of the first newline, or the length if there is none.
pub open spec fn first_newline(s: Seq<char>) -> nat
    decreases s.len(),
{
    if s.len() == 0 || s[0] == '\n' {
        0
    } else {
        1 + first_newline(s.drop_first())
    }
}

/// A line without the carriage return that stood before its newline.
pub open spec fn without_return(line: Seq<char>) -> Seq<char> {
    if line.len() > 0 && line.last() == '\r' {
        line.drop_last()
    } else {
        line
    }
}

/// The lines of a text. A line ends at a newline or at a carriage return and a newline, which
/// are not part of it; the newline after the last line may be missing.
pub open spec fn lines_of(s: Seq<char>) -> Seq<Seq<char>>
    decreases s.len(),
{
    let end = first_newline(s);
    if s.len() == 0 {
        Seq::empty()
    } else if end >= s.len() {
        seq![s]
    } else {
        seq![without_return(s.take(end as int))] + lines_of(s.skip(end as int + 1))
    }
}

/// A text has no lines only if it is empty.
pub proof fn law_only_empty_text_has_no_lines(s: Seq<char>)
    ensures
        lines_of(s).len() == 0 <==> s.len() == 0,
{
}

/// No line of a text holds a newline.
pub proof fn law_lines_hold_no_newline(s: Seq<char>, i: int)
    requires
        0 <= i < lines_of(s).len(),
    ensures
        !lines_of(s)[i].contains('\n'),
    decreases s.len(),
{
    let end = first_newline(s);
    lemma_before_newline(s);
    if end < s.len() {
        if i > 0 {
            law_lines_hold_no_newline(s.skip(end as int + 1), i - 1);
            assert(lines_of(s)[i] == lines_of(s.skip(end as int + 1))[i - 1]);
        } else {
            assert(forall|k: int|
                0 <= k < lines_of(s)[0].len() ==> #[trigger] lines_of(s)[0][k] == s[k]);
        }
    }
}

/// A text without newlines is one line.
pub proof fn law_one_line(s: Seq<char>)
    requires
        s.len() > 0,
        !s.contains('\n'),
    ensures
        lines_of(s) == seq![s],
{
    lemma_first_newline(s, s.len());
}

proof fn lemma_before_newline(s: Seq<char>)
    ensures
        first_newline(s) <= s.len(),
        forall|k: int| 0 <= k < first_newline(s) ==> s[k] != '\n',
    decreases s.len(),
{
    if s.len() > 0 && s[0] != '\n' {
        let rest = s.drop_first();
        lemma_before_newline(rest);
        assert forall|k: int| 0 <= k < first_newline(s) implies s[k] != '\n' by {
            if k > 0 {
                assert(s[k] == rest[k - 1]);
            }
        }
    }
}

proof fn lemma_first_newline(s: Seq<char>, k: nat)
    requires
        k <= s.len(),
        forall|i: int| 0 <= i < k ==> s[i] != '\n',
        k == s.len() || s[k as int] == '\n',
    ensures
        first_newline(s) == k,
    decreases k,
{
    if k > 0 {
        lemma_first_newline(s.drop_first(), (k - 1) as nat);
    }
}

/// The lines of a text, first line first.
pub fn split_lines(s: &str) -> (r: Vec<String>)
    ensures
        texts(r@) == lines_of(s@),
{
    let chars: Vec<char> = to_chars(s);
    let mut out: Vec<String> = Vec::new();
    let mut start: usize = 0;
    assert(chars@.skip(0) =~= s@);
    assert(texts(out@) + lines_of(s@) =~= lines_of(s@));
    while start < chars.len()
        invariant
            chars@ == s@,
            start <= chars@.len(),
            texts(out@) + lines_of(chars@.skip(start as int)) == lines_of(s@),
        decreases chars@.len() - start,
    {
        let mut end: usize = start;
        while end < chars.len() && chars[end] != '\n'
            invariant
                start <= end <= chars@.len(),
                forall|i: int| start <= i < end ==> chars@[i] != '\n',
            decreases chars@.len() - end,
        {
            end = end + 1;
        }
        let ghost rest = chars@.skip(start as int);
        let ghost before = texts(out@);
        proof {
            lemma_first_newline(rest, (end - start) as nat);
        }
        if end == chars.len() {
            let line: String = from_chars(&chars, start, end);
            assert(line@ =~= rest);
            out.push(line);
            start = end;
            assert(texts(out@) =~= before.push(rest));
            assert(lines_of(chars@.skip(start as int)) =~= Seq::<Seq<char>>::empty());
            assert(texts(out@) + lines_of(chars@.skip(start as int)) =~= before + lines_of(rest));
        } else {
            let stop: usize = if end > start && chars[end - 1] == '\r' {
                end - 1
            } else {
                end
            };
            let line: String = from_chars(&chars, start, stop);
            assert(line@ =~= without_return(rest.take(end - start)));
            out.push(line);
            assert(rest.skip(end - start + 1) =~= chars@.skip(end + 1));
            assert(texts(out@) =~= before.push(line@));
            start = end + 1;
            assert(texts(out@) + lines_of(chars@.skip(start as int)) =~= before + lines_of(rest));
        }
    }
    assert(lines_of(chars@.skip(start as int)) =~= Seq::<Seq<char>>::empty());
    assert(texts(out@) =~= lines_of(s@));
    out
}

/// The first place where two strings differ decides their order, and a string comes before those
/// that it is the start of.
pub proof fn law_first_difference_decides(a: Seq<char>, b: Seq<char>, i: int)
    requires
        0 <= i <= a.len(),
        i < b.len(),
        a.take(i) == b.take(i),
    ensures
        i == a.len() ==> precedes(a, b) && !precedes(b, a),
        i < a.len() && a[i] != b[i] ==> (precedes(a, b) <==> (a[i] as int) < (b[i] as int)),
        forall|r: bool, x: &str, y: &str|
            (x@ == a && y@ == b && #[trigger] call_ensures(text_precedes, (x, y), r)) ==> r
                == precedes(a, b),
    decreases i,
{
    if i > 0 {
        let x: char = a.take(i)[0];
        let y: char = b.take(i)[0];
        assert(x == a[0] && y == b[0]);
        assert(a.drop_first().take(i - 1) =~= a.take(i).drop_first());
        assert(b.drop_first().take(i - 1) =~= b.take(i).drop_first());
        law_first_difference_decides(a.drop_first(), b.drop_first(), i - 1);
    }
}

/// What a sequence of decimal digits counts.
pub open spec fn number_of(digits: Seq<char>) -> int
    decreases digits.len(),
{
    if digits.len() == 0 {
        0
    } else {
        number_of(digits.drop_last()) * 10 + (digits.last() as int - '0' as int)
    }
}

/// Decimal digits count the number that they were written for. They are digits, and the first is
/// no zero but for the number zero.
pub proof fn law_digits_count(n: nat)
    ensures
        number_of(decimal(n)) == n,
        decimal(n).len() > 0,
        forall|i: int|
            0 <= i < decimal(n).len() ==> '0' as int <= #[trigger] decimal(n)[i] as int <= '9' as int,
        n > 0 ==> decimal(n)[0] != '0',
    decreases n,
{
    if n < 10 {
        let d = decimal(n);
        assert(d.drop_last() =~= Seq::<char>::empty());
        assert(number_of(d.drop_last()) == 0);
    } else {
        law_digits_count(n / 10);
        let front = decimal(n / 10);
        let d = decimal(n);
        assert(d.drop_last() =~= front);
        assert forall|i: int| 0 <= i < d.len() implies '0' as int <= #[trigger] d[i] as int
            <= '9' as int by {
            if i < front.len() {
                assert(d[i] == front[i]);
            }
        }
        assert(d[0] == front[0]);
    }
}

/// Numbers are written in digits, with a minus sign before them if they are negative.
pub proof fn law_numbers_are_written(n: u64, k: i64)
    ensures
        forall|r: String| #[trigger]
            call_ensures(decimal_text, (n,), r) ==> number_of(r@) == n && r@ == decimal(n as nat),
        forall|r: String| #[trigger]
            call_ensures(signed_decimal_text, (k,), r) ==> {
                &&& k >= 0 ==> r@ == decimal(k as nat)
                &&& k < 0 ==> r@.len() > 0 && r@[0] == '-' && r@.drop_first() == decimal((-k) as nat)
            },
{
    law_digits_count(n as nat);
    assert forall|r: String| #[trigger]
        call_ensures(signed_decimal_text, (k,), r) && k < 0 implies r@.drop_first() == decimal(
        (-k) as nat,
    ) by {
        assert(r@.drop_first() =~= decimal((-k) as nat));
    }
}

/// A newline ends a line. If a carriage return stands right before it, that belongs to neither
/// line; what follows is split by itself.
pub proof fn law_newline_ends_line(line: Seq<char>, rest: Seq<char>)
    requires
        !line.contains('\n'),
    ensures
        line.len() == 0 || line.last() != '\r' ==> lines_of(line.push('\n') + rest) == seq![line]
            + lines_of(rest),
        line.len() > 0 && line.last() == '\r' ==> lines_of(line.push('\n') + rest) == seq![
            line.drop_last(),
        ] + lines_of(rest),
        lines_of(Seq::<char>::empty()) == Seq::<Seq<char>>::empty(),
{
    let s = line.push('\n') + rest;
    assert forall|i: int| 0 <= i < line.len() implies s[i] != '\n' by {
        assert(line.contains(line[i]));
    }
    lemma_first_newline(s, line.len());
    assert(s.take(line.len() as int) =~= line);
    assert(s.skip(line.len() as int + 1) =~= rest);
}

/// `split_lines` gives the lines of a text.
pub proof fn law_lines_are_split(s: &str)
    ensures
        forall|r: Vec<String>| #[trigger]
            call_ensures(split_lines, (s,), r) ==> {
                &&& r@.len() == lines_of(s@).len()
                &&& forall|i: int| 0 <= i < r@.len() ==> (#[trigger] r@[i])@ == lines_of(s@)[i]
            },
{
    assert forall|r: Vec<String>| #[trigger] call_ensures(split_lines, (s,), r) implies {
        &&& r@.len() == lines_of(s@).len()
        &&& forall|i: int| 0 <= i < r@.len() ==> (#[trigger] r@[i])@ == lines_of(s@)[i]
    } by {
        assert(texts(r@).len() == r@.len());
        assert forall|i: int| 0 <= i < r@.len() implies (#[trigger] r@[i])@ == lines_of(s@)[i] by {
            assert(texts(r@)[i] == r@[i]@);
        }
    }
}

/// The contents of strings are those of each of them, in their order.
pub proof fn law_texts_are_contents(strings: Seq<String>, i: int, one: Option<String>)
    ensures
        texts(strings).len() == strings.len(),
        0 <= i < strings.len() ==> texts(strings)[i] == strings[i]@,
        one is None <==> opt_text(one) is None,
        one matches Some(string) ==> opt_text(one) == Some(string@),
{
}

/// A string is taken apart into all of its characters, and put together from any range of them.
pub proof fn law_strings_and_characters(s: &str, chars: Vec<char>, from: usize, to: usize)
    ensures
        forall|r: Vec<char>| #[trigger] call_ensures(to_chars, (s,), r) ==> r@ == s@,
        forall|r: String|
            (from <= to <= chars@.len() && #[trigger] call_ensures(
                from_chars,
                (&chars, from, to),
                r,
            )) ==> r@ == chars@.subrange(from as int, to as int),
{
}

} // verus!
