//! Plain text: comparing, splitting on a separator, decimal numbers.

use vstd::prelude::*;
use vstd::string::*;
use vstd::utf8::*;

verus! {

/// Position of the first `sep` in `s` at or after `from`; the length of `s`
/// where there is none.
pub open spec fn scan_to(s: Seq<char>, sep: char, from: int) -> int
    decreases s.len() - from,
{
    if from < 0 || from >= s.len() {
        s.len() as int
    } else if s[from] == sep {
        from
    } else {
        scan_to(s, sep, from + 1)
    }
}

/// The fields of `s` that begin at or after `from`, where `from` is the start
/// of a field and `sep` parts one field from the next.
pub open spec fn fields_from(s: Seq<char>, sep: char, from: int) -> Seq<Seq<char>>
    decreases s.len() - from,
{
    let k = scan_to(s, sep, from);
    if from < 0 || from > s.len() || k < from {
        Seq::empty()
    } else if k >= s.len() {
        seq![s.subrange(from, s.len() as int)]
    } else {
        seq![s.subrange(from, k)] + fields_from(s, sep, k + 1)
    }
}

/// `s` cut at every `sep`. There is always at least one field; two
/// separators in a row have an empty field between them.
pub open spec fn split_text(s: Seq<char>, sep: char) -> Seq<Seq<char>> {
    fields_from(s, sep, 0)
}

/// `s` cut at its first `sep` only: the text before it and the text after
/// it, or `s` alone where it holds no `sep`.
pub open spec fn split_once_text(s: Seq<char>, sep: char) -> Seq<Seq<char>> {
    let k = scan_to(s, sep, 0);
    if k >= s.len() {
        seq![s]
    } else {
        seq![s.subrange(0, k), s.subrange(k + 1, s.len() as int)]
    }
}

/// `scan_to` stays within the text and never goes back.
pub proof fn lemma_scan_to_bounds(s: Seq<char>, sep: char, from: int)
    requires
        0 <= from <= s.len(),
    ensures
        from <= scan_to(s, sep, from) <= s.len(),
    decreases s.len() - from,
{
    if from < s.len() && s[from] != sep {
        lemma_scan_to_bounds(s, sep, from + 1);
    }
}

/// A text has at least one field, however it is cut.
pub proof fn lemma_split_nonempty(s: Seq<char>, sep: char)
    ensures
        split_text(s, sep).len() >= 1,
{
    lemma_scan_to_bounds(s, sep, 0);
}

/// Whether `sep` occurs nowhere in `s`.
pub open spec fn free_of(s: Seq<char>, sep: char) -> bool {
    forall|i: int| 0 <= i < s.len() ==> s[i] != sep
}

/// Where no `sep` lies between `from` and `to`, a scan from `from` goes on
/// from `to`.
pub proof fn lemma_scan_skips(s: Seq<char>, sep: char, from: int, to: int)
    requires
        0 <= from <= to <= s.len(),
        forall|j: int| from <= j < to ==> s[j] != sep,
    ensures
        scan_to(s, sep, from) == scan_to(s, sep, to),
    decreases to - from,
{
    if from < to {
        lemma_scan_skips(s, sep, from + 1, to);
    }
}

/// A scan of a text that follows a prefix is the scan of what follows it.
pub proof fn lemma_scan_after_prefix(p: Seq<char>, r: Seq<char>, sep: char, from: int)
    requires
        0 <= from <= r.len(),
    ensures
        scan_to(p + r, sep, p.len() + from) == p.len() + scan_to(r, sep, from),
    decreases r.len() - from,
{
    let s = p + r;
    if from < r.len() {
        assert(s[p.len() + from] == r[from]);
        if r[from] != sep {
            lemma_scan_after_prefix(p, r, sep, from + 1);
        }
    }
}

/// The fields of a text that follow a prefix are the fields of what
/// follows it.
pub proof fn lemma_fields_after_prefix(p: Seq<char>, r: Seq<char>, sep: char, from: int)
    requires
        0 <= from <= r.len(),
    ensures
        fields_from(p + r, sep, p.len() + from) == fields_from(r, sep, from),
    decreases r.len() - from,
{
    let s = p + r;
    lemma_scan_to_bounds(r, sep, from);
    lemma_scan_after_prefix(p, r, sep, from);
    let k = scan_to(r, sep, from);
    if k >= r.len() {
        assert(s.subrange(p.len() + from, s.len() as int) =~= r.subrange(from, r.len() as int));
    } else {
        assert(s.subrange(p.len() + from, p.len() + k) =~= r.subrange(from, k));
        lemma_fields_after_prefix(p, r, sep, k + 1);
    }
}

/// A text that holds no `sep` is one field.
pub proof fn lemma_split_single(x: Seq<char>, sep: char)
    requires
        free_of(x, sep),
    ensures
        split_text(x, sep) == seq![x],
{
    lemma_scan_skips(x, sep, 0, x.len() as int);
    assert(x.subrange(0, x.len() as int) =~= x);
}

/// A text that begins with a field free of `sep`, then `sep`, is cut into
/// that field and the fields of the rest.
pub proof fn lemma_split_joined(x: Seq<char>, rest: Seq<char>, sep: char)
    requires
        free_of(x, sep),
    ensures
        split_text(x + seq![sep] + rest, sep) == seq![x] + split_text(rest, sep),
{
    let p = x + seq![sep];
    let s = p + rest;
    assert forall|j: int| 0 <= j < x.len() implies s[j] != sep by {
        assert(s[j] == x[j]);
    }
    lemma_scan_skips(s, sep, 0, x.len() as int);
    assert(s[x.len() as int] == sep);
    assert(scan_to(s, sep, 0) == x.len());
    assert(s.subrange(0, x.len() as int) =~= x);
    lemma_fields_after_prefix(p, rest, sep, 0);
}

/// Whether two texts hold the same characters.
pub fn text_eq(a: &str, b: &str) -> (same: bool)
    ensures
        same == (a@ == b@),
{
    let x = a.as_bytes();
    let y = b.as_bytes();
    proof {
        encode_utf8_decode_utf8(a@);
        encode_utf8_decode_utf8(b@);
    }
    if x.len() != y.len() {
        return false;
    }
    let mut i: usize = 0;
    while i < x.len()
        invariant
            i <= x.len(),
            x.len() == y.len(),
            x@ == a.spec_bytes(),
            y@ == b.spec_bytes(),
            forall|j: int| 0 <= j < i ==> x@[j] == y@[j],
        decreases x.len() - i,
    {
        if x[i] != y[i] {
            return false;
        }
        i += 1;
    }
    assert(x@ =~= y@);
    true
}

/// Whether `c` occurs in `s`.
pub fn holds_char(s: &str, c: char) -> (found: bool)
    ensures
        found == !free_of(s@, c),
{
    let cs = chars_of(s);
    let mut i: usize = 0;
    while i < cs.len()
        invariant
            cs@ == s@,
            i <= cs.len(),
            forall|j: int| 0 <= j < i ==> s@[j] != c,
        decreases cs.len() - i,
    {
        if cs[i] == c {
            return true;
        }
        i += 1;
    }
    false
}

/// The characters of `s`, one by one.
pub fn chars_of(s: &str) -> (v: Vec<char>)
    ensures
        v@ == s@,
{
    let mut v: Vec<char> = Vec::new();
    for c in it: s.chars()
        invariant
            it.seq() == s@,
            v@ == it.seq().take(it.index() as int),
    {
        v.push(c);
    }
    v
}

/// Cuts `msg` at every `sep`.
pub fn split<'a>(msg: &'a str, sep: char) -> (fields: Vec<&'a str>)
    ensures
        fields.deep_view() == split_text(msg@, sep),
{
    let cs = chars_of(msg);
    let n = cs.len();
    let mut fields: Vec<&'a str> = Vec::new();
    let mut start: usize = 0;
    let mut i: usize = 0;
    while i < n
        invariant
            cs@ == msg@,
            n == cs.len(),
            start <= i <= n,
            scan_to(msg@, sep, start as int) == scan_to(msg@, sep, i as int),
            split_text(msg@, sep) == fields.deep_view() + fields_from(msg@, sep, start as int),
        decreases n - i,
    {
        if cs[i] == sep {
            let field = msg.substring_char(start, i);
            let ghost before = fields.deep_view();
            fields.push(field);
            assert(fields.deep_view() =~= before.push(field@));
            assert(fields_from(msg@, sep, start as int) =~= seq![field@] + fields_from(
                msg@,
                sep,
                i + 1,
            ));
            start = i + 1;
        }
        i += 1;
    }
    let field = msg.substring_char(start, n);
    let ghost before = fields.deep_view();
    fields.push(field);
    assert(fields.deep_view() =~= before.push(field@));
    assert(fields_from(msg@, sep, start as int) =~= seq![field@]);
    fields
}

/// Cuts `msg` at its first `sep`.
pub fn split_once<'a>(msg: &'a str, sep: char) -> (parts: Vec<&'a str>)
    ensures
        parts.deep_view() == split_once_text(msg@, sep),
{
    let cs = chars_of(msg);
    let n = cs.len();
    let mut parts: Vec<&'a str> = Vec::new();
    let mut i: usize = 0;
    while i < n && cs[i] != sep
        invariant
            cs@ == msg@,
            n == cs.len(),
            i <= n,
            scan_to(msg@, sep, 0) == scan_to(msg@, sep, i as int),
        decreases n - i,
    {
        i += 1;
    }
    if i < n {
        let head = msg.substring_char(0, i);
        let tail = msg.substring_char(i + 1, n);
        parts.push(head);
        parts.push(tail);
        assert(parts.deep_view() =~= seq![head@, tail@]);
    } else {
        parts.push(msg);
        assert(msg@.subrange(0, n as int) =~= msg@);
        assert(parts.deep_view() =~= seq![msg@]);
    }
    parts
}

/// The character for a digit.
pub open spec fn digit(d: int) -> char {
    if d == 0 {
        '0'
    } else if d == 1 {
        '1'
    } else if d == 2 {
        '2'
    } else if d == 3 {
        '3'
    } else if d == 4 {
        '4'
    } else if d == 5 {
        '5'
    } else if d == 6 {
        '6'
    } else if d == 7 {
        '7'
    } else if d == 8 {
        '8'
    } else {
        '9'
    }
}

/// The digit that a character stands for, if it is one.
pub open spec fn digit_value(c: char) -> Option<int> {
    if c == '0' {
        Some(0)
    } else if c == '1' {
        Some(1)
    } else if c == '2' {
        Some(2)
    } else if c == '3' {
        Some(3)
    } else if c == '4' {
        Some(4)
    } else if c == '5' {
        Some(5)
    } else if c == '6' {
        Some(6)
    } else if c == '7' {
        Some(7)
    } else if c == '8' {
        Some(8)
    } else if c == '9' {
        Some(9)
    } else {
        None
    }
}

/// `n` written in decimal, without a sign and without leading zeros.
pub open spec fn decimal(n: nat) -> Seq<char>
    decreases n,
{
    if n < 10 {
        seq![digit(n as int)]
    } else {
        decimal(n / 10).push(digit((n % 10) as int))
    }
}

/// Whether `s` is one digit or more and nothing else.
pub open spec fn is_number(s: Seq<char>) -> bool {
    s.len() > 0 && forall|i: int| 0 <= i < s.len() ==> (#[trigger] digit_value(s[i])) is Some
}

/// The number that the digits of `s` write.
pub open spec fn number(s: Seq<char>) -> nat
    decreases s.len(),
{
    if s.len() == 0 {
        0
    } else {
        match digit_value(s.last()) {
            Some(d) => number(s.drop_last()) * 10 + d as nat,
            None => number(s.drop_last()) * 10,
        }
    }
}

/// The value of a field that holds one to three digits and writes a number
/// up to 255.
pub open spec fn octet_of(s: Seq<char>) -> Option<u8> {
    if is_number(s) && s.len() <= 3 && number(s) <= 255 {
        Some(number(s) as u8)
    } else {
        None
    }
}

/// A number written in decimal reads back as itself, and holds digits only.
pub proof fn lemma_decimal_reads_back(n: nat)
    ensures
        is_number(decimal(n)),
        number(decimal(n)) == n,
        n < 10 ==> decimal(n).len() == 1,
        10 <= n < 100 ==> decimal(n).len() == 2,
        100 <= n < 1000 ==> decimal(n).len() == 3,
    decreases n,
{
    if n < 10 {
        assert(decimal(n).drop_last() =~= Seq::<char>::empty());
        assert(number(decimal(n).drop_last()) == 0);
    } else {
        lemma_decimal_reads_back(n / 10);
        let d = decimal(n);
        assert(d.drop_last() =~= decimal(n / 10));
        assert(d.last() == digit((n % 10) as int));
        assert forall|i: int| 0 <= i < d.len() implies (#[trigger] digit_value(d[i])) is Some by {
            if i < d.len() - 1 {
                assert(d[i] == decimal(n / 10)[i]);
            }
        }
    }
}

/// The text of a digit.
fn digit_text(d: u64) -> (s: &'static str)
    requires
        d < 10,
    ensures
        s@ == seq![digit(d as int)],
{
    proof {
        reveal_strlit("0");
        reveal_strlit("1");
        reveal_strlit("2");
        reveal_strlit("3");
        reveal_strlit("4");
        reveal_strlit("5");
        reveal_strlit("6");
        reveal_strlit("7");
        reveal_strlit("8");
        reveal_strlit("9");
    }
    let s = if d == 0 {
        "0"
    } else if d == 1 {
        "1"
    } else if d == 2 {
        "2"
    } else if d == 3 {
        "3"
    } else if d == 4 {
        "4"
    } else if d == 5 {
        "5"
    } else if d == 6 {
        "6"
    } else if d == 7 {
        "7"
    } else if d == 8 {
        "8"
    } else {
        "9"
    };
    assert(s@ =~= seq![digit(d as int)]);
    s
}

/// Writes `n` in decimal at the end of `out`.
pub fn append_decimal(out: &mut String, n: u64)
    ensures
        final(out)@ == old(out)@ + decimal(n as nat),
    decreases n,
{
    if n < 10 {
        out.append(digit_text(n));
    } else {
        append_decimal(out, n / 10);
        out.append(digit_text(n % 10));
        assert(final(out)@ =~= old(out)@ + decimal(n as nat));
    }
}

/// The digit that `c` stands for.
fn digit_of(c: char) -> (d: Option<u8>)
    ensures
        match d {
            Some(v) => digit_value(c) == Some(v as int),
            None => digit_value(c) is None,
        },
{
    if c == '0' {
        Some(0)
    } else if c == '1' {
        Some(1)
    } else if c == '2' {
        Some(2)
    } else if c == '3' {
        Some(3)
    } else if c == '4' {
        Some(4)
    } else if c == '5' {
        Some(5)
    } else if c == '6' {
        Some(6)
    } else if c == '7' {
        Some(7)
    } else if c == '8' {
        Some(8)
    } else if c == '9' {
        Some(9)
    } else {
        None
    }
}

/// Reads a number up to 255 from a field of one to three digits.
pub fn parse_octet(field: &str) -> (value: Option<u8>)
    ensures
        value == octet_of(field@),
{
    let cs = chars_of(field);
    let n = cs.len();
    if n == 0 || n > 3 {
        return None;
    }
    let mut total: u32 = 0;
    let mut i: usize = 0;
    while i < n
        invariant
            cs@ == field@,
            n == cs.len(),
            0 < n <= 3,
            i <= n,
            forall|j: int| 0 <= j < i ==> (#[trigger] digit_value(cs@[j])) is Some,
            total == number(cs@.take(i as int)),
            total < 1000,
            i < 3 ==> total < 100,
            i < 2 ==> total < 10,
            i < 1 ==> total == 0,
        decreases n - i,
    {
        match digit_of(cs[i]) {
            None => {
                return None;
            },
            Some(d) => {
                proof {
                    let t = cs@.take(i + 1);
                    assert(t.drop_last() =~= cs@.take(i as int));
                    assert(t.last() == cs@[i as int]);
                }
                total = total * 10 + d as u32;
            },
        }
        i += 1;
    }
    assert(cs@.take(n as int) =~= cs@);
    if total > 255 {
        None
    } else {
        Some(total as u8)
    }
}

/// Whether a character is a control character: one below the space, the
/// delete character, or one of the 32 that follow it.
pub open spec fn is_control(c: char) -> bool {
    (c as u32) < 32 || 127 <= (c as u32) < 160
}

/// The character for a digit of a number to the base 16.
pub open spec fn hex_digit(d: int) -> char {
    if d < 10 {
        digit(d)
    } else if d == 10 {
        'a'
    } else if d == 11 {
        'b'
    } else if d == 12 {
        'c'
    } else if d == 13 {
        'd'
    } else if d == 14 {
        'e'
    } else {
        'f'
    }
}

/// `n` written to the base 16, in small letters and without leading
/// zeros.
pub open spec fn hex(n: nat) -> Seq<char>
    decreases n,
{
    if n < 16 {
        seq![hex_digit(n as int)]
    } else {
        hex(n / 16).push(hex_digit((n % 16) as int))
    }
}

/// A character as it is written inside a quoted text: the quote and the
/// backslash after a backslash, a line feed, carriage return, tab and the
/// character 0 by their letters, any other control character by its
/// number, and every other character as it is.
pub open spec fn escaped_char(c: char) -> Seq<char> {
    if c == '"' {
        "\\\""@
    } else if c == '\\' {
        "\\\\"@
    } else if c == '\n' {
        "\\n"@
    } else if c == '\r' {
        "\\r"@
    } else if c == '\t' {
        "\\t"@
    } else if c == '\0' {
        "\\0"@
    } else if is_control(c) {
        "\\u{"@ + hex((c as u32) as nat) + "}"@
    } else {
        seq![c]
    }
}

/// A text as it is written between quotes.
pub open spec fn escaped(s: Seq<char>) -> Seq<char>
    decreases s.len(),
{
    if s.len() == 0 {
        Seq::empty()
    } else {
        escaped(s.drop_last()) + escaped_char(s.last())
    }
}

/// The text of a digit to the base 16.
fn hex_text(d: u32) -> (s: &'static str)
    requires
        d < 16,
    ensures
        s@ == seq![hex_digit(d as int)],
{
    if d < 10 {
        digit_text(d as u64)
    } else {
        proof {
            reveal_strlit("a");
            reveal_strlit("b");
            reveal_strlit("c");
            reveal_strlit("d");
            reveal_strlit("e");
            reveal_strlit("f");
        }
        let s = if d == 10 {
            "a"
        } else if d == 11 {
            "b"
        } else if d == 12 {
            "c"
        } else if d == 13 {
            "d"
        } else if d == 14 {
            "e"
        } else {
            "f"
        };
        assert(s@ =~= seq![hex_digit(d as int)]);
        s
    }
}

/// Writes `n` to the base 16 at the end of `out`.
pub fn append_hex(out: &mut String, n: u32)
    ensures
        final(out)@ == old(out)@ + hex(n as nat),
    decreases n,
{
    if n < 16 {
        out.append(hex_text(n));
    } else {
        append_hex(out, n / 16);
        out.append(hex_text(n % 16));
        assert(final(out)@ =~= old(out)@ + hex(n as nat));
    }
}

/// Writes `s` at the end of `out` as it is written between quotes.
pub fn append_escaped(out: &mut String, s: &str)
    ensures
        final(out)@ == old(out)@ + escaped(s@),
{
    let cs = chars_of(s);
    let n = cs.len();
    let mut i: usize = 0;
    assert(s@.take(0) =~= Seq::<char>::empty());
    while i < n
        invariant
            cs@ == s@,
            n == cs.len(),
            i <= n,
            out@ == old(out)@ + escaped(s@.take(i as int)),
        decreases n - i,
    {
        let c = cs[i];
        let ghost before = out@;
        proof {
            let t = s@.take(i + 1);
            assert(t.drop_last() =~= s@.take(i as int));
            assert(t.last() == c);
        }
        if c == '"' {
            out.append("\\\"");
        } else if c == '\\' {
            out.append("\\\\");
        } else if c == '\n' {
            out.append("\\n");
        } else if c == '\r' {
            out.append("\\r");
        } else if c == '\t' {
            out.append("\\t");
        } else if c == '\0' {
            out.append("\\0");
        } else if (c as u32) < 32 || ((c as u32) >= 127 && (c as u32) < 160) {
            out.append("\\u{");
            append_hex(out, c as u32);
            out.append("}");
        } else {
            let one = s.substring_char(i, i + 1);
            assert(one@ =~= seq![c]);
            out.append(one);
        }
        assert(out@ =~= before + escaped_char(c));
        assert(out@ =~= old(out)@ + escaped(s@.take(i + 1)));
        i += 1;
    }
    assert(s@.take(n as int) =~= s@);
}

} // verus!
