//! Requests and replies carried inside HTTP, for links that let nothing
//! else through.
//!
//! A request is a `POST` whose body is the message; a reply is a `200`
//! whose body is the message. Reading holds what was received to its first
//! line and to the length that its header gives for the body; other header
//! lines are passed over. The name of a header line is read without regard
//! to case, and blanks around its value are passed over.

use crate::enums::Failure;
use vstd::prelude::*;
use vstd::string::*;

verus! {

/// The end of a header line: a carriage return and a line feed.
pub open spec fn crlf() -> Seq<u8> {
    seq![13u8, 10u8]
}

/// `n` in decimal digits, as bytes.
pub open spec fn decimal_bytes(n: nat) -> Seq<u8>
    decreases n,
{
    if n < 10 {
        seq![(48 + n) as u8]
    } else {
        decimal_bytes(n / 10).push((48 + n % 10) as u8)
    }
}

/// The first line of a request for `resource`.
pub open spec fn request_line(resource: Seq<u8>) -> Seq<u8> {
    "POST /".spec_bytes() + resource + " HTTP/1.1".spec_bytes()
}

/// The first line of a reply.
pub open spec fn status_line() -> Seq<u8> {
    "HTTP/1.1 200 OK".spec_bytes()
}

/// The header line that names the host.
pub open spec fn host_line(host: Seq<u8>) -> Seq<u8> {
    "Host: ".spec_bytes() + host
}

/// The header line that gives the length of the body.
pub open spec fn length_line(n: nat) -> Seq<u8> {
    "Content-Length: ".spec_bytes() + decimal_bytes(n)
}

/// A message as the body of a request to `host` for `resource`.
pub open spec fn request_bytes(message: Seq<u8>, host: Seq<u8>, resource: Seq<u8>) -> Seq<u8> {
    request_line(resource) + crlf() + host_line(host) + crlf() + length_line(message.len())
        + crlf() + crlf() + message
}

/// A message as the body of a reply.
pub open spec fn response_bytes(message: Seq<u8>) -> Seq<u8> {
    status_line() + crlf() + length_line(message.len()) + crlf() + crlf() + message
}

/// Whether a blank line, the end of the header, begins at `i`.
pub open spec fn blank_at(s: Seq<u8>, i: int) -> bool {
    0 <= i && i + 4 <= s.len() && s[i] == 13 && s[i + 1] == 10 && s[i + 2] == 13 && s[i + 3] == 10
}

/// Where the first blank line at or after `from` begins; the length of `s`
/// where there is none.
pub open spec fn head_end(s: Seq<u8>, from: int) -> int
    decreases s.len() - from,
{
    if from < 0 || from >= s.len() {
        s.len() as int
    } else if blank_at(s, from) {
        from
    } else {
        head_end(s, from + 1)
    }
}

/// Whether `s` begins with `p`.
pub open spec fn starts_with(s: Seq<u8>, p: Seq<u8>) -> bool {
    p.len() <= s.len() && s.subrange(0, p.len() as int) == p
}

/// Whether `s` ends with `p`.
pub open spec fn ends_with(s: Seq<u8>, p: Seq<u8>) -> bool {
    p.len() <= s.len() && s.subrange(s.len() - p.len(), s.len() as int) == p
}

/// Whether a header line ends at `i`.
pub open spec fn crlf_at(s: Seq<u8>, i: int) -> bool {
    0 <= i && i + 2 <= s.len() && s[i] == 13 && s[i + 1] == 10
}

/// Where the line that holds `from` ends: at the first end of a line at or
/// after `from`, or at the end of `s`.
pub open spec fn line_end(s: Seq<u8>, from: int) -> int
    decreases s.len() - from,
{
    if from < 0 || from >= s.len() {
        s.len() as int
    } else if crlf_at(s, from) {
        from
    } else {
        line_end(s, from + 1)
    }
}

/// The digit that a byte writes; 0 for a byte that writes none.
pub open spec fn digit_of_byte(b: u8) -> nat {
    if 48 <= b <= 57 {
        (b - 48) as nat
    } else {
        0
    }
}

/// Whether `s` is one digit or more and nothing else.
pub open spec fn digits_only(s: Seq<u8>) -> bool {
    s.len() > 0 && forall|i: int| 0 <= i < s.len() ==> 48 <= #[trigger] s[i] <= 57
}

/// The number that the digits of `s` write.
pub open spec fn number_in(s: Seq<u8>) -> nat
    decreases s.len(),
{
    if s.len() == 0 {
        0
    } else {
        number_in(s.drop_last()) * 10 + digit_of_byte(s.last())
    }
}

/// The bytes with which the header line of the length is written.
pub open spec fn length_mark() -> Seq<u8> {
    "Content-Length: ".spec_bytes()
}

/// The name of the header line of the length, in small letters, with its
/// colon.
pub open spec fn length_name() -> Seq<u8> {
    "content-length:".spec_bytes()
}

/// A letter as a small letter; any other byte as it is.
pub open spec fn lower(b: u8) -> u8 {
    if 65 <= b <= 90 {
        (b + 32) as u8
    } else {
        b
    }
}

/// Whether a header line is the one of the length: it begins with
/// `length_name()`, in letters of whatever case.
pub open spec fn names_length(line: Seq<u8>) -> bool {
    line.len() >= length_name().len() && forall|i: int|
        0 <= i < length_name().len() ==> lower(#[trigger] line[i]) == length_name()[i]
}

/// Whether a byte is a blank: a space or a tab.
pub open spec fn blank(b: u8) -> bool {
    b == 32 || b == 9
}

/// Where the blanks at and after `from` end.
pub open spec fn value_start(s: Seq<u8>, from: int) -> int
    decreases s.len() - from,
{
    if from < 0 || from >= s.len() {
        s.len() as int
    } else if !blank(s[from]) {
        from
    } else {
        value_start(s, from + 1)
    }
}

/// Where the blanks before `to` begin.
pub open spec fn value_end(s: Seq<u8>, to: int) -> int
    decreases to,
{
    if to <= 0 || to > s.len() {
        0
    } else if !blank(s[to - 1]) {
        to
    } else {
        value_end(s, to - 1)
    }
}

/// The value of the header line of the length: what follows the colon,
/// without the blanks before and after it.
pub open spec fn length_value(line: Seq<u8>) -> Seq<u8> {
    let a = value_start(line, length_name().len() as int);
    let b = value_end(line, line.len() as int);
    if a <= b {
        line.subrange(a, b)
    } else {
        Seq::empty()
    }
}

/// The length that the header gives for the body: the number on the first
/// line, at or after `from`, that is the line of the length. There is none
/// where no line is, or where its value is more than digits.
pub open spec fn declared(head: Seq<u8>, from: int) -> Option<nat>
    decreases head.len() - from,
{
    let e = line_end(head, from);
    if from < 0 || from > head.len() || e < from || e > head.len() {
        None
    } else {
        let line = head.subrange(from, e);
        if names_length(line) {
            if digits_only(length_value(line)) {
                Some(number_in(length_value(line)))
            } else {
                None
            }
        } else if e + 2 > head.len() {
            None
        } else {
            declared(head, e + 2)
        }
    }
}

/// Whether a first line is one of a request (`POST`, something to post to,
/// and the version, 1.0 or 1.1) or of a reply (the version and a status).
pub open spec fn well_begun(first: Seq<u8>, request: bool) -> bool {
    if request {
        starts_with(first, "POST ".spec_bytes()) && (ends_with(first, " HTTP/1.1".spec_bytes())
            || ends_with(first, " HTTP/1.0".spec_bytes())) && first.len() > 14
    } else {
        starts_with(first, "HTTP/1.1 ".spec_bytes()) || starts_with(
            first,
            "HTTP/1.0 ".spec_bytes(),
        )
    }
}

/// The message in what was received, a request or a reply: what follows
/// the first blank line, where the first line is well begun and the header
/// gives the length of exactly what follows. Anything else is `Invalid`.
pub open spec fn message_in(bytes: Seq<u8>, request: bool) -> Result<Seq<u8>, Failure> {
    let at = head_end(bytes, 0);
    let head = bytes.subrange(0, at);
    let body = bytes.subrange(at + 4, bytes.len() as int);
    if at < bytes.len() && well_begun(head.subrange(0, line_end(head, 0)), request) && declared(
        head,
        0,
    ) == Some(body.len()) {
        Ok(body)
    } else {
        Err(Failure::Invalid)
    }
}

/// The bytes by which a request in HTTP is told from any other.
pub open spec fn request_mark() -> Seq<u8> {
    "POST".spec_bytes()
}

/// What the text written in the header lines holds, byte for byte.
pub proof fn lemma_header_words()
    ensures
        "POST /".spec_bytes() == seq![80u8, 79, 83, 84, 32, 47],
        "POST".spec_bytes() == seq![80u8, 79, 83, 84],
        "POST ".spec_bytes() == seq![80u8, 79, 83, 84, 32],
        " HTTP/1.0".spec_bytes().len() == 9,
        "HTTP/1.0 ".spec_bytes() == seq![72u8, 84, 84, 80, 47, 49, 46, 48, 32],
        "content-length:".spec_bytes() == seq![
            99u8,
            111,
            110,
            116,
            101,
            110,
            116,
            45,
            108,
            101,
            110,
            103,
            116,
            104,
            58,
        ],
        "HTTP/1.1 ".spec_bytes() == seq![72u8, 84, 84, 80, 47, 49, 46, 49, 32],
        " HTTP/1.1".spec_bytes() == seq![32u8, 72, 84, 84, 80, 47, 49, 46, 49],
        "HTTP/1.1 200 OK".spec_bytes() == seq![
            72u8,
            84,
            84,
            80,
            47,
            49,
            46,
            49,
            32,
            50,
            48,
            48,
            32,
            79,
            75,
        ],
        "Host: ".spec_bytes() == seq![72u8, 111, 115, 116, 58, 32],
        "Content-Length: ".spec_bytes() == seq![
            67u8,
            111,
            110,
            116,
            101,
            110,
            116,
            45,
            76,
            101,
            110,
            103,
            116,
            104,
            58,
            32,
        ],
{
    broadcast use vstd::string::is_ascii_spec_bytes;

    reveal_strlit("POST /");
    reveal_strlit("POST");
    reveal_strlit("POST ");
    reveal_strlit(" HTTP/1.0");
    reveal_strlit("HTTP/1.0 ");
    reveal_strlit("content-length:");
    reveal_strlit("HTTP/1.1 ");
    reveal_strlit(" HTTP/1.1");
    reveal_strlit("HTTP/1.1 200 OK");
    reveal_strlit("Host: ");
    reveal_strlit("Content-Length: ");
    assert(is_ascii("POST /"));
    assert(is_ascii("POST"));
    assert(is_ascii("POST "));
    assert(is_ascii(" HTTP/1.0"));
    assert(is_ascii("HTTP/1.0 "));
    assert(is_ascii("content-length:"));
    assert(is_ascii("HTTP/1.1 "));
    assert(is_ascii(" HTTP/1.1"));
    assert(is_ascii("HTTP/1.1 200 OK"));
    assert(is_ascii("Host: "));
    assert(is_ascii("Content-Length: "));
    assert("POST /".spec_bytes() =~= seq![80u8, 79, 83, 84, 32, 47]);
    assert("POST".spec_bytes() =~= seq![80u8, 79, 83, 84]);
    assert("POST ".spec_bytes() =~= seq![80u8, 79, 83, 84, 32]);
    assert("HTTP/1.0 ".spec_bytes() =~= seq![72u8, 84, 84, 80, 47, 49, 46, 48, 32]);
    assert("content-length:".spec_bytes() =~= seq![
        99u8,
        111,
        110,
        116,
        101,
        110,
        116,
        45,
        108,
        101,
        110,
        103,
        116,
        104,
        58,
    ]);
    assert("HTTP/1.1 ".spec_bytes() =~= seq![72u8, 84, 84, 80, 47, 49, 46, 49, 32]);
    assert(" HTTP/1.1".spec_bytes() =~= seq![32u8, 72, 84, 84, 80, 47, 49, 46, 49]);
    assert("HTTP/1.1 200 OK".spec_bytes() =~= seq![
        72u8,
        84,
        84,
        80,
        47,
        49,
        46,
        49,
        32,
        50,
        48,
        48,
        32,
        79,
        75,
    ]);
    assert("Host: ".spec_bytes() =~= seq![72u8, 111, 115, 116, 58, 32]);
    assert("Content-Length: ".spec_bytes() =~= seq![
        67u8,
        111,
        110,
        116,
        101,
        110,
        116,
        45,
        76,
        101,
        110,
        103,
        116,
        104,
        58,
        32,
    ]);
}

/// Whether `s` holds no carriage return.
pub open spec fn cr_free(s: Seq<u8>) -> bool {
    forall|i: int| 0 <= i < s.len() ==> s[i] != 13
}

/// Where no blank line begins between `from` and `to`, the search from
/// `from` goes on from `to`.
pub proof fn lemma_head_end_skips(s: Seq<u8>, from: int, to: int)
    requires
        0 <= from <= to <= s.len(),
        forall|i: int| from <= i < to ==> !blank_at(s, i),
    ensures
        head_end(s, from) == head_end(s, to),
    decreases to - from,
{
    if from < to {
        lemma_head_end_skips(s, from + 1, to);
    }
}

/// Digits hold no carriage return, and there is at least one.
pub proof fn lemma_decimal_bytes(n: nat)
    ensures
        decimal_bytes(n).len() > 0,
        cr_free(decimal_bytes(n)),
    decreases n,
{
    if n >= 10 {
        lemma_decimal_bytes(n / 10);
    }
}

/// In a header of three lines, none of them empty but perhaps the first
/// and none with a carriage return in it, the first blank line is the one
/// that ends the header.
pub proof fn lemma_three_lines(l1: Seq<u8>, l2: Seq<u8>, l3: Seq<u8>, body: Seq<u8>)
    requires
        cr_free(l1),
        cr_free(l2),
        cr_free(l3),
        l2.len() > 0,
        l3.len() > 0,
    ensures
        head_end(l1 + crlf() + l2 + crlf() + l3 + crlf() + crlf() + body, 0) == l1.len() + l2.len()
            + l3.len() + 4,
        (l1 + crlf() + l2 + crlf() + l3 + crlf() + crlf() + body).subrange(
            (l1.len() + l2.len() + l3.len() + 8) as int,
            (l1 + crlf() + l2 + crlf() + l3 + crlf() + crlf() + body).len() as int,
        ) == body,
        (l1 + crlf() + l2 + crlf() + l3 + crlf() + crlf() + body).len() == l1.len() + l2.len()
            + l3.len() + 8 + body.len(),
{
    let s = l1 + crlf() + l2 + crlf() + l3 + crlf() + crlf() + body;
    let a = l1.len() as int;
    let b = a + 2 + l2.len();
    let k = b + 2 + l3.len();
    assert(s.len() == k + 4 + body.len());
    assert forall|i: int| 0 <= i < s.len() implies s[i] == (if i < a {
        l1[i]
    } else if i == a {
        13u8
    } else if i == a + 1 {
        10u8
    } else if i < b {
        l2[i - a - 2]
    } else if i == b {
        13u8
    } else if i == b + 1 {
        10u8
    } else if i < k {
        l3[i - b - 2]
    } else if i == k {
        13u8
    } else if i == k + 1 {
        10u8
    } else if i == k + 2 {
        13u8
    } else if i == k + 3 {
        10u8
    } else {
        body[i - k - 4]
    }) by {}
    assert forall|i: int| 0 <= i < k implies !blank_at(s, i) by {
        if i == a {
            assert(s[i + 2] == l2[0]);
        } else if i == b {
            assert(s[i + 2] == l3[0]);
        }
    }
    assert(blank_at(s, k));
    lemma_head_end_skips(s, 0, k);
    assert(s.subrange(k + 4, s.len() as int) =~= body);
}

/// The same for a header of two lines.
pub proof fn lemma_two_lines(l1: Seq<u8>, l2: Seq<u8>, body: Seq<u8>)
    requires
        cr_free(l1),
        cr_free(l2),
        l2.len() > 0,
    ensures
        head_end(l1 + crlf() + l2 + crlf() + crlf() + body, 0) == l1.len() + l2.len() + 2,
        (l1 + crlf() + l2 + crlf() + crlf() + body).subrange(
            (l1.len() + l2.len() + 6) as int,
            (l1 + crlf() + l2 + crlf() + crlf() + body).len() as int,
        ) == body,
        (l1 + crlf() + l2 + crlf() + crlf() + body).len() == l1.len() + l2.len() + 6 + body.len(),
{
    let s = l1 + crlf() + l2 + crlf() + crlf() + body;
    let a = l1.len() as int;
    let k = a + 2 + l2.len();
    assert(s.len() == k + 4 + body.len());
    assert forall|i: int| 0 <= i < s.len() implies s[i] == (if i < a {
        l1[i]
    } else if i == a {
        13u8
    } else if i == a + 1 {
        10u8
    } else if i < k {
        l2[i - a - 2]
    } else if i == k {
        13u8
    } else if i == k + 1 {
        10u8
    } else if i == k + 2 {
        13u8
    } else if i == k + 3 {
        10u8
    } else {
        body[i - k - 4]
    }) by {}
    assert forall|i: int| 0 <= i < k implies !blank_at(s, i) by {
        if i == a {
            assert(s[i + 2] == l2[0]);
        }
    }
    assert(blank_at(s, k));
    lemma_head_end_skips(s, 0, k);
    assert(s.subrange(k + 4, s.len() as int) =~= body);
}

/// Where no line ends between `from` and `to`, the line that holds `from`
/// ends where the line that holds `to` ends.
pub proof fn lemma_line_end_skips(s: Seq<u8>, from: int, to: int)
    requires
        0 <= from <= to <= s.len(),
        forall|i: int| from <= i < to ==> !crlf_at(s, i),
    ensures
        line_end(s, from) == line_end(s, to),
    decreases to - from,
{
    if from < to {
        lemma_line_end_skips(s, from + 1, to);
    }
}

/// Digits written for a number are digits only and read back as the
/// number.
pub proof fn lemma_number_round_trip(n: nat)
    ensures
        digits_only(decimal_bytes(n)),
        number_in(decimal_bytes(n)) == n,
    decreases n,
{
    let d = decimal_bytes(n);
    if n < 10 {
        assert(d.drop_last() =~= Seq::<u8>::empty());
        assert(number_in(d.drop_last()) == 0);
    } else {
        lemma_number_round_trip(n / 10);
        assert(d.drop_last() =~= decimal_bytes(n / 10));
        assert forall|i: int| 0 <= i < d.len() implies 48 <= #[trigger] d[i] <= 57 by {
            if i < d.len() - 1 {
                assert(d[i] == decimal_bytes(n / 10)[i]);
            }
        }
    }
}

/// The number that digits write is no less than the number that their
/// first `k` write.
pub proof fn lemma_number_grows(s: Seq<u8>, k: int)
    requires
        0 <= k <= s.len(),
    ensures
        number_in(s.take(k)) <= number_in(s),
    decreases s.len() - k,
{
    if k < s.len() {
        lemma_number_grows(s, k + 1);
        assert(s.take(k + 1).drop_last() =~= s.take(k));
    } else {
        assert(s.take(k) =~= s);
    }
}

/// The line that is written for the length `n` is the line of the length,
/// and its value is the digits of `n`.
pub proof fn lemma_length_line(n: nat)
    ensures
        names_length(length_line(n)),
        length_value(length_line(n)) == decimal_bytes(n),
        digits_only(decimal_bytes(n)),
        number_in(decimal_bytes(n)) == n,
{
    lemma_header_words();
    lemma_number_round_trip(n);
    let line = length_line(n);
    let d = decimal_bytes(n);
    assert(line.len() == 16 + d.len());
    assert forall|i: int| 0 <= i < 15 implies lower(#[trigger] line[i]) == length_name()[i] by {
        assert(line[i] == length_mark()[i]);
    }
    assert(line[15] == 32);
    assert(line[16] == d[0]);
    assert(value_start(line, 16) == 16);
    assert(value_start(line, 15) == 16);
    assert(line[line.len() - 1] == d[d.len() - 1]);
    assert(value_end(line, line.len() as int) == line.len());
    assert(line.subrange(16, line.len() as int) =~= d);
}

/// A header whose last line gives the length `n`, after lines that hold
/// no carriage return and begin otherwise, declares `n`; and its first
/// line is the first of the lines.
pub proof fn lemma_declared(lines: Seq<Seq<u8>>, n: nat, at: int)
    requires
        0 <= at < lines.len(),
        forall|i: int| 0 <= i < lines.len() ==> cr_free(#[trigger] lines[i]),
        forall|i: int| 0 <= i < lines.len() - 1 ==> !names_length(#[trigger] lines[i]),
        lines.last() == length_line(n),
    ensures
        declared(joined(lines), offset(lines, at)) == Some(n),
        line_end(joined(lines), offset(lines, at)) == offset(lines, at) + lines[at].len(),
        0 <= offset(lines, at) <= joined(lines).len(),
    decreases lines.len() - at,
{
    let head = joined(lines);
    let from = offset(lines, at);
    lemma_joined(lines, at);
    let e = from + lines[at].len();
    assert forall|i: int| from <= i < e implies !crlf_at(head, i) by {
        assert(head[i] == lines[at][i - from]);
    }
    lemma_line_end_skips(head, from, e);
    assert(line_end(head, e) == e);
    assert(head.subrange(from, e) =~= lines[at]);
    if at == lines.len() - 1 {
        lemma_length_line(n);
    } else {
        assert(offset(lines, at + 1) == e + 2);
        lemma_declared(lines, n, at + 1);
    }
}

/// Lines put together, with the end of a line between each two.
pub open spec fn joined(lines: Seq<Seq<u8>>) -> Seq<u8>
    decreases lines.len(),
{
    if lines.len() == 0 {
        Seq::empty()
    } else if lines.len() == 1 {
        lines[0]
    } else {
        joined(lines.drop_last()) + crlf() + lines.last()
    }
}

/// Where the line `at` begins in `joined(lines)`.
pub open spec fn offset(lines: Seq<Seq<u8>>, at: int) -> int
    decreases at,
{
    if at <= 0 {
        0
    } else {
        offset(lines, at - 1) + lines[at - 1].len() + 2
    }
}

/// In `joined(lines)` the line `at` stands at `offset(lines, at)`, and is
/// followed by the end of a line unless it is the last.
pub proof fn lemma_joined(lines: Seq<Seq<u8>>, at: int)
    requires
        0 <= at < lines.len(),
    ensures
        0 <= offset(lines, at),
        offset(lines, at) + lines[at].len() <= joined(lines).len(),
        forall|i: int|
            0 <= i < lines[at].len() ==> joined(lines)[offset(lines, at) + i] == lines[at][i],
        at == lines.len() - 1 ==> offset(lines, at) + lines[at].len() == joined(lines).len(),
        at < lines.len() - 1 ==> crlf_at(joined(lines), offset(lines, at) + lines[at].len()),
    decreases lines.len(),
{
    lemma_offset(lines, lines.len() - 1);
    if lines.len() > 1 {
        let before = lines.drop_last();
        lemma_joined_len(before);
        lemma_joined_len(lines);
        lemma_offset_drop(lines, before.len() - 1);
        if at < lines.len() - 1 {
            lemma_joined(before, at);
            lemma_offset_drop(lines, at);
            assert(before[at] == lines[at]);
            assert forall|i: int| 0 <= i < lines[at].len() implies joined(lines)[offset(lines, at)
                + i] == lines[at][i] by {
                assert(joined(lines)[offset(lines, at) + i] == joined(before)[offset(before, at)
                    + i]);
            }
            if at == before.len() - 1 {
                assert(offset(lines, at) + lines[at].len() == joined(before).len());
            }
        } else {
            assert(offset(lines, at) == joined(before).len() + 2);
        }
    }
}

/// The length of `joined(lines)`: where the last line begins, and that line.
pub proof fn lemma_joined_len(lines: Seq<Seq<u8>>)
    requires
        lines.len() > 0,
    ensures
        joined(lines).len() == offset(lines, lines.len() - 1) + lines.last().len(),
    decreases lines.len(),
{
    if lines.len() > 1 {
        let before = lines.drop_last();
        lemma_joined_len(before);
        lemma_offset_drop(lines, before.len() - 1);
        assert(before.last() == lines[lines.len() - 2]);
    }
}

/// Where a line begins does not depend on the lines after it.
pub proof fn lemma_offset_drop(lines: Seq<Seq<u8>>, at: int)
    requires
        0 <= at < lines.len() - 1,
    ensures
        offset(lines.drop_last(), at) == offset(lines, at),
    decreases at,
{
    if at > 0 {
        lemma_offset_drop(lines, at - 1);
        assert(lines.drop_last()[at - 1] == lines[at - 1]);
    }
}

/// No line begins before the start.
pub proof fn lemma_offset(lines: Seq<Seq<u8>>, at: int)
    ensures
        0 <= offset(lines, at),
    decreases at,
{
    if at > 0 {
        lemma_offset(lines, at - 1);
    }
}

/// The first line of a request is well begun, holds no carriage return
/// where the resource holds none, and does not give a length.
pub proof fn lemma_request_line(resource: Seq<u8>)
    requires
        cr_free(resource),
    ensures
        cr_free(request_line(resource)),
        well_begun(request_line(resource), true),
        !names_length(request_line(resource)),
        starts_with(request_line(resource), request_mark()),
{
    lemma_header_words();
    let l1 = request_line(resource);
    assert(l1.len() == resource.len() + 15);
    assert(cr_free(l1));
    assert(l1.subrange(0, 5) =~= "POST ".spec_bytes());
    assert(l1.subrange(0, 4) =~= request_mark());
    assert(l1.subrange(l1.len() - 9, l1.len() as int) =~= " HTTP/1.1".spec_bytes());
    assert(l1[0] == 80);
    assert(lower(l1[0]) != length_name()[0]);
}

/// The other header lines hold no carriage return, where the host holds
/// none; the line of the host does not give a length.
pub proof fn lemma_header_lines(host: Seq<u8>, n: nat)
    requires
        cr_free(host),
    ensures
        cr_free(host_line(host)),
        host_line(host).len() > 0,
        !names_length(host_line(host)),
        cr_free(length_line(n)),
        length_line(n).len() > 0,
        cr_free(status_line()),
        !names_length(status_line()),
        well_begun(status_line(), false),
{
    lemma_header_words();
    lemma_decimal_bytes(n);
    let l2 = host_line(host);
    assert(cr_free(l2));
    assert(l2[0] == 72);
    assert(lower(l2[0]) != length_name()[0]);
    assert(cr_free(length_line(n)));
    let l1 = status_line();
    assert(cr_free(l1));
    assert(l1[0] == 72);
    assert(lower(l1[0]) != length_name()[0]);
    assert(l1.subrange(0, 9) =~= "HTTP/1.1 ".spec_bytes());
}

/// What a text of three lines, a blank line and a body is, read as a
/// message: the body, where the lines are a header that gives its length.
pub proof fn lemma_message_of_three(
    l1: Seq<u8>,
    l2: Seq<u8>,
    l3: Seq<u8>,
    body: Seq<u8>,
    request: bool,
)
    requires
        cr_free(l1),
        cr_free(l2),
        cr_free(l3),
        l2.len() > 0,
        l3.len() > 0,
        well_begun(l1, request),
        !names_length(l1),
        !names_length(l2),
        l3 == length_line(body.len()),
    ensures
        message_in(l1 + crlf() + l2 + crlf() + l3 + crlf() + crlf() + body, request) == Ok::<
            Seq<u8>,
            Failure,
        >(body),
{
    lemma_three_lines(l1, l2, l3, body);
    let s = l1 + crlf() + l2 + crlf() + l3 + crlf() + crlf() + body;
    let at = head_end(s, 0);
    let head = s.subrange(0, at);
    let lines = seq![l1, l2, l3];
    assert(lines.drop_last() =~= seq![l1, l2]);
    assert(seq![l1, l2].drop_last() =~= seq![l1]);
    assert(joined(seq![l1]) == l1);
    assert(joined(seq![l1, l2]) == l1 + crlf() + l2);
    assert(joined(lines) == l1 + crlf() + l2 + crlf() + l3);
    assert(head =~= joined(lines));
    lemma_declared(lines, body.len(), 0);
    assert(head.subrange(0, l1.len() as int) =~= l1);
}

/// The same for a header of two lines.
pub proof fn lemma_message_of_two(l1: Seq<u8>, l2: Seq<u8>, body: Seq<u8>, request: bool)
    requires
        cr_free(l1),
        cr_free(l2),
        l2.len() > 0,
        well_begun(l1, request),
        !names_length(l1),
        l2 == length_line(body.len()),
    ensures
        message_in(l1 + crlf() + l2 + crlf() + crlf() + body, request) == Ok::<Seq<u8>, Failure>(
            body,
        ),
{
    lemma_two_lines(l1, l2, body);
    let s = l1 + crlf() + l2 + crlf() + crlf() + body;
    let at = head_end(s, 0);
    let head = s.subrange(0, at);
    let lines = seq![l1, l2];
    assert(lines.drop_last() =~= seq![l1]);
    assert(joined(seq![l1]) == l1);
    assert(joined(lines) == l1 + crlf() + l2);
    assert(head =~= joined(lines));
    lemma_declared(lines, body.len(), 0);
    assert(head.subrange(0, l1.len() as int) =~= l1);
}

/// A request begins with the bytes by which it is told from anything
/// else, and is longer than they are.
pub proof fn lemma_request_begins(message: Seq<u8>, host: Seq<u8>, resource: Seq<u8>)
    ensures
        starts_with(request_bytes(message, host, resource), request_mark()),
        request_bytes(message, host, resource).len() > 4,
{
    lemma_header_words();
    let s = request_bytes(message, host, resource);
    let mark = request_mark();
    assert(mark.len() == 4);
    assert(s.len() > 4);
    assert(s[0] == 80 && s[1] == 79 && s[2] == 83 && s[3] == 84);
    assert(s.subrange(0, 4) =~= mark);
}

/// A message that was wrapped in a request is read back from it, whatever
/// the message holds, where neither the host nor the resource holds a
/// carriage return.
pub proof fn lemma_request_round_trip(message: Seq<u8>, host: Seq<u8>, resource: Seq<u8>)
    requires
        cr_free(host),
        cr_free(resource),
    ensures
        message_in(request_bytes(message, host, resource), true) == Ok::<Seq<u8>, Failure>(message),
        starts_with(request_bytes(message, host, resource), request_mark()),
        request_bytes(message, host, resource).len() > 4,
{
    lemma_request_line(resource);
    lemma_header_lines(host, message.len());
    lemma_message_of_three(
        request_line(resource),
        host_line(host),
        length_line(message.len()),
        message,
        true,
    );
    lemma_request_begins(message, host, resource);
}

/// A message that was wrapped in a reply is read back from it, whatever
/// the message holds.
pub proof fn lemma_response_round_trip(message: Seq<u8>)
    ensures
        message_in(response_bytes(message), false) == Ok::<Seq<u8>, Failure>(message),
{
    lemma_header_lines(Seq::<u8>::empty(), message.len());
    lemma_message_of_two(status_line(), length_line(message.len()), message, false);
}

/// Writes `bytes` at the end of `out`.
pub fn append_bytes(out: &mut Vec<u8>, bytes: &[u8])
    ensures
        final(out)@ == old(out)@ + bytes@,
{
    let n = bytes.len();
    let mut i: usize = 0;
    assert(bytes@.take(0) =~= Seq::<u8>::empty());
    while i < n
        invariant
            n == bytes.len(),
            i <= n,
            out@ == old(out)@ + bytes@.take(i as int),
        decreases n - i,
    {
        out.push(bytes[i]);
        assert(bytes@.take(i + 1) =~= bytes@.take(i as int).push(bytes@[i as int]));
        i += 1;
    }
    assert(bytes@.take(n as int) =~= bytes@);
}

/// Writes `n` in decimal digits at the end of `out`.
pub fn append_decimal_bytes(out: &mut Vec<u8>, n: usize)
    ensures
        final(out)@ == old(out)@ + decimal_bytes(n as nat),
    decreases n,
{
    if n < 10 {
        out.push(48 + n as u8);
    } else {
        append_decimal_bytes(out, n / 10);
        out.push(48 + (n % 10) as u8);
        assert(final(out)@ =~= old(out)@ + decimal_bytes(n as nat));
    }
}

/// Where the first blank line begins; the length of `bytes` where there
/// is none.
pub fn find_blank(bytes: &[u8]) -> (at: usize)
    ensures
        at == head_end(bytes@, 0),
        at <= bytes.len(),
        at < bytes.len() ==> at + 4 <= bytes.len(),
{
    let n = bytes.len();
    let mut i: usize = 0;
    while i < n
        invariant
            n == bytes.len(),
            i <= n,
            head_end(bytes@, 0) == head_end(bytes@, i as int),
        decreases n - i,
    {
        if n - i >= 4 && bytes[i] == 13 && bytes[i + 1] == 10 && bytes[i + 2] == 13 && bytes[i + 3]
            == 10 {
            return i;
        }
        i += 1;
    }
    n
}

/// Whether `bytes` begins with `prefix`.
pub fn begins_with(bytes: &[u8], prefix: &[u8]) -> (yes: bool)
    ensures
        yes == starts_with(bytes@, prefix@),
{
    let n = prefix.len();
    if bytes.len() < n {
        return false;
    }
    let mut i: usize = 0;
    while i < n
        invariant
            n == prefix.len(),
            n <= bytes.len(),
            i <= n,
            forall|j: int| 0 <= j < i ==> bytes@[j] == prefix@[j],
        decreases n - i,
    {
        if bytes[i] != prefix[i] {
            assert(bytes@.subrange(0, n as int)[i as int] != prefix@[i as int]);
            return false;
        }
        i += 1;
    }
    assert(bytes@.subrange(0, n as int) =~= prefix@);
    true
}

/// Whether `bytes` ends with `suffix`.
pub fn finishes_with(bytes: &[u8], suffix: &[u8]) -> (yes: bool)
    ensures
        yes == ends_with(bytes@, suffix@),
{
    let n = suffix.len();
    if bytes.len() < n {
        return false;
    }
    let tail = vstd::slice::slice_subrange(bytes, bytes.len() - n, bytes.len());
    assert(tail@.subrange(0, n as int) =~= tail@);
    begins_with(tail, suffix)
}

/// Where the line that holds `from` ends.
pub fn find_line_end(bytes: &[u8], from: usize) -> (at: usize)
    requires
        from <= bytes.len(),
    ensures
        at == line_end(bytes@, from as int),
        from <= at <= bytes.len(),
        at < bytes.len() ==> at + 2 <= bytes.len(),
{
    let n = bytes.len();
    let mut i: usize = from;
    while i < n
        invariant
            n == bytes.len(),
            from <= i <= n,
            line_end(bytes@, from as int) == line_end(bytes@, i as int),
        decreases n - i,
    {
        if n - i >= 2 && bytes[i] == 13 && bytes[i + 1] == 10 {
            return i;
        }
        i += 1;
    }
    n
}

/// Whether `digits` are digits only and write the number `want`.
pub fn writes_number(digits: &[u8], want: usize) -> (yes: bool)
    ensures
        yes == (digits_only(digits@) && number_in(digits@) == want),
{
    let n = digits.len();
    if n == 0 {
        return false;
    }
    let mut total: usize = 0;
    let mut i: usize = 0;
    assert(digits@.take(0) =~= Seq::<u8>::empty());
    while i < n
        invariant
            n == digits.len(),
            i <= n,
            forall|j: int| 0 <= j < i ==> 48 <= #[trigger] digits@[j] <= 57,
            total == number_in(digits@.take(i as int)),
            total <= want,
        decreases n - i,
    {
        let b = digits[i];
        if b < 48 || b > 57 {
            return false;
        }
        proof {
            let t = digits@.take(i + 1);
            assert(t.drop_last() =~= digits@.take(i as int));
            assert(t.last() == b);
            lemma_number_grows(digits@, i + 1);
        }
        let next: u128 = total as u128 * 10 + (b - 48) as u128;
        if next > want as u128 {
            return false;
        }
        total = next as usize;
        i += 1;
    }
    assert(digits@.take(n as int) =~= digits@);
    total == want
}

/// A letter as a small letter.
fn to_lower(b: u8) -> (l: u8)
    ensures
        l == lower(b),
{
    if b >= 65 && b <= 90 {
        b + 32
    } else {
        b
    }
}

/// Whether a header line is the one of the length.
pub fn is_length_line(line: &[u8]) -> (yes: bool)
    ensures
        yes == names_length(line@),
{
    let name = "content-length:".as_bytes();
    if line.len() < name.len() {
        return false;
    }
    let mut i: usize = 0;
    while i < name.len()
        invariant
            name@ == length_name(),
            name.len() <= line.len(),
            i <= name.len(),
            forall|j: int| 0 <= j < i ==> lower(#[trigger] line@[j]) == length_name()[j],
        decreases name.len() - i,
    {
        if to_lower(line[i]) != name[i] {
            return false;
        }
        i += 1;
    }
    true
}

/// The value of the header line of the length.
pub fn value_of(line: &[u8]) -> (value: &[u8])
    ensures
        value@ == length_value(line@),
{
    proof {
        lemma_header_words();
    }
    let n = line.len();
    let mut b: usize = n;
    while b > 0 && (line[b - 1] == 32 || line[b - 1] == 9)
        invariant
            n == line.len(),
            b <= n,
            value_end(line@, n as int) == value_end(line@, b as int),
        decreases b,
    {
        b -= 1;
    }
    assert(value_end(line@, b as int) == b);
    let mut a: usize = if n < 15 {
        n
    } else {
        15
    };
    while a < n && (line[a] == 32 || line[a] == 9)
        invariant
            n == line.len(),
            a <= n,
            n < 15 ==> a == n,
            n >= 15 ==> 15 <= a && value_start(line@, 15) == value_start(line@, a as int),
        decreases n - a,
    {
        a += 1;
    }
    assert(value_start(line@, 15) == a);
    if a <= b {
        vstd::slice::slice_subrange(line, a, b)
    } else {
        let none = vstd::slice::slice_subrange(line, 0, 0);
        assert(none@ =~= Seq::<u8>::empty());
        none
    }
}

/// Whether the header gives `want` as the length of the body.
pub fn declares(head: &[u8], want: usize) -> (yes: bool)
    ensures
        yes == (declared(head@, 0) == Some(want as nat)),
{
    let mut from: usize = 0;
    loop
        invariant
            from <= head.len(),
            declared(head@, 0) == declared(head@, from as int),
        decreases head.len() - from,
    {
        let e = find_line_end(head, from);
        let line = vstd::slice::slice_subrange(head, from, e);
        if is_length_line(line) {
            return writes_number(value_of(line), want);
        }
        if e >= head.len() {
            return false;
        }
        from = e + 2;
    }
}

/// The message in what was received, a request or a reply.
fn unwrap(bytes: &[u8], request: bool) -> (body: Result<Vec<u8>, Failure>)
    ensures
        match body {
            Ok(b) => message_in(bytes@, request) == Ok::<Seq<u8>, Failure>(b@),
            Err(e) => message_in(bytes@, request) == Err::<Seq<u8>, Failure>(e),
        },
{
    let at = find_blank(bytes);
    if at >= bytes.len() {
        return Err(Failure::Invalid);
    }
    let head = vstd::slice::slice_subrange(bytes, 0, at);
    let first = vstd::slice::slice_subrange(head, 0, find_line_end(head, 0));
    let begun = if request {
        begins_with(first, "POST ".as_bytes()) && (finishes_with(first, " HTTP/1.1".as_bytes())
            || finishes_with(first, " HTTP/1.0".as_bytes())) && first.len() > 14
    } else {
        begins_with(first, "HTTP/1.1 ".as_bytes()) || begins_with(first, "HTTP/1.0 ".as_bytes())
    };
    if !begun || !declares(head, bytes.len() - (at + 4)) {
        return Err(Failure::Invalid);
    }
    let mut body: Vec<u8> = Vec::new();
    append_bytes(&mut body, vstd::slice::slice_subrange(bytes, at + 4, bytes.len()));
    assert(body@ =~= bytes@.subrange(at + 4, bytes@.len() as int));
    Ok(body)
}

/// The framing of messages in HTTP.
pub struct HttpWrapper;

impl HttpWrapper {
    /// Wraps a message in a request to `host` for `resource`.
    pub fn serialise_request(message: &[u8], host: &str, resource: &str) -> (bytes: Vec<u8>)
        ensures
            bytes@ == request_bytes(message@, host.spec_bytes(), resource.spec_bytes()),
    {
        let mut bytes: Vec<u8> = Vec::new();
        append_bytes(&mut bytes, "POST /".as_bytes());
        append_bytes(&mut bytes, resource.as_bytes());
        append_bytes(&mut bytes, " HTTP/1.1".as_bytes());
        bytes.push(13);
        bytes.push(10);
        append_bytes(&mut bytes, "Host: ".as_bytes());
        append_bytes(&mut bytes, host.as_bytes());
        bytes.push(13);
        bytes.push(10);
        append_bytes(&mut bytes, "Content-Length: ".as_bytes());
        append_decimal_bytes(&mut bytes, message.len());
        bytes.push(13);
        bytes.push(10);
        bytes.push(13);
        bytes.push(10);
        append_bytes(&mut bytes, message);
        assert(bytes@ =~= request_bytes(message@, host.spec_bytes(), resource.spec_bytes()));
        bytes
    }

    /// Wraps a message in a reply.
    pub fn serialise_response_bytes(message: &[u8]) -> (bytes: Vec<u8>)
        ensures
            bytes@ == response_bytes(message@),
    {
        let mut bytes: Vec<u8> = Vec::new();
        append_bytes(&mut bytes, "HTTP/1.1 200 OK".as_bytes());
        bytes.push(13);
        bytes.push(10);
        append_bytes(&mut bytes, "Content-Length: ".as_bytes());
        append_decimal_bytes(&mut bytes, message.len());
        bytes.push(13);
        bytes.push(10);
        bytes.push(13);
        bytes.push(10);
        append_bytes(&mut bytes, message);
        assert(bytes@ =~= response_bytes(message@));
        bytes
    }

    /// Takes the message out of a request. Bytes that are no request with
    /// a body of the length that its header gives are `Invalid`.
    pub fn deserialise_request(bytes: &[u8]) -> (message: Result<Vec<u8>, Failure>)
        ensures
            match message {
                Ok(m) => message_in(bytes@, true) == Ok::<Seq<u8>, Failure>(m@),
                Err(e) => message_in(bytes@, true) == Err::<Seq<u8>, Failure>(e),
            },
    {
        unwrap(bytes, true)
    }

    /// Takes the message out of a reply. Bytes that are no reply with a
    /// body of the length that its header gives are `Invalid`.
    pub fn deserialise_response(bytes: &[u8]) -> (message: Result<Vec<u8>, Failure>)
        ensures
            match message {
                Ok(m) => message_in(bytes@, false) == Ok::<Seq<u8>, Failure>(m@),
                Err(e) => message_in(bytes@, false) == Err::<Seq<u8>, Failure>(e),
            },
    {
        unwrap(bytes, false)
    }
}

} // verus!
