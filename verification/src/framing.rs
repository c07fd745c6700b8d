//! Message framing on a language server's pipe.
//!
//! A message is a small header block, a blank line, and then exactly as many
//! bytes of JSON as the `Content-Length` header says.

use crate::text::{
    after_prefix, all_digits, at_index, chars_of, decimal, decimal_of, decimal_reads_back,
    parse_usize, parsed_usize, slice, strip_prefix, trim, trim_end, trim_start,
    trimmed, trimmed_len, white,
};
use vstd::prelude::*;
use vstd::string::*;
use vstd::utf8::{
    decode_utf8, encode_utf8, encode_utf8_decode_utf8, encode_utf8_valid_utf8,
    is_ascii_chars, is_ascii_chars_encode_utf8, valid_utf8,
};

verus! {

/// `String::from_utf8`: the text these bytes encode, which exists exactly when
/// they are valid UTF-8.
#[verifier::external_body]
fn text_of(bytes: Vec<u8>) -> (r: Option<String>)
    ensures
        r is Some <==> valid_utf8(bytes@),
        r matches Some(text) ==> text@ == decode_utf8(bytes@),
{
    String::from_utf8(bytes).ok()
}

/// The header that gives a message's length.
pub open spec fn length_header() -> Seq<char> {
    "Content-Length:"@
}

/// What the headers have said so far, after one more line: the line without
/// the white space at its end may be a length header, and then says the length
/// anew.
pub open spec fn after_header(length: Option<usize>, line: Seq<char>) -> Option<usize> {
    match strip_prefix(trim_end(line), length_header()) {
        Some(value) => parsed_usize(trim(value)),
        None => length,
    }
}

/// Whether a line ends the header block.
pub open spec fn ends_headers(line: Seq<char>) -> bool {
    trim_end(line).len() == 0
}

/// A header block being read.
#[derive(Copy, Clone, Debug, PartialEq, Eq)]
pub struct Headers {
    /// The length that the last length header gave; `None` before any, and
    /// after one that does not hold a number.
    pub length: Option<usize>,
}

impl Headers {
    /// A block of which nothing has been read.
    pub fn new() -> (r: Self)
        ensures
            r.length is None,
    {
        Headers { length: None }
    }

    /// Takes one line, and says whether it ends the block.
    pub fn read(&mut self, line: &str) -> (done: bool)
        ensures
            done == ends_headers(line@),
            done ==> final(self).length == old(self).length,
            !done ==> final(self).length == after_header(old(self).length, line@),
    {
        let chars = chars_of(line);
        let len = trimmed_len(&chars);
        if len == 0 {
            return true;
        }
        let kept = slice(&chars, 0, len);
        assert(kept@ == trim_end(line@));
        if let Some(value) = after_prefix(&kept, "Content-Length:") {
            self.length = parse_usize(&trimmed(&value));
        }
        false
    }
}

/// Where the line that begins at `at` ends, past its line break.
pub open spec fn line_end(bytes: Seq<u8>, at: int) -> int
    decreases bytes.len() - at,
{
    if at < 0 || at >= bytes.len() {
        bytes.len() as int
    } else if bytes[at] == 10 {
        at + 1
    } else {
        line_end(bytes, at + 1)
    }
}

/// The header block that begins at `at`: the length it gives and where it
/// ends. `None` when the bytes end before the block does, or are not text.
pub open spec fn headers_at(bytes: Seq<u8>, at: int, length: Option<usize>) -> Option<
    (Option<usize>, int),
>
    decreases bytes.len() - at,
{
    if at < 0 || at >= bytes.len() {
        None
    } else {
        let end = line_end(bytes, at);
        let raw = bytes.subrange(at, end);
        if !(at < end <= bytes.len()) || !valid_utf8(raw) {
            None
        } else if ends_headers(decode_utf8(raw)) {
            Some((length, end))
        } else {
            headers_at(bytes, end, after_header(length, decode_utf8(raw)))
        }
    }
}

/// The message that begins at `at`, and where the bytes go on after it.
/// `None` when there is no whole message of text there.
pub open spec fn message_at(bytes: Seq<u8>, at: int) -> Option<(Seq<char>, int)> {
    match headers_at(bytes, at, None) {
        Some((Some(length), start)) => {
            let raw = bytes.subrange(start, start + length);
            if start + length <= bytes.len() && valid_utf8(raw) {
                Some((decode_utf8(raw), start + length))
            } else {
                None
            }
        },
        _ => None,
    }
}

/// Where reading a header block leaves off: past its blank line, past the line
/// that is not text, or at the end of the bytes.
pub open spec fn headers_stop(bytes: Seq<u8>, at: int) -> int
    decreases bytes.len() - at,
{
    if at < 0 || at >= bytes.len() {
        at
    } else {
        let end = line_end(bytes, at);
        let raw = bytes.subrange(at, end);
        if !(at < end <= bytes.len()) || !valid_utf8(raw) || ends_headers(decode_utf8(raw)) {
            end
        } else {
            headers_stop(bytes, end)
        }
    }
}

/// Where reading a message leaves off, whether or not there is one: past its
/// body, which may not be text; at the end of the bytes, where the body is cut
/// short; and where its header block leaves off, where that gives no length.
pub open spec fn message_stop(bytes: Seq<u8>, at: int) -> int {
    match headers_at(bytes, at, None) {
        Some((Some(length), start)) => if start + length <= bytes.len() {
            start + length
        } else {
            bytes.len() as int
        },
        _ => headers_stop(bytes, at),
    }
}

/// Bytes being read from the front.
#[derive(Clone, Debug)]
pub struct Reader {
    pub bytes: Vec<u8>,
    pub at: usize,
}

fn bytes_between(bytes: &Vec<u8>, from: usize, to: usize) -> (r: Vec<u8>)
    requires
        from <= to <= bytes.len(),
    ensures
        r@ == bytes@.subrange(from as int, to as int),
{
    let mut out: Vec<u8> = Vec::new();
    for i in from..to
        invariant
            from <= i <= to <= bytes.len(),
            out@ == bytes@.subrange(from as int, i as int),
    {
        out.push(bytes[i]);
    }
    out
}

fn end_of_line(bytes: &Vec<u8>, at: usize) -> (r: usize)
    requires
        at < bytes.len(),
    ensures
        r == line_end(bytes@, at as int),
        at < r <= bytes.len(),
{
    let mut i: usize = at;
    while i < bytes.len()
        invariant
            at <= i <= bytes.len(),
            line_end(bytes@, at as int) == line_end(bytes@, i as int),
        decreases bytes.len() - i,
    {
        if bytes[i] == 10 {
            return i + 1;
        }
        i = i + 1;
    }
    i
}

/// Reads one framed message: its text, or `None` when the bytes hold no whole
/// message of text from here on. The reader moves past what was looked at, the
/// header block of a message without a length and a body that is not text
/// included, so that the next message is found after it.
pub fn read_one_message(reader: &mut Reader) -> (r: Option<String>)
    ensures
        final(reader).bytes == old(reader).bytes,
        final(reader).at == message_stop(old(reader).bytes@, old(reader).at as int),
        match message_at(old(reader).bytes@, old(reader).at as int) {
            Some((text, end)) => r matches Some(s) && s@ == text && final(reader).at == end,
            None => r is None,
        },
{
    let mut headers = Headers::new();
    let ghost bytes = reader.bytes@;
    let ghost from = reader.at as int;
    let total = reader.bytes.len();
    loop
        invariant_except_break
            bytes == old(reader).bytes@,
            from == old(reader).at,
            reader.bytes == old(reader).bytes,
            total == bytes.len(),
            headers_at(bytes, from, None) == headers_at(bytes, reader.at as int, headers.length),
            headers_stop(bytes, from) == headers_stop(bytes, reader.at as int),
        ensures
            bytes == old(reader).bytes@,
            from == old(reader).at,
            reader.bytes == old(reader).bytes,
            total == bytes.len(),
            reader.at <= total,
            headers_at(bytes, from, None) == Some((headers.length, reader.at as int)),
            headers_stop(bytes, from) == reader.at,
        decreases total - reader.at,
    {
        if reader.at >= total {
            return None;
        }
        let end = end_of_line(&reader.bytes, reader.at);
        let line = text_of(bytes_between(&reader.bytes, reader.at, end));
        reader.at = end;
        match line {
            Some(line) => {
                if headers.read(line.as_str()) {
                    break;
                }
            },
            None => {
                return None;
            },
        }
    }
    match headers.length {
        Some(length) => {
            if length > total - reader.at {
                reader.at = total;
                return None;
            }
            let end: usize = reader.at + length;
            let body = bytes_between(&reader.bytes, reader.at, end);
            reader.at = end;
            text_of(body)
        },
        None => None,
    }
}

/// A message as it is sent: its length in bytes, a blank line, its text.
pub open spec fn framed(body: Seq<char>) -> Seq<char> {
    "Content-Length: "@ + decimal((encode_utf8(body).len() as usize) as nat) + "\r\n\r\n"@
        + body
}

/// Frames one message.
pub fn frame(body: &str) -> (r: String)
    ensures
        r@ == framed(body@),
{
    let mut out = String::new();
    out.push_str("Content-Length: ");
    out.push_str(decimal_of(body.len() as u64).as_str());
    out.push_str("\r\n\r\n");
    out.push_str(body);
    assert(out@ =~= framed(body@));
    out
}

// --- reading back what was framed --------------------------------------------

/// Encoding one text after another is encoding the two together.
proof fn encode_adds(a: Seq<char>, b: Seq<char>)
    ensures
        encode_utf8(a + b) == encode_utf8(a) + encode_utf8(b),
    decreases a.len(),
{
    if a.len() == 0 {
        assert(a + b =~= b);
        assert(encode_utf8(a) =~= Seq::<u8>::empty());
        assert(encode_utf8(a + b) =~= encode_utf8(a) + encode_utf8(b));
    } else {
        assert((a + b).drop_first() =~= a.drop_first() + b);
        encode_adds(a.drop_first(), b);
        assert(encode_utf8(a + b) =~= encode_utf8(a) + encode_utf8(b));
    }
}

/// An ASCII line with its line break, in front of other bytes, is read as one
/// line.
proof fn ascii_line(line: Seq<char>, before: Seq<u8>, after: Seq<u8>, k: int)
    requires
        is_ascii_chars(line),
        line.len() > 0,
        line.last() == '\n',
        forall|i: int| 0 <= i < line.len() - 1 ==> line[i] != '\n',
        0 <= k < line.len(),
    ensures
        line_end(before + encode_utf8(line) + after, before.len() + k) == before.len()
            + line.len(),
        encode_utf8(line).len() == line.len(),
    decreases line.len() - k,
{
    is_ascii_chars_encode_utf8(line);
    let bytes = before + encode_utf8(line) + after;
    let at = before.len() + k;
    assert(bytes[at] == encode_utf8(line)[k]);
    assert(line[k] as u8 == encode_utf8(line)[k]);
    assert('\0' <= line[k] <= '\u{7f}');
    if k + 1 < line.len() {
        assert(line[k] != '\n');
        ascii_line(line, before, after, k + 1);
    }
}

proof fn digits_are_plain(s: Seq<char>)
    requires
        all_digits(s),
    ensures
        is_ascii_chars(s),
        forall|i: int| 0 <= i < s.len() ==> !white(#[trigger] s[i]) && s[i] != '\n',
{
    assert forall|i: int| 0 <= i < s.len() implies '\0' <= #[trigger] s[i] <= '\u{7f}' by {
        assert(crate::text::digit(s[i]));
    }
    assert forall|i: int| 0 <= i < s.len() implies !white(#[trigger] s[i]) && s[i] != '\n' by {
        assert(crate::text::digit(s[i]));
    }
}

/// What the two header lines of a framed message say.
proof fn header_lines(n: nat)
    requires
        n <= usize::MAX,
    ensures
        ({
            let first = "Content-Length: "@ + decimal(n) + seq!['\r', '\n'];
            &&& is_ascii_chars(first)
            &&& first.last() == '\n'
            &&& forall|i: int| 0 <= i < first.len() - 1 ==> first[i] != '\n'
            &&& !ends_headers(first)
            &&& after_header(None, first) == Some(n as usize)
            &&& ends_headers(seq!['\r', '\n'])
            &&& is_ascii_chars(seq!['\r', '\n'])
        }),
{
    reveal_strlit("Content-Length: ");
    reveal_strlit("Content-Length:");
    let digits = decimal(n);
    decimal_reads_back(n);
    digits_are_plain(digits);
    let name = "Content-Length: "@;
    let first = name + digits + seq!['\r', '\n'];
    assert forall|i: int| 0 <= i < first.len() implies '\0' <= #[trigger] first[i] <= '\u{7f}' by {
        if name.len() <= i < name.len() + digits.len() {
            assert(first[i] == digits[i - name.len()]);
        }
    }
    assert forall|i: int| 0 <= i < first.len() - 1 implies first[i] != '\n' by {
        if name.len() <= i < name.len() + digits.len() {
            assert(first[i] == digits[i - name.len()]);
        }
    }
    let kept = name + digits;
    assert(first.drop_last().drop_last() =~= kept);
    assert(first.drop_last().last() == '\r');
    assert(kept.last() == digits.last());
    assert(trim_end(kept) == kept);
    assert(trim_end(first.drop_last()) == kept);
    assert(trim_end(first) == kept);
    assert(kept.subrange(0, 15) =~= "Content-Length:"@);
    assert(at_index(kept, 0, length_header()));
    let value = kept.skip(15);
    assert(value =~= seq![' '] + digits);
    assert(value.last() == digits.last());
    assert(trim_end(value) == value);
    crate::text::trim_start_skips(seq![' '], digits);
    assert(trim_start(digits) == digits);
    assert(trim(value) == digits);
    let blank = seq!['\r', '\n'];
    assert(blank.drop_last().drop_last() =~= Seq::<char>::empty());
    assert(trim_end(Seq::<char>::empty()) =~= Seq::<char>::empty());
    assert(trim_end(blank.drop_last()) =~= Seq::<char>::empty());
    assert(trim_end(blank) =~= Seq::<char>::empty());
}

proof fn line_end_moves_on(bytes: Seq<u8>, at: int)
    requires
        0 <= at < bytes.len(),
    ensures
        at < line_end(bytes, at) <= bytes.len(),
    decreases bytes.len() - at,
{
    if at + 1 < bytes.len() {
        line_end_moves_on(bytes, at + 1);
    } else {
        assert(line_end(bytes, at + 1) == bytes.len());
    }
}

proof fn headers_move_on(bytes: Seq<u8>, at: int, length: Option<usize>)
    requires
        0 <= at < bytes.len(),
    ensures
        at < headers_stop(bytes, at) <= bytes.len(),
        headers_at(bytes, at, length) matches Some((_, end)) ==> end == headers_stop(bytes, at),
    decreases bytes.len() - at,
{
    line_end_moves_on(bytes, at);
    let end = line_end(bytes, at);
    let raw = bytes.subrange(at, end);
    if end < bytes.len() {
        headers_move_on(bytes, end, after_header(length, decode_utf8(raw)));
    } else {
        assert(headers_stop(bytes, end) == end);
        assert(headers_at(bytes, end, after_header(length, decode_utf8(raw))) is None);
    }
}

/// Reading always moves on, and never past the end: as long as there are bytes,
/// each attempt uses some of them up.
pub proof fn reading_moves_on(bytes: Seq<u8>, at: int)
    requires
        0 <= at < bytes.len(),
    ensures
        at < message_stop(bytes, at) <= bytes.len(),
{
    headers_move_on(bytes, at, None);
}

/// A header block without a length costs nothing but itself: reading goes on
/// right behind its blank line.
pub proof fn a_block_without_a_length_is_skipped(bytes: Seq<u8>, at: int, end: int)
    requires
        0 <= at,
        headers_at(bytes, at, None) == Some((None::<usize>, end)),
    ensures
        message_at(bytes, at) is None,
        message_stop(bytes, at) == end,
{
    headers_move_on(bytes, at, None);
}

/// Reading what was framed gives the message back, wherever it stands among
/// other bytes, and leaves the reader at whatever follows it: messages that
/// were sent in a row are read in a row.
pub proof fn what_is_framed_reads_back(before: Seq<u8>, body: Seq<char>, rest: Seq<u8>)
    requires
        encode_utf8(body).len() <= usize::MAX,
    ensures
        message_at(before + encode_utf8(framed(body)) + rest, before.len() as int) == Some(
            (body, (before.len() + encode_utf8(framed(body)).len()) as int),
        ),
        message_stop(before + encode_utf8(framed(body)) + rest, before.len() as int)
            == before.len() + encode_utf8(framed(body)).len(),
{
    let payload = encode_utf8(body);
    let n = payload.len();
    let first = "Content-Length: "@ + decimal(n) + seq!['\r', '\n'];
    let blank = seq!['\r', '\n'];
    header_lines(n);
    reveal_strlit("\r\n\r\n");
    assert("\r\n\r\n"@ =~= blank + blank);
    assert(framed(body) =~= first + (blank + body));
    encode_adds(first, blank + body);
    encode_adds(blank, body);
    let bytes = before + encode_utf8(framed(body)) + rest;
    let a = encode_utf8(first);
    let b = encode_utf8(blank);
    let from = before.len() as int;

    assert(bytes =~= before + a + (b + payload + rest));
    ascii_line(first, before, b + payload + rest, 0);
    encode_utf8_valid_utf8(first);
    encode_utf8_decode_utf8(first);
    let second = from + first.len();
    assert(bytes.subrange(from, second) =~= a);

    assert(bytes =~= (before + a) + b + (payload + rest));
    ascii_line(blank, before + a, payload + rest, 0);
    encode_utf8_valid_utf8(blank);
    encode_utf8_decode_utf8(blank);
    let start = second + blank.len();
    assert(bytes.subrange(second, start) =~= b);
    assert(headers_at(bytes, second, Some(n as usize)) == Some((Some(n as usize), start)));
    assert(headers_at(bytes, from, None) == Some((Some(n as usize), start)));

    encode_utf8_valid_utf8(body);
    encode_utf8_decode_utf8(body);
    assert(bytes.subrange(start, start + n) =~= payload);
}

/// A header is read for its length whatever white space stands around the
/// number and at the end of the line; a line that is no length header leaves
/// what was said before.
pub proof fn a_length_is_read_from_its_header(length: Option<usize>, line: Seq<char>, n: usize)
    ensures
        !at_index(trim_end(line), 0, "Content-Length:"@) ==> after_header(length, line) == length,
        at_index(trim_end(line), 0, "Content-Length:"@) && trim(
            trim_end(line).skip("Content-Length:"@.len() as int),
        ) == decimal(n as nat) ==> after_header(length, line) == Some(n),
{
    if trim(trim_end(line).skip("Content-Length:"@.len() as int)) == decimal(n as nat) {
        decimal_reads_back(n as nat);
        crate::text::a_number_is_written_plainly(n as nat);
        let s = decimal(n as nat);
        assert(crate::text::digit(s[0]));
    }
}

/// A block of headers ends at its first blank line, and a line at its line
/// feed.
pub proof fn a_line_ends_at_its_feed(bytes: Seq<u8>, at: int, end: int)
    requires
        0 <= at <= end < bytes.len(),
        bytes[end] == 10,
        forall|i: int| at <= i < end ==> #[trigger] bytes[i] != 10,
    ensures
        line_end(bytes, at) == end + 1,
    decreases end - at,
{
    if at < end {
        a_line_ends_at_its_feed(bytes, at + 1, end);
    }
}

} // verus!
