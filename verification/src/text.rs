//! Text as sequences of characters.
//!
//! A `&str` or `String` is viewed as the `Seq<char>` of its characters.  This
//! module gives the handful of operations on such sequences that the rest of
//! the crate is written with: trimming, splitting into lines, padding,
//! decimal numbers, and joining rows.

use vstd::prelude::*;
use vstd::utf8::encode_utf8;

verus! {

/// `String::push`: appends one character to the end of the string.
pub assume_specification[ String::push ](s: &mut String, c: char)
    ensures
        final(s)@ == old(s)@.push(c),
;

/// `String::push_str`: appends a whole string slice to the end of the string.
pub assume_specification[ String::push_str ](s: &mut String, t: &str)
    ensures
        final(s)@ == old(s)@ + t@,
;

// --- conversions -------------------------------------------------------------

/// The characters of a string.
pub fn chars_of(s: &str) -> (r: Vec<char>)
    ensures
        r@ == s@,
{
    let mut out: Vec<char> = Vec::new();
    for c in it: s.chars()
        invariant
            out@ == it.seq().take(it.index() as int),
            it.seq() == s@,
    {
        out.push(c);
    }
    out
}

/// The string made of these characters.
pub fn string_of(v: &Vec<char>) -> (r: String)
    ensures
        r@ == v@,
{
    let mut out = String::new();
    for i in 0..v.len()
        invariant
            out@ == v@.take(i as int),
    {
        out.push(v[i]);
    }
    assert(v@.take(v.len() as int) == v@);
    out
}

/// An owned copy of a string slice.
pub fn owned(s: &str) -> (r: String)
    ensures
        r@ == s@,
{
    let mut out = String::new();
    out.push_str(s);
    assert(out@ == s@);
    out
}

/// The characters from `from` up to, not including, `to`.
pub fn slice(v: &Vec<char>, from: usize, to: usize) -> (r: Vec<char>)
    requires
        from <= to <= v.len(),
    ensures
        r@ == v@.subrange(from as int, to as int),
{
    let mut out: Vec<char> = Vec::new();
    for i in from..to
        invariant
            from <= i <= to <= v.len(),
            out@ == v@.subrange(from as int, i as int),
    {
        out.push(v[i]);
    }
    out
}

/// Whether the characters are exactly those of `literal`.
pub fn same(v: &Vec<char>, literal: &str) -> (r: bool)
    ensures
        r == (v@ == literal@),
{
    let other = chars_of(literal);
    if v.len() != other.len() {
        return false;
    }
    for i in 0..v.len()
        invariant
            v.len() == other.len(),
            other@ == literal@,
            v@.take(i as int) == other@.take(i as int),
    {
        if v[i] != other[i] {
            assert(v@[i as int] != other@[i as int]);
            return false;
        }
    }
    assert(v@.take(v.len() as int) == v@);
    assert(other@.take(v.len() as int) == other@);
    true
}

/// Whether two strings hold the same characters.
pub fn equal(a: &str, b: &str) -> (r: bool)
    ensures
        r == (a@ == b@),
{
    same(&chars_of(a), b)
}

/// Whether `part` stands in `whole` at index `at`.
pub open spec fn at_index(whole: Seq<char>, at: int, part: Seq<char>) -> bool {
    0 <= at && at + part.len() <= whole.len() && whole.subrange(at, at + part.len()) == part
}

/// Whether `part` stands in `whole` at `at`.
pub fn stands_at(whole: &Vec<char>, at: usize, part: &Vec<char>) -> (r: bool)
    ensures
        r == at_index(whole@, at as int, part@),
{
    if at > whole.len() || part.len() > whole.len() - at {
        return false;
    }
    for i in 0..part.len()
        invariant
            at + part.len() <= whole.len(),
            forall|j: int| 0 <= j < i ==> whole@[at + j] == part@[j],
    {
        if whole[at + i] != part[i] {
            assert(whole@.subrange(at as int, at + part@.len())[i as int] != part@[i as int]);
            return false;
        }
    }
    assert(whole@.subrange(at as int, at + part@.len()) == part@);
    true
}

/// Whether `part` occurs anywhere in `whole`.
pub open spec fn occurs(whole: Seq<char>, part: Seq<char>) -> bool {
    exists|at: int| at_index(whole, at, part)
}

/// Whether `part` occurs anywhere in `whole`.
pub fn contains(whole: &Vec<char>, part: &Vec<char>) -> (r: bool)
    ensures
        r == occurs(whole@, part@),
{
    let mut at: usize = 0;
    while at < whole.len()
        invariant
            at <= whole.len(),
            forall|k: int| 0 <= k < at ==> !at_index(whole@, k, part@),
        decreases whole.len() - at,
    {
        if stands_at(whole, at, part) {
            return true;
        }
        at = at + 1;
    }
    let last = stands_at(whole, at, part);
    if last {
        assert(at_index(whole@, at as int, part@));
    } else {
        assert forall|k: int| !at_index(whole@, k, part@) by {
            if k < at {
            } else if k == at {
            } else {
            }
        }
    }
    last
}

// --- characters --------------------------------------------------------------

/// Unicode's `White_Space` property.
pub open spec fn white(c: char) -> bool {
    let n = c as u32;
    ||| 0x9 <= n <= 0xd
    ||| n == 0x20
    ||| n == 0x85
    ||| n == 0xa0
    ||| n == 0x1680
    ||| 0x2000 <= n <= 0x200a
    ||| n == 0x2028
    ||| n == 0x2029
    ||| n == 0x202f
    ||| n == 0x205f
    ||| n == 0x3000
}

/// Whether `c` is white space.
pub fn is_white(c: char) -> (r: bool)
    ensures
        r == white(c),
{
    let n: u32 = c as u32;
    (0x9 <= n && n <= 0xd) || n == 0x20 || n == 0x85 || n == 0xa0 || n == 0x1680 || (0x2000 <= n
        && n <= 0x200a) || n == 0x2028 || n == 0x2029 || n == 0x202f || n == 0x205f || n == 0x3000
}

/// The character with an ASCII capital letter made small.
pub open spec fn lower(c: char) -> char {
    if 'A' <= c <= 'Z' {
        ((c as u32) + 32) as char
    } else {
        c
    }
}

/// The small form of an ASCII capital letter; every other character as it is.
pub fn to_lower(c: char) -> (r: char)
    ensures
        r == lower(c),
{
    if 'A' <= c && c <= 'Z' {
        ((c as u8) + 32) as char
    } else {
        c
    }
}

/// Every ASCII capital letter made small.
pub open spec fn lowered(s: Seq<char>) -> Seq<char> {
    Seq::new(s.len(), |i: int| lower(s[i]))
}

/// Every ASCII capital letter made small.
pub fn to_lowered(v: &Vec<char>) -> (r: Vec<char>)
    ensures
        r@ == lowered(v@),
{
    let mut out: Vec<char> = Vec::new();
    for i in 0..v.len()
        invariant
            out@ == lowered(v@).take(i as int),
    {
        out.push(to_lower(v[i]));
        assert(lowered(v@).take(i + 1) == lowered(v@).take(i as int).push(lower(v@[i as int])));
    }
    assert(lowered(v@).take(v.len() as int) == lowered(v@));
    out
}

/// Whether `c` is one of `0` to `9`.
pub open spec fn digit(c: char) -> bool {
    '0' <= c <= '9'
}

/// Whether `c` is one of `0` to `9`.
pub fn is_digit(c: char) -> (r: bool)
    ensures
        r == digit(c),
{
    '0' <= c && c <= '9'
}

/// The text is a single character: that character, made small.
pub open spec fn letter(s: Seq<char>) -> Option<char> {
    if s.len() == 1 {
        Some(lower(s[0]))
    } else {
        None
    }
}

/// The single character of a text, made small, or `None` when the text is
/// empty or longer than one character.
pub fn letter_of(s: &str) -> (r: Option<char>)
    ensures
        r == letter(s@),
{
    let v = chars_of(s);
    if v.len() == 1 {
        Some(to_lower(v[0]))
    } else {
        None
    }
}

// --- trimming ----------------------------------------------------------------

/// The text without the white space it begins with.
pub open spec fn trim_start(s: Seq<char>) -> Seq<char>
    decreases s.len(),
{
    if s.len() > 0 && white(s[0]) {
        trim_start(s.drop_first())
    } else {
        s
    }
}

/// The text without the white space it ends with.
pub open spec fn trim_end(s: Seq<char>) -> Seq<char>
    decreases s.len(),
{
    if s.len() > 0 && white(s.last()) {
        trim_end(s.drop_last())
    } else {
        s
    }
}

/// The text without the white space around it.
pub open spec fn trim(s: Seq<char>) -> Seq<char> {
    trim_start(trim_end(s))
}

/// How many characters of white space the text begins with.
pub fn leading_white(v: &Vec<char>) -> (n: usize)
    ensures
        n <= v.len(),
        trim_start(v@) == v@.skip(n as int),
        forall|i: int| 0 <= i < n ==> white(v@[i]),
        n < v.len() ==> !white(v@[n as int]),
{
    let mut n: usize = 0;
    assert(v@.skip(0) == v@);
    while n < v.len() && is_white(v[n])
        invariant
            n <= v.len(),
            trim_start(v@) == trim_start(v@.skip(n as int)),
            forall|i: int| 0 <= i < n ==> white(v@[i]),
        decreases v.len() - n,
    {
        assert(v@.skip(n as int).drop_first() == v@.skip(n + 1));
        n = n + 1;
    }
    n
}

/// The length of the text without the white space it ends with.
pub fn trimmed_len(v: &Vec<char>) -> (n: usize)
    ensures
        n <= v.len(),
        trim_end(v@) == v@.take(n as int),
{
    let mut n: usize = v.len();
    assert(v@.take(n as int) == v@);
    while n > 0 && is_white(v[n - 1])
        invariant
            n <= v.len(),
            trim_end(v@) == trim_end(v@.take(n as int)),
        decreases n,
    {
        assert(v@.take(n as int).drop_last() == v@.take(n - 1));
        n = n - 1;
    }
    n
}

/// The text without the white space around it.
pub fn trimmed(v: &Vec<char>) -> (r: Vec<char>)
    ensures
        r@ == trim(v@),
{
    let end = trimmed_len(v);
    let head = slice(v, 0, end);
    assert(head@ == v@.take(end as int));
    let start = leading_white(&head);
    let r = slice(&head, start, head.len());
    assert(r@ == head@.skip(start as int));
    r
}

/// A text that begins with something other than white space is left alone.
pub proof fn trim_start_keeps(s: Seq<char>)
    requires
        s.len() == 0 || !white(s[0]),
    ensures
        trim_start(s) == s,
{
}

/// Trimming the front of white space followed by `t` is trimming `t`.
pub proof fn trim_start_skips(pad: Seq<char>, t: Seq<char>)
    requires
        forall|i: int| 0 <= i < pad.len() ==> white(pad[i]),
    ensures
        trim_start(pad + t) == trim_start(t),
    decreases pad.len(),
{
    if pad.len() == 0 {
        assert(pad + t == t);
    } else {
        assert((pad + t).drop_first() == pad.drop_first() + t);
        trim_start_skips(pad.drop_first(), t);
    }
}

// --- splitting ---------------------------------------------------------------

/// The index of the first `c` at or after `from`, or the text's length when
/// there is none.
pub open spec fn find_from(s: Seq<char>, from: int, c: char) -> int
    decreases s.len() - from,
{
    if from < 0 || from >= s.len() {
        s.len() as int
    } else if s[from] == c {
        from
    } else {
        find_from(s, from + 1, c)
    }
}

/// Where the first `c` at or after `from` is, or the length of the text.
pub fn find_char(v: &Vec<char>, from: usize, c: char) -> (r: usize)
    requires
        from <= v.len(),
    ensures
        r == find_from(v@, from as int, c),
        from <= r <= v.len(),
        r < v.len() ==> v@[r as int] == c,
        forall|i: int| from <= i < r ==> v@[i] != c,
{
    let mut i: usize = from;
    while i < v.len() && v[i] != c
        invariant
            from <= i <= v.len(),
            find_from(v@, from as int, c) == find_from(v@, i as int, c),
            forall|j: int| from <= j < i ==> v@[j] != c,
        decreases v.len() - i,
    {
        i = i + 1;
    }
    i
}

/// What `find_from` finds: nothing but other characters up to it.
pub proof fn find_from_is(s: Seq<char>, from: int, c: char, at: int)
    requires
        0 <= from <= at <= s.len(),
        forall|i: int| from <= i < at ==> s[i] != c,
        at < s.len() ==> s[at] == c,
    ensures
        find_from(s, from, c) == at,
    decreases at - from,
{
    if from < at {
        find_from_is(s, from + 1, c, at);
    }
}

/// `find_from` stays within the text.
pub proof fn find_from_bounds(s: Seq<char>, from: int, c: char)
    requires
        0 <= from <= s.len(),
    ensures
        from <= find_from(s, from, c) <= s.len(),
        find_from(s, from, c) < s.len() ==> s[find_from(s, from, c)] == c,
        forall|i: int| from <= i < find_from(s, from, c) ==> s[i] != c,
    decreases s.len() - from,
{
    if from < s.len() && s[from] != c {
        find_from_bounds(s, from + 1, c);
    }
}

/// The text before and after the first `c`, or `None` when it has no `c`.
pub open spec fn split_once(s: Seq<char>, c: char) -> Option<(Seq<char>, Seq<char>)> {
    let at = find_from(s, 0, c);
    if at < s.len() {
        Some((s.take(at), s.skip(at + 1)))
    } else {
        None
    }
}

/// The text before and after the first `c`, or `None` when it has no `c`.
pub fn split_at_char(v: &Vec<char>, c: char) -> (r: Option<(Vec<char>, Vec<char>)>)
    ensures
        r is Some <==> split_once(v@, c) is Some,
        r matches Some(p) ==> split_once(v@, c) == Some((p.0@, p.1@)),
{
    let at = find_char(v, 0, c);
    if at < v.len() {
        let head = slice(v, 0, at);
        let tail = slice(v, at + 1, v.len());
        assert(head@ == v@.take(at as int));
        assert(tail@ == v@.skip(at + 1));
        Some((head, tail))
    } else {
        None
    }
}

/// The text after `prefix`, or `None` when it does not begin with it.
pub open spec fn strip_prefix(s: Seq<char>, prefix: Seq<char>) -> Option<Seq<char>> {
    if at_index(s, 0, prefix) {
        Some(s.skip(prefix.len() as int))
    } else {
        None
    }
}

/// The text after `prefix`, or `None` when it does not begin with it.
pub fn after_prefix(v: &Vec<char>, prefix: &str) -> (r: Option<Vec<char>>)
    ensures
        r is Some <==> strip_prefix(v@, prefix@) is Some,
        r matches Some(rest) ==> strip_prefix(v@, prefix@) == Some(rest@),
{
    let p = chars_of(prefix);
    if stands_at(v, 0, &p) {
        let rest = slice(v, p.len(), v.len());
        assert(rest@ == v@.skip(p.len() as int));
        Some(rest)
    } else {
        None
    }
}

/// One line without the carriage return that a `\r\n` ending leaves on it.
pub open spec fn without_return(s: Seq<char>) -> Seq<char> {
    if s.len() > 0 && s.last() == '\r' {
        s.drop_last()
    } else {
        s
    }
}

/// The lines of a text from index `from` on.
///
/// A line ends at `\n` or `\r\n`, or at the end of the text; a text that ends
/// in a line ending has no empty line after it.
pub open spec fn lines_from(s: Seq<char>, from: int) -> Seq<Seq<char>>
    decreases s.len() - from,
{
    if from < 0 || from >= s.len() {
        Seq::empty()
    } else {
        let at = find_from(s, from, '\n');
        if from <= at < s.len() {
            seq![without_return(s.subrange(from, at))] + lines_from(s, at + 1)
        } else {
            seq![s.skip(from)]
        }
    }
}

/// The lines of a text.
pub open spec fn lines(s: Seq<char>) -> Seq<Seq<char>> {
    lines_from(s, 0)
}

/// The views of a vector of character vectors.
pub open spec fn views(v: Seq<Vec<char>>) -> Seq<Seq<char>> {
    Seq::new(v.len(), |i: int| v[i]@)
}

/// The views of a vector of strings.
pub open spec fn texts(v: Seq<String>) -> Seq<Seq<char>> {
    Seq::new(v.len(), |i: int| v[i]@)
}

/// The lines of a text.
pub fn lines_of(v: &Vec<char>) -> (r: Vec<Vec<char>>)
    ensures
        views(r@) == lines(v@),
{
    let mut out: Vec<Vec<char>> = Vec::new();
    let mut from: usize = 0;
    assert(views(out@) + lines_from(v@, 0) == lines(v@));
    while from < v.len()
        invariant
            from <= v.len(),
            views(out@) + lines_from(v@, from as int) == lines(v@),
        decreases v.len() - from,
    {
        let ghost before = out@;
        let at = find_char(v, from, '\n');
        if at < v.len() {
            let mut end: usize = at;
            if end > from && v[end - 1] == '\r' {
                end = end - 1;
            }
            let line = slice(v, from, end);
            assert(line@ == without_return(v@.subrange(from as int, at as int)));
            out.push(line);
            assert(views(out@) == views(before).push(line@));
            assert(views(before) + lines_from(v@, from as int) == views(out@) + lines_from(
                v@,
                at + 1,
            ));
            from = at + 1;
        } else {
            let line = slice(v, from, v.len());
            assert(line@ == v@.skip(from as int));
            out.push(line);
            assert(views(out@) == views(before).push(line@));
            from = v.len();
            assert(lines_from(v@, from as int) == Seq::<Seq<char>>::empty());
        }
    }
    assert(lines_from(v@, from as int) == Seq::<Seq<char>>::empty());
    assert(views(out@) == lines(v@));
    out
}

/// Whether `text` is one of `all`.
pub open spec fn listed(all: Seq<String>, text: Seq<char>) -> bool {
    exists|i: int| 0 <= i < all.len() && (#[trigger] all[i])@ == text
}

/// Whether `text` is one of `all`.
pub fn lists(all: &Vec<String>, text: &str) -> (r: bool)
    ensures
        r == listed(all@, text@),
{
    for i in 0..all.len()
        invariant
            forall|j: int| 0 <= j < i ==> (#[trigger] all@[j])@ != text@,
    {
        if equal(all[i].as_str(), text) {
            assert(all@[i as int]@ == text@);
            return true;
        }
    }
    false
}

/// The rows one after the other, with `glue` between each two.
pub open spec fn joined(rows: Seq<Seq<char>>, glue: Seq<char>) -> Seq<char>
    decreases rows.len(),
{
    if rows.len() == 0 {
        Seq::empty()
    } else if rows.len() == 1 {
        rows[0]
    } else {
        joined(rows.drop_last(), glue) + glue + rows.last()
    }
}

/// The rows one after the other, with `glue` between each two.
pub fn join(rows: &Vec<String>, glue: &str) -> (r: String)
    ensures
        r@ == joined(texts(rows@), glue@),
{
    let mut out = String::new();
    for i in 0..rows.len()
        invariant
            out@ == joined(texts(rows@).take(i as int), glue@),
    {
        if i > 0 {
            out.push_str(glue);
        }
        out.push_str(rows[i].as_str());
        proof {
            let upto = texts(rows@).take(i + 1);
            assert(upto.drop_last() == texts(rows@).take(i as int));
            assert(upto.last() == rows@[i as int]@);
            if i == 0 {
                assert(out@ == rows@[0]@);
            }
        }
    }
    assert(texts(rows@).take(rows.len() as int) == texts(rows@));
    out
}

// --- padding -----------------------------------------------------------------

/// `c`, `n` times over.
pub open spec fn repeat(c: char, n: int) -> Seq<char> {
    Seq::new(if n < 0 { 0 } else { n as nat }, |i: int| c)
}

/// `c`, `n` times over.
pub fn repeated(c: char, n: usize) -> (r: String)
    ensures
        r@ == repeat(c, n as int),
{
    let mut out = String::new();
    for i in 0..n
        invariant
            out@ == repeat(c, i as int),
    {
        out.push(c);
        assert(repeat(c, i + 1) == repeat(c, i as int).push(c));
    }
    out
}

/// The number of characters of a text.
pub fn count(s: &str) -> (n: usize)
    ensures
        n == s@.len(),
{
    chars_of(s).len()
}

/// The text with spaces after it up to `width` characters.
pub open spec fn left(s: Seq<char>, width: int) -> Seq<char> {
    s + repeat(' ', width - s.len())
}

/// The text with spaces before it up to `width` characters.
pub open spec fn right(s: Seq<char>, width: int) -> Seq<char> {
    repeat(' ', width - s.len()) + s
}

/// The text with spaces after it up to `width` characters.
pub fn pad_left(s: &str, width: usize) -> (r: String)
    ensures
        r@ == left(s@, width as int),
{
    let n = count(s);
    let mut out = owned(s);
    if n < width {
        out.push_str(repeated(' ', width - n).as_str());
    } else {
        assert(repeat(' ', width - s@.len()) == Seq::<char>::empty());
        assert(left(s@, width as int) == s@);
    }
    out
}

/// The text with spaces before it up to `width` characters.
pub fn pad_right(s: &str, width: usize) -> (r: String)
    ensures
        r@ == right(s@, width as int),
{
    let n = count(s);
    if n < width {
        let mut out = repeated(' ', width - n);
        out.push_str(s);
        out
    } else {
        assert(repeat(' ', width - s@.len()) == Seq::<char>::empty());
        assert(right(s@, width as int) == s@);
        owned(s)
    }
}

/// The text when it fits in `width` characters; otherwise its beginning with
/// `mark` as the last of `width` characters, or just `mark` when `width` is 0.
pub open spec fn cut_to(s: Seq<char>, width: int, mark: char) -> Seq<char> {
    if s.len() <= width {
        s
    } else if width <= 0 {
        seq![mark]
    } else {
        s.take(width - 1).push(mark)
    }
}

/// The text shortened to `width` characters, `mark` standing for the rest.
pub fn cut_with(s: &str, width: usize, mark: char) -> (r: String)
    ensures
        r@ == cut_to(s@, width as int, mark),
{
    let v = chars_of(s);
    if v.len() <= width {
        return owned(s);
    }
    let keep: usize = if width == 0 { 0 } else { width - 1 };
    let head = slice(&v, 0, keep);
    assert(head@ == s@.take(keep as int));
    let mut out = string_of(&head);
    out.push(mark);
    assert(out@ == cut_to(s@, width as int, mark));
    out
}

// --- decimal numbers ---------------------------------------------------------

/// The character for a number below ten.
pub open spec fn digit_char(d: nat) -> char {
    (48 + d) as char
}

/// The number a digit stands for.
pub open spec fn digit_value(c: char) -> nat {
    ((c as u32) - 48) as nat
}

/// A number written in decimal.
pub open spec fn decimal(n: nat) -> Seq<char>
    decreases n,
{
    if n < 10 {
        seq![digit_char(n)]
    } else {
        decimal(n / 10).push(digit_char(n % 10))
    }
}

/// A number written in decimal.
pub fn decimal_of(n: u64) -> (r: String)
    ensures
        r@ == decimal(n as nat),
    decreases n,
{
    let d: u8 = (n % 10) as u8;
    let c: char = (48 + d) as char;
    if n < 10 {
        let mut out = String::new();
        out.push(c);
        assert(out@ == decimal(n as nat));
        out
    } else {
        let mut out = decimal_of(n / 10);
        out.push(c);
        out
    }
}

/// Whether every character is a digit.
pub open spec fn all_digits(s: Seq<char>) -> bool {
    forall|i: int| 0 <= i < s.len() ==> digit(#[trigger] s[i])
}

/// The number that a row of digits stands for.
pub open spec fn number(s: Seq<char>) -> nat
    decreases s.len(),
{
    if s.len() == 0 {
        0
    } else {
        number(s.drop_last()) * 10 + digit_value(s.last())
    }
}

/// The digits of an unsigned number: an optional `+`, then at least one digit.
pub open spec fn unsigned(s: Seq<char>) -> Option<nat> {
    let digits = if s.len() > 0 && s[0] == '+' { s.drop_first() } else { s };
    if digits.len() > 0 && all_digits(digits) {
        Some(number(digits))
    } else {
        None
    }
}

/// The number written in `s`, or `None` when it is not one or does not fit.
pub open spec fn parsed_usize(s: Seq<char>) -> Option<usize> {
    match unsigned(s) {
        Some(n) => if n <= usize::MAX {
            Some(n as usize)
        } else {
            None
        },
        None => None,
    }
}

/// A longer row of digits stands for no smaller a number.
pub proof fn number_grows(s: Seq<char>, n: int)
    requires
        0 <= n <= s.len(),
    ensures
        number(s.take(n)) <= number(s),
    decreases s.len() - n,
{
    if n < s.len() {
        assert(s.take(n + 1).drop_last() == s.take(n));
        number_grows(s, n + 1);
    } else {
        assert(s.take(n) == s);
    }
}

/// Reads an unsigned number: an optional `+`, then digits, within `usize`.
pub fn parse_usize(v: &Vec<char>) -> (r: Option<usize>)
    ensures
        r == parsed_usize(v@),
{
    let mut from: usize = 0;
    if v.len() > 0 && v[0] == '+' {
        from = 1;
    }
    let digits = slice(v, from, v.len());
    proof {
        if from == 1 {
            assert(digits@ == v@.drop_first());
        } else {
            assert(digits@ == v@);
        }
    }
    if digits.len() == 0 {
        return None;
    }
    let mut n: usize = 0;
    let mut fits: bool = true;
    assert(unsigned(v@) == (if all_digits(digits@) {
        Some(number(digits@))
    } else {
        None
    }));
    for i in 0..digits.len()
        invariant
            unsigned(v@) == (if all_digits(digits@) {
                Some(number(digits@))
            } else {
                None
            }),
            all_digits(digits@.take(i as int)),
            fits ==> n == number(digits@.take(i as int)),
            !fits ==> number(digits@.take(i as int)) > usize::MAX,
    {
        let c = digits[i];
        if !is_digit(c) {
            assert(!digit(digits@[i as int]));
            return None;
        }
        proof {
            assert(digits@.take(i + 1).drop_last() == digits@.take(i as int));
            assert(digits@.take(i + 1).last() == c);
            assert forall|j: int| 0 <= j < i + 1 implies digit(#[trigger] digits@.take(i + 1)[j]) by {
                if j < i {
                    assert(digits@.take(i as int)[j] == digits@.take(i + 1)[j]);
                }
            }
        }
        let d: usize = (c as u32 - 48) as usize;
        if fits {
            if n > usize::MAX / 10 || (n == usize::MAX / 10 && d > usize::MAX % 10) {
                fits = false;
            } else {
                n = n * 10 + d;
            }
        }
    }
    assert(digits@.take(digits.len() as int) == digits@);
    if fits {
        Some(n)
    } else {
        None
    }
}

/// Reading back a written number gives the number.
pub proof fn decimal_reads_back(n: nat)
    ensures
        decimal(n).len() > 0,
        all_digits(decimal(n)),
        number(decimal(n)) == n,
        unsigned(decimal(n)) == Some(n),
    decreases n,
{
    if n < 10 {
        assert(decimal(n).drop_last() == Seq::<char>::empty());
        assert(number(Seq::<char>::empty()) == 0);
        assert(decimal(n).last() == digit_char(n));
    } else {
        decimal_reads_back(n / 10);
        assert(decimal(n).drop_last() == decimal(n / 10));
    }
    assert(digit(decimal(n)[0]));
}


// --- bytes -------------------------------------------------------------------

/// How many bytes a character takes in UTF-8.
pub open spec fn width(c: char) -> nat {
    let n = c as u32;
    if n < 0x80 {
        1
    } else if n < 0x800 {
        2
    } else if n < 0x10000 {
        3
    } else {
        4
    }
}

/// How many bytes a character takes in UTF-8.
pub fn width_of(c: char) -> (r: usize)
    ensures
        r == width(c),
{
    let n: u32 = c as u32;
    if n < 0x80 {
        1
    } else if n < 0x800 {
        2
    } else if n < 0x10000 {
        3
    } else {
        4
    }
}

/// How many bytes a text takes in UTF-8.
pub open spec fn byte_len(s: Seq<char>) -> nat {
    encode_utf8(s).len()
}

/// The bytes of a text are those of its first character and of the rest.
pub proof fn byte_len_steps(s: Seq<char>)
    requires
        s.len() > 0,
    ensures
        byte_len(s) == width(s[0]) + byte_len(s.drop_first()),
{
    vstd::utf8::char_is_scalar(s[0]);
}

/// The bytes of two texts are those of the one and of the other.
pub proof fn byte_len_adds(a: Seq<char>, b: Seq<char>)
    ensures
        byte_len(a + b) == byte_len(a) + byte_len(b),
    decreases a.len(),
{
    if a.len() == 0 {
        assert(a + b =~= b);
    } else {
        assert((a + b).drop_first() =~= a.drop_first() + b);
        byte_len_steps(a + b);
        byte_len_steps(a);
        byte_len_adds(a.drop_first(), b);
    }
}

/// How many bytes a text takes in UTF-8.
pub fn bytes_of(s: &str) -> (r: usize)
    ensures
        r == byte_len(s@),
{
    s.as_bytes().len()
}

/// The smaller of two numbers.
pub open spec fn least(a: int, b: int) -> int {
    if a < b {
        a
    } else {
        b
    }
}

/// The byte offset of a character index, clamped to the end of the text.
pub fn byte_offset(line: &str, column: usize) -> (r: usize)
    ensures
        r == byte_len(line@.take(least(column as int, line@.len() as int))),
{
    let chars = chars_of(line);
    let size = bytes_of(line);
    let upto: usize = if column < chars.len() { column } else { chars.len() };
    let mut bytes: usize = 0;
    assert(chars@.take(0) =~= Seq::<char>::empty());
    for i in 0..upto
        invariant
            upto <= chars.len(),
            byte_len(chars@) == size,
            bytes == byte_len(chars@.take(i as int)),
    {
        proof {
            let head = chars@.take(i as int);
            let one = seq![chars@[i as int]];
            assert(head + one =~= chars@.take(i + 1));
            byte_len_adds(head, one);
            byte_len_steps(one);
            assert(one.drop_first() =~= Seq::<char>::empty());
            assert(chars@.take(i + 1) + chars@.skip(i + 1) =~= chars@);
            byte_len_adds(chars@.take(i + 1), chars@.skip(i + 1));
        }
        bytes = bytes + width_of(chars[i]);
    }
    bytes
}

/// Whether a character is a control character.
pub open spec fn control(c: char) -> bool {
    let n = c as u32;
    n < 0x20 || 0x7f <= n < 0xa0
}

/// The characters that are not control characters, in their order.
pub open spec fn printable(s: Seq<char>) -> Seq<char>
    decreases s.len(),
{
    if s.len() == 0 {
        s
    } else {
        let before = printable(s.drop_last());
        if control(s.last()) {
            before
        } else {
            before.push(s.last())
        }
    }
}

/// The characters of a key press that are not control characters: those arrive
/// as text on some layouts.
pub fn printable_of(text: &str) -> (r: Vec<char>)
    ensures
        r@ == printable(text@),
{
    let chars = chars_of(text);
    let mut out: Vec<char> = Vec::new();
    assert(chars@.take(0) =~= Seq::<char>::empty());
    for i in 0..chars.len()
        invariant
            out@ == printable(chars@.take(i as int)),
    {
        let n: u32 = chars[i] as u32;
        assert(chars@.take(i + 1).drop_last() =~= chars@.take(i as int));
        if !(n < 0x20 || (0x7f <= n && n < 0xa0)) {
            out.push(chars[i]);
        }
    }
    assert(chars@.take(chars.len() as int) =~= chars@);
    out
}

/// The smaller of two numbers is one of them and above neither.
pub proof fn the_smaller_number(a: int, b: int)
    ensures
        least(a, b) <= a,
        least(a, b) <= b,
        least(a, b) == a || least(a, b) == b,
{
}

/// Trimming takes white space from both ends and nothing from between: what is
/// left is one piece of the text, the rest around it is white, and it neither
/// begins nor ends with white space.
pub proof fn trimming_takes_the_white_ends(s: Seq<char>) -> (ends: (int, int))
    ensures
        0 <= ends.0 <= ends.1 <= s.len(),
        trim(s) == s.subrange(ends.0, ends.1),
        forall|i: int| 0 <= i < ends.0 ==> white(#[trigger] s[i]),
        forall|i: int| ends.1 <= i < s.len() ==> white(#[trigger] s[i]),
        trim(s).len() > 0 ==> !white(trim(s)[0]) && !white(trim(s).last()),
{
    let end = trimmed_end(s);
    let t = s.take(end);
    assert(trim_end(s) == t);
    let start = trimmed_start(t);
    assert(trim(s) =~= s.subrange(start, end));
    assert forall|i: int| 0 <= i < start implies white(#[trigger] s[i]) by {
        assert(t[i] == s[i]);
    }
    if start < end {
        assert(trim(s).last() == s[end - 1]);
        assert(trim(s)[0] == t[start]);
    }
    (start, end)
}

proof fn trimmed_end(s: Seq<char>) -> (end: int)
    ensures
        0 <= end <= s.len(),
        trim_end(s) == s.take(end),
        forall|i: int| end <= i < s.len() ==> white(#[trigger] s[i]),
        end > 0 ==> !white(s[end - 1]),
    decreases s.len(),
{
    if s.len() > 0 && white(s.last()) {
        let end = trimmed_end(s.drop_last());
        assert(s.drop_last().take(end) =~= s.take(end));
        assert forall|i: int| end <= i < s.len() implies white(#[trigger] s[i]) by {
            if i < s.len() - 1 {
                assert(s.drop_last()[i] == s[i]);
            }
        }
        end
    } else {
        assert(s.take(s.len() as int) =~= s);
        s.len() as int
    }
}

proof fn trimmed_start(s: Seq<char>) -> (start: int)
    ensures
        0 <= start <= s.len(),
        trim_start(s) == s.skip(start),
        forall|i: int| 0 <= i < start ==> white(#[trigger] s[i]),
        start < s.len() ==> !white(s[start]),
    decreases s.len(),
{
    if s.len() > 0 && white(s[0]) {
        let rest = s.drop_first();
        let start = trimmed_start(rest);
        assert(rest.skip(start) =~= s.skip(start + 1));
        assert forall|i: int| 0 <= i < start + 1 implies white(#[trigger] s[i]) by {
            if i > 0 {
                assert(rest[i - 1] == s[i]);
            }
        }
        if start + 1 < s.len() {
            assert(rest[start] == s[start + 1]);
        }
        start + 1
    } else {
        assert(s.skip(0) =~= s);
        0
    }
}

/// What is found is the first of its kind: it stands there, and nowhere before.
pub proof fn the_first_of_its_kind_is_found(s: Seq<char>, from: int, c: char)
    requires
        0 <= from <= s.len(),
    ensures
        ({
            let at = find_from(s, from, c);
            &&& from <= at <= s.len()
            &&& at < s.len() ==> s[at] == c
            &&& forall|i: int| from <= i < at ==> #[trigger] s[i] != c
        }),
    decreases s.len() - from,
{
    if from < s.len() && s[from] != c {
        the_first_of_its_kind_is_found(s, from + 1, c);
    }
}

/// Splitting loses nothing but the character it splits at: the parts with it
/// between them are the text, and the first part is without it.
pub proof fn splitting_loses_nothing(s: Seq<char>, c: char)
    ensures
        split_once(s, c) is None <==> !s.contains(c),
        split_once(s, c) matches Some(parts) ==> parts.0.push(c) + parts.1 == s
            && !parts.0.contains(c),
{
    the_first_of_its_kind_is_found(s, 0, c);
    let at = find_from(s, 0, c);
    if at < s.len() {
        assert(s.take(at).push(c) + s.skip(at + 1) =~= s);
        assert(s.contains(s[at]));
    }
}

/// A prefix is taken off a text that begins with it, and put before the rest
/// it gives the text back. From any other text nothing is taken.
pub proof fn a_prefix_comes_off(s: Seq<char>, prefix: Seq<char>, rest: Seq<char>)
    ensures
        strip_prefix(prefix + rest, prefix) == Some(rest),
        strip_prefix(s, prefix) matches Some(tail) ==> s == prefix + tail,
{
    let whole = prefix + rest;
    assert(whole.subrange(0, prefix.len() as int) =~= prefix);
    assert(whole.skip(prefix.len() as int) =~= rest);
    if strip_prefix(s, prefix) is Some {
        assert(s =~= prefix + s.skip(prefix.len() as int));
    }
}

/// The first line of a text is what stands before its first line break, and
/// the lines after it are those of the rest.
pub proof fn a_line_ends_at_its_break(line: Seq<char>, rest: Seq<char>)
    requires
        !line.contains('\n'),
    ensures
        ({
            let all = lines(line.push('\n') + rest);
            let bare = if line.len() > 0 && line.last() == '\r' {
                line.drop_last()
            } else {
                line
            };
            &&& all.len() == 1 + lines(rest).len()
            &&& all[0] == bare
            &&& all.skip(1) == lines(rest)
        }),
        line.len() > 0 ==> lines(line) == seq![line],
        lines(Seq::<char>::empty()).len() == 0,
{
    let whole = line.push('\n') + rest;
    let n = line.len() as int;
    assert forall|i: int| 0 <= i < n implies whole[i] != '\n' by {
        assert(whole[i] == line[i]);
        assert(line.contains(line[i]));
    }
    find_from_is(whole, 0, '\n', n);
    assert(whole.subrange(0, n) =~= line);
    lines_move_along(line.push('\n'), rest, 0);
    assert(lines(whole) =~= seq![without_return(line)] + lines(rest));
    assert(lines(whole).skip(1) =~= lines(rest));
    if n > 0 {
        the_first_of_its_kind_is_found(line, 0, '\n');
        let at = find_from(line, 0, '\n');
        if at < n {
            assert(line.contains(line[at]));
        }
        assert(line.skip(0) =~= line);
    }
}

proof fn finding_moves_along(before: Seq<char>, rest: Seq<char>, from: int, c: char)
    requires
        0 <= from <= rest.len(),
    ensures
        find_from(before + rest, before.len() + from, c) == before.len() + find_from(rest, from, c),
    decreases rest.len() - from,
{
    if from < rest.len() {
        assert((before + rest)[before.len() + from] == rest[from]);
        if rest[from] != c {
            finding_moves_along(before, rest, from + 1, c);
        }
    }
}

proof fn lines_move_along(before: Seq<char>, rest: Seq<char>, from: int)
    requires
        0 <= from <= rest.len(),
    ensures
        lines_from(before + rest, before.len() + from) == lines_from(rest, from),
    decreases rest.len() - from,
{
    if from < rest.len() {
        finding_moves_along(before, rest, from, '\n');
        the_first_of_its_kind_is_found(rest, from, '\n');
        let at = find_from(rest, from, '\n');
        let whole = before + rest;
        let n = before.len() as int;
        if at < rest.len() {
            assert(whole.subrange(n + from, n + at) =~= rest.subrange(from, at));
            lines_move_along(before, rest, at + 1);
        } else {
            assert(whole.skip(n + from) =~= rest.skip(from));
        }
    }
}

/// Joining puts every row into the text, in its order, with the glue between
/// each two and none at either end.
pub proof fn joining_puts_glue_between(a: Seq<Seq<char>>, b: Seq<Seq<char>>, glue: Seq<char>)
    requires
        a.len() > 0,
        b.len() > 0,
    ensures
        joined(a + b, glue) == joined(a, glue) + glue + joined(b, glue),
        forall|row: Seq<char>| #[trigger] joined(seq![row], glue) == row,
        joined(Seq::<Seq<char>>::empty(), glue).len() == 0,
    decreases b.len(),
{
    if b.len() == 1 {
        assert((a + b).drop_last() =~= a);
        assert((a + b).last() == b[0]);
    } else {
        joining_puts_glue_between(a, b.drop_last(), glue);
        assert((a + b).drop_last() =~= a + b.drop_last());
        assert((a + b).last() == b.last());
        assert(joined(a + b, glue) =~= joined(a, glue) + glue + joined(b, glue));
    }
}

/// Padding fills a text up to its width with spaces, on the side away from the
/// text's own, and leaves a text that is as wide already alone.
pub proof fn padding_fills_with_spaces(s: Seq<char>, width: int)
    ensures
        left(s, width).len() == (if s.len() >= width {
            s.len() as int
        } else {
            width
        }),
        right(s, width).len() == left(s, width).len(),
        left(s, width).take(s.len() as int) == s,
        right(s, width).skip(right(s, width).len() - s.len()) == s,
        forall|i: int| s.len() <= i < left(s, width).len() ==> #[trigger] left(s, width)[i] == ' ',
        forall|i: int|
            0 <= i < right(s, width).len() - s.len() ==> #[trigger] right(s, width)[i] == ' ',
{
    assert(left(s, width).take(s.len() as int) =~= s);
    assert(right(s, width).skip(right(s, width).len() - s.len()) =~= s);
}

/// A text that fits is not cut. One that does not is cut to its width: its
/// beginning, and the mark as the last character.
pub proof fn a_cut_text_keeps_its_beginning(s: Seq<char>, width: int, mark: char)
    requires
        width >= 1,
    ensures
        s.len() <= width ==> cut_to(s, width, mark) == s,
        s.len() > width ==> {
            let cut = cut_to(s, width, mark);
            &&& cut.len() == width
            &&& cut.last() == mark
            &&& cut.drop_last() == s.take(width - 1)
        },
{
    if s.len() > width {
        assert(cut_to(s, width, mark).drop_last() =~= s.take(width - 1));
    }
}

/// A number is written with digits alone and without leading zeroes.
pub proof fn a_number_is_written_plainly(n: nat)
    ensures
        decimal(n).len() >= 1,
        all_digits(decimal(n)),
        n >= 10 ==> decimal(n)[0] != '0',
        n > 0 ==> decimal(n)[0] != '0',
        decimal(n).len() == 1 <==> n < 10,
    decreases n,
{
    if n >= 10 {
        a_number_is_written_plainly(n / 10);
        assert(n / 10 >= 1);
        assert(decimal(n)[0] == decimal(n / 10)[0]);
    }
}

/// The characters that can be shown are kept in their order, and the control
/// characters are dropped, wherever they stand.
pub proof fn only_control_characters_are_dropped(s: Seq<char>)
    ensures
        printable(s) == s.filter(
            |c: char| (0x20 <= c as u32 && (c as u32) < 0x7f) || 0xa0 <= c as u32,
        ),
    decreases s.len(),
{
    reveal(Seq::filter);
    if s.len() > 0 {
        only_control_characters_are_dropped(s.drop_last());
    } else {
        assert(s =~= Seq::<char>::empty());
    }
}

/// What is asked for by prefix or by place stands there character for
/// character, and what occurs does so somewhere.
pub proof fn what_occurs_stands_somewhere(before: Seq<char>, part: Seq<char>, after: Seq<char>)
    ensures
        at_index(before + part + after, before.len() as int, part),
        occurs(before + part + after, part),
{
    let whole = before + part + after;
    assert(whole.subrange(before.len() as int, (before.len() + part.len()) as int) =~= part);
    assert(at_index(whole, before.len() as int, part));
}

/// A letter is made small where it is an ASCII capital, and every other
/// character is left as it is, in its place.
pub proof fn capitals_are_made_small(s: Seq<char>, i: int)
    requires
        0 <= i < s.len(),
    ensures
        lowered(s).len() == s.len(),
        'A' <= s[i] <= 'Z' ==> lowered(s)[i] as u32 == s[i] as u32 + 32,
        !('A' <= s[i] <= 'Z') ==> lowered(s)[i] == s[i],
{
}

/// Texts are read as they stand, one for one and in their order.
pub proof fn texts_are_read_as_they_stand(strings: Seq<String>, vectors: Seq<Vec<char>>, i: int)
    ensures
        texts(strings).len() == strings.len(),
        views(vectors).len() == vectors.len(),
        0 <= i < strings.len() ==> texts(strings)[i] == strings[i]@,
        0 <= i < vectors.len() ==> views(vectors)[i] == vectors[i]@,
{
}

/// White space is what separates words and lines and nothing that is seen.
pub proof fn letters_and_digits_are_not_white(c: char)
    ensures
        white(' '),
        white('\t'),
        white('\n'),
        white('\r'),
        0x21 <= c as u32 && c as u32 <= 0x7e ==> !white(c),
{
}

/// A number is read from its digits, with a plus or without one, and nothing
/// else is a number.
pub proof fn digits_are_read_as_their_number(n: usize, s: Seq<char>)
    ensures
        parsed_usize(decimal(n as nat)) == Some(n),
        parsed_usize(seq!['+'] + decimal(n as nat)) == Some(n),
        parsed_usize(s) is Some ==> s.len() > 0,
        s.len() > 0 && !digit(s.last()) ==> parsed_usize(s) is None,
{
    let d = decimal(n as nat);
    decimal_reads_back(n as nat);
    a_number_is_written_plainly(n as nat);
    assert(digit(d[0]));
    let plus = seq!['+'] + d;
    assert(plus.drop_first() =~= d);
    if s.len() > 0 && !digit(s.last()) {
        if s[0] == '+' {
            let t = s.drop_first();
            if t.len() > 0 {
                assert(t[t.len() - 1] == s.last());
            }
        }
    }
}

} // verus!
