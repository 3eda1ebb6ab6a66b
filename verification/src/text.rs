//! Text: the pieces that reports and verdict details are written with.
//!
//! Every sentence the suite prints is built from fixed text, numbers and
//! text it was handed. [`Line`] puts those together, and its contracts say
//! exactly which characters come out.

use vstd::prelude::*;
use vstd::string::*;

verus! {

/// The decimal digit for `d`.
pub open spec fn digit_char(d: int) -> char {
    if d == 0 { '0' } else if d == 1 { '1' } else if d == 2 { '2' } else if d == 3 { '3' }
    else if d == 4 { '4' } else if d == 5 { '5' } else if d == 6 { '6' } else if d == 7 { '7' }
    else if d == 8 { '8' } else { '9' }
}

/// A natural number in decimal, without leading zeros.
pub open spec fn dec_nat(n: nat) -> Seq<char>
    decreases n,
{
    if n < 10 {
        seq![digit_char(n as int)]
    } else {
        dec_nat(n / 10).push(digit_char((n % 10) as int))
    }
}

/// An integer in decimal, a minus sign in front of a negative one.
pub open spec fn dec(n: int) -> Seq<char> {
    if n < 0 {
        "-"@ + dec_nat((-n) as nat)
    } else {
        dec_nat(n as nat)
    }
}

/// The lower-case hexadecimal digit for `d`.
pub open spec fn hex_char(d: int) -> char {
    if d < 10 { digit_char(d) } else if d == 10 { 'a' } else if d == 11 { 'b' }
    else if d == 12 { 'c' } else if d == 13 { 'd' } else if d == 14 { 'e' } else { 'f' }
}

/// One byte as two hexadecimal digits.
pub open spec fn hex_byte(b: u8) -> Seq<char> {
    seq![hex_char(b as int / 16), hex_char(b as int % 16)]
}

/// Bytes as hexadecimal digits, two for each.
pub open spec fn hex(bytes: Seq<u8>) -> Seq<char>
    decreases bytes.len(),
{
    if bytes.len() == 0 {
        Seq::empty()
    } else {
        hex(bytes.drop_last()) + hex_byte(bytes.last())
    }
}

/// Pieces of text with `sep` between each two.
pub open spec fn joined(parts: Seq<Seq<char>>, sep: Seq<char>) -> Seq<char>
    decreases parts.len(),
{
    if parts.len() == 0 {
        Seq::empty()
    } else if parts.len() == 1 {
        parts[0]
    } else {
        joined(parts.drop_last(), sep) + sep + parts.last()
    }
}

/// The characters of each string.
pub open spec fn views(strings: Seq<String>) -> Seq<Seq<char>> {
    strings.map_values(|s: String| s@)
}

/// The pieces between the commas of `s`: one more than it has commas.
pub open spec fn comma_parts(s: Seq<char>) -> Seq<Seq<char>>
    decreases s.len(),
{
    if s.len() == 0 {
        seq![Seq::empty()]
    } else {
        let front = comma_parts(s.drop_last());
        if s.last() == ',' {
            front.push(Seq::empty())
        } else {
            front.update(front.len() - 1, front.last().push(s.last()))
        }
    }
}

/// `needle` stands in `hay` at position `i`.
pub open spec fn stands_at(hay: Seq<char>, needle: Seq<char>, i: int) -> bool {
    0 <= i <= hay.len() - needle.len() && hay.subrange(i, i + needle.len()) == needle
}

/// `needle` stands somewhere in `hay`.
pub open spec fn has_text(hay: Seq<char>, needle: Seq<char>) -> bool {
    exists|i: int| stands_at(hay, needle, i)
}

/// A list of numbers the way a debug print shows it: `[1, 2, 3]`.
pub open spec fn int_list(values: Seq<int>) -> Seq<char> {
    "["@ + joined(values.map_values(|v: int| dec(v)), ", "@) + "]"@
}

/// Bytes the way a two-digit hexadecimal debug print shows them: `[0a, ff]`.
pub open spec fn hex_list(bytes: Seq<u8>) -> Seq<char> {
    "["@ + joined(bytes.map_values(|b: u8| hex_byte(b)), ", "@) + "]"@
}

pub open spec fn ints_of_i32(values: Seq<i32>) -> Seq<int> {
    values.map_values(|v: i32| v as int)
}

pub open spec fn ints_of_u8(values: Seq<u8>) -> Seq<int> {
    values.map_values(|v: u8| v as int)
}

/// A text quoted and escaped: what std's `Debug` for `str` writes for these
/// characters.
pub uninterp spec fn quoted(s: Seq<char>) -> Seq<char>;

/// A span of time in words: what std's `Debug` for `Duration` writes for
/// this many nanoseconds.
pub uninterp spec fn duration_text(nanos: u64) -> Seq<char>;

/// Bytes read as UTF-8: what std's `String::from_utf8_lossy` makes of them.
pub uninterp spec fn utf8_lossy(bytes: Seq<u8>) -> Seq<char>;

/// Calls std's `Debug` formatting of `str`. The contract gives its result
/// the name `quoted`, and claims no more than that equal texts are quoted
/// equally.
#[verifier::external_body]
fn debug_str(s: &str) -> (r: String)
    ensures
        r@ == quoted(s@),
{
    format!("{s:?}")
}

/// Calls std's `Debug` formatting of `Duration`. The contract gives its
/// result the name `duration_text`, and claims no more than that equal
/// spans are written equally.
#[verifier::external_body]
fn debug_duration(nanos: u64) -> (r: String)
    ensures
        r@ == duration_text(nanos),
{
    format!("{:?}", std::time::Duration::from_nanos(nanos))
}

/// Calls std's `String::from_utf8_lossy`. The contract gives its result the
/// name `utf8_lossy`, and claims no more than that equal bytes read equally.
#[verifier::external_body]
pub(crate) fn lossy_text(bytes: &[u8]) -> (r: String)
    ensures
        r@ == utf8_lossy(bytes@),
{
    String::from_utf8_lossy(bytes).into_owned()
}

fn digit_text(d: u128) -> (r: &'static str)
    requires
        d < 16,
    ensures
        r@ == seq![hex_char(d as int)],
{
    proof {
        reveal_strlit("0"); reveal_strlit("1"); reveal_strlit("2"); reveal_strlit("3");
        reveal_strlit("4"); reveal_strlit("5"); reveal_strlit("6"); reveal_strlit("7");
        reveal_strlit("8"); reveal_strlit("9"); reveal_strlit("a"); reveal_strlit("b");
        reveal_strlit("c"); reveal_strlit("d"); reveal_strlit("e"); reveal_strlit("f");
    }
    let r = if d == 0 { "0" } else if d == 1 { "1" } else if d == 2 { "2" } else if d == 3 { "3" }
        else if d == 4 { "4" } else if d == 5 { "5" } else if d == 6 { "6" } else if d == 7 { "7" }
        else if d == 8 { "8" } else if d == 9 { "9" } else if d == 10 { "a" }
        else if d == 11 { "b" } else if d == 12 { "c" } else if d == 13 { "d" }
        else if d == 14 { "e" } else { "f" };
    assert(r@ =~= seq![hex_char(d as int)]);
    r
}

fn nat_text(n: u128) -> (r: String)
    ensures
        r@ == dec_nat(n as nat),
    decreases n,
{
    if n < 10 {
        String::from_str(digit_text(n))
    } else {
        let mut head = nat_text(n / 10);
        head.append(digit_text(n % 10));
        assert(head@ =~= dec_nat((n / 10) as nat).push(digit_char((n % 10) as int)));
        head
    }
}

fn int_text(n: i64) -> (r: String)
    ensures
        r@ == dec(n as int),
{
    if n >= 0 {
        nat_text(n as u128)
    } else {
        let magnitude: i128 = -(n as i128);
        String::from_str("-").concat(nat_text(magnitude as u128).as_str())
    }
}

fn byte_text(b: u8) -> (r: String)
    ensures
        r@ == hex_byte(b),
{
    let high = String::from_str(digit_text((b / 16) as u128));
    let both = high.concat(digit_text((b % 16) as u128));
    assert(both@ =~= hex_byte(b));
    both
}

/// Bytes in hexadecimal.
pub fn hex_text(bytes: &[u8]) -> (r: String)
    ensures
        r@ == hex(bytes@),
{
    let mut out = String::new();
    let mut i: usize = 0;
    while i < bytes.len()
        invariant
            i <= bytes@.len(),
            out@ == hex(bytes@.take(i as int)),
        decreases bytes@.len() - i,
    {
        out.append(byte_text(bytes[i]).as_str());
        proof {
            assert(bytes@.take(i + 1).drop_last() =~= bytes@.take(i as int));
        }
        i = i + 1;
    }
    assert(bytes@.take(i as int) =~= bytes@);
    out
}

/// Joins strings with `sep` between each two.
pub fn join(parts: &Vec<String>, sep: &str) -> (r: String)
    ensures
        r@ == joined(views(parts@), sep@),
{
    let mut out = String::new();
    let mut i: usize = 0;
    while i < parts.len()
        invariant
            i <= parts@.len(),
            out@ == joined(views(parts@.take(i as int)), sep@),
        decreases parts@.len() - i,
    {
        let ghost before = views(parts@.take(i as int));
        let ghost after = views(parts@.take(i + 1));
        assert(after.drop_last() =~= before);
        if i > 0 {
            out.append(sep);
        }
        out.append(parts[i].as_str());
        assert(out@ =~= joined(after, sep@));
        i = i + 1;
    }
    assert(parts@.take(i as int) =~= parts@);
    out
}

/// Splits a text at its commas.
pub fn split_commas(s: &str) -> (r: Vec<String>)
    ensures
        views(r@) == comma_parts(s@),
        r@.len() >= 1,
{
    let n: usize = s.unicode_len();
    let mut parts: Vec<String> = Vec::new();
    let mut from: usize = 0;
    let mut i: usize = 0;
    assert(s@.take(0) =~= Seq::empty());
    assert(views(parts@).push(s@.subrange(0, 0)) =~= seq![Seq::<char>::empty()]);
    while i < n
        invariant
            n == s@.len(),
            from <= i <= n,
            comma_parts(s@.take(i as int)) == views(parts@).push(s@.subrange(from as int, i as int)),
        decreases n - i,
    {
        let ghost front = s@.take(i + 1);
        assert(front.drop_last() =~= s@.take(i as int));
        let ghost before = views(parts@).push(s@.subrange(from as int, i as int));
        if s.get_char(i) == ',' {
            let part = String::from_str(s.substring_char(from, i));
            let ghost kept = parts@;
            parts.push(part);
            from = i + 1;
            assert(views(parts@) =~= views(kept).push(part@));
            assert(s@.subrange(from as int, i + 1) =~= Seq::empty());
        } else {
            assert(s@.subrange(from as int, i + 1) =~= before.last().push(s@[i as int]));
            assert(before.update(before.len() - 1, before.last().push(s@[i as int]))
                =~= views(parts@).push(s@.subrange(from as int, i + 1)));
        }
        i = i + 1;
    }
    assert(s@.take(i as int) =~= s@);
    let ghost kept = parts@;
    let last = String::from_str(s.substring_char(from, n));
    parts.push(last);
    assert(views(parts@) =~= views(kept).push(last@));
    parts
}

/// Whether `needle` stands at position `at` of `hay`.
fn text_at(hay: &str, needle: &str, at: usize) -> (r: bool)
    requires
        at + needle@.len() <= hay@.len(),
    ensures
        r == stands_at(hay@, needle@, at as int),
{
    let h: usize = hay.unicode_len();
    let n: usize = needle.unicode_len();
    let mut j: usize = 0;
    while j < n
        invariant
            h == hay@.len(),
            n == needle@.len(),
            at + n <= h,
            j <= n,
            forall|k: int| 0 <= k < j ==> hay@[at + k] == needle@[k],
        decreases n - j,
    {
        if hay.get_char(at + j) != needle.get_char(j) {
            proof {
                assert(hay@.subrange(at as int, at + n)[j as int] != needle@[j as int]);
            }
            return false;
        }
        j = j + 1;
    }
    assert(hay@.subrange(at as int, at + n) =~= needle@);
    true
}

/// Whether `hay` begins with `needle`.
pub fn begins_with(hay: &str, needle: &str) -> (r: bool)
    ensures
        r == stands_at(hay@, needle@, 0),
{
    if needle.unicode_len() > hay.unicode_len() {
        return false;
    }
    text_at(hay, needle, 0)
}

/// Whether `needle` stands somewhere in `hay`.
pub fn contains_text(hay: &str, needle: &str) -> (r: bool)
    ensures
        r == has_text(hay@, needle@),
{
    let h: usize = hay.unicode_len();
    let n: usize = needle.unicode_len();
    if n > h {
        return false;
    }
    let mut i: usize = 0;
    while i <= h - n
        invariant
            h == hay@.len(),
            n == needle@.len(),
            n <= h,
            i <= h - n + 1,
            forall|k: int| 0 <= k < i ==> !stands_at(hay@, needle@, k),
        decreases h - n + 1 - i,
    {
        if text_at(hay, needle, i) {
            return true;
        }
        if i == h - n {
            return false;
        }
        i = i + 1;
    }
    false
}

/// Whether two texts are the same.
pub fn same_text(a: &str, b: &str) -> (r: bool)
    ensures
        r == (a@ == b@),
{
    let n: usize = a.unicode_len();
    if n != b.unicode_len() {
        return false;
    }
    let r = text_at(a, b, 0);
    assert(a@.subrange(0, n as int) =~= a@);
    r
}

/// Whether two runs of bytes are the same.
pub fn same_bytes(a: &[u8], b: &[u8]) -> (r: bool)
    ensures
        r == (a@ == b@),
{
    if a.len() != b.len() {
        return false;
    }
    let mut i: usize = 0;
    while i < a.len()
        invariant
            i <= a@.len(),
            a@.len() == b@.len(),
            forall|j: int| 0 <= j < i ==> a@[j] == b@[j],
        decreases a@.len() - i,
    {
        if a[i] != b[i] {
            return false;
        }
        i = i + 1;
    }
    assert(a@ =~= b@);
    true
}

/// Text under construction, one piece at a time.
pub struct Line {
    text: String,
}

impl View for Line {
    type V = Seq<char>;

    closed spec fn view(&self) -> Seq<char> {
        self.text@
    }
}

/// Begins a line with a piece of text.
pub fn line(first: &str) -> (r: Line)
    ensures
        r@ == first@,
{
    Line { text: String::from_str(first) }
}

impl Line {
    /// Adds text as it is.
    pub fn lit(self, piece: &str) -> (r: Line)
        ensures
            r@ == self@ + piece@,
    {
        Line { text: self.text.concat(piece) }
    }

    /// Adds a number in decimal.
    pub fn num(self, n: i64) -> (r: Line)
        ensures
            r@ == self@ + dec(n as int),
    {
        Line { text: self.text.concat(int_text(n).as_str()) }
    }

    /// Adds an unsigned number in decimal.
    pub fn count(self, n: u128) -> (r: Line)
        ensures
            r@ == self@ + dec(n as int),
    {
        Line { text: self.text.concat(nat_text(n).as_str()) }
    }

    /// Adds text in quotes, escaped.
    pub fn quote(self, piece: &str) -> (r: Line)
        ensures
            r@ == self@ + quoted(piece@),
    {
        Line { text: self.text.concat(debug_str(piece).as_str()) }
    }

    /// Adds a span of time.
    pub fn wait(self, nanos: u64) -> (r: Line)
        ensures
            r@ == self@ + duration_text(nanos),
    {
        Line { text: self.text.concat(debug_duration(nanos).as_str()) }
    }

    /// Adds a list of numbers in brackets.
    pub fn nums(self, values: &Vec<i32>) -> (r: Line)
        ensures
            r@ == self@ + int_list(ints_of_i32(values@)),
    {
        let mut parts: Vec<String> = Vec::new();
        let mut i: usize = 0;
        while i < values.len()
            invariant
                i <= values@.len(),
                views(parts@) == ints_of_i32(values@).take(i as int).map_values(|v: int| dec(v)),
            decreases values@.len() - i,
        {
            let ghost kept = parts@;
            let part = int_text(values[i] as i64);
            parts.push(part);
            proof {
                assert(views(parts@) =~= views(kept).push(part@));
                assert(ints_of_i32(values@).take(i + 1)
                    =~= ints_of_i32(values@).take(i as int).push(values@[i as int] as int));
                assert(ints_of_i32(values@).take(i + 1).map_values(|v: int| dec(v))
                    =~= views(kept).push(part@));
            }
            i = i + 1;
        }
        assert(ints_of_i32(values@).take(i as int) =~= ints_of_i32(values@));
        let inner = join(&parts, ", ");
        let whole = String::from_str("[").concat(inner.as_str()).concat("]");
        Line { text: self.text.concat(whole.as_str()) }
    }

    /// Adds bytes as a list of decimal numbers in brackets.
    pub fn bytes(self, values: &[u8]) -> (r: Line)
        ensures
            r@ == self@ + int_list(ints_of_u8(values@)),
    {
        let mut parts: Vec<String> = Vec::new();
        let mut i: usize = 0;
        while i < values.len()
            invariant
                i <= values@.len(),
                views(parts@) == ints_of_u8(values@).take(i as int).map_values(|v: int| dec(v)),
            decreases values@.len() - i,
        {
            let ghost kept = parts@;
            let part = nat_text(values[i] as u128);
            parts.push(part);
            proof {
                assert(views(parts@) =~= views(kept).push(part@));
                assert(ints_of_u8(values@).take(i + 1)
                    =~= ints_of_u8(values@).take(i as int).push(values@[i as int] as int));
                assert(ints_of_u8(values@).take(i + 1).map_values(|v: int| dec(v))
                    =~= views(kept).push(part@));
            }
            i = i + 1;
        }
        assert(ints_of_u8(values@).take(i as int) =~= ints_of_u8(values@));
        let inner = join(&parts, ", ");
        let whole = String::from_str("[").concat(inner.as_str()).concat("]");
        Line { text: self.text.concat(whole.as_str()) }
    }

    /// Adds bytes as a list of two-digit hexadecimal numbers in brackets.
    pub fn hexes(self, values: &[u8]) -> (r: Line)
        ensures
            r@ == self@ + hex_list(values@),
    {
        let mut parts: Vec<String> = Vec::new();
        let mut i: usize = 0;
        while i < values.len()
            invariant
                i <= values@.len(),
                views(parts@) == values@.take(i as int).map_values(|b: u8| hex_byte(b)),
            decreases values@.len() - i,
        {
            let ghost kept = parts@;
            let part = byte_text(values[i]);
            parts.push(part);
            proof {
                assert(views(parts@) =~= views(kept).push(part@));
                assert(values@.take(i + 1) =~= values@.take(i as int).push(values@[i as int]));
                assert(values@.take(i + 1).map_values(|b: u8| hex_byte(b))
                    =~= views(kept).push(part@));
            }
            i = i + 1;
        }
        assert(values@.take(i as int) =~= values@);
        let inner = join(&parts, ", ");
        let whole = String::from_str("[").concat(inner.as_str()).concat("]");
        Line { text: self.text.concat(whole.as_str()) }
    }

    /// The finished text.
    pub fn done(self) -> (r: String)
        ensures
            r@ == self@,
    {
        self.text
    }
}

/// The value of a run of decimal digits, `None` where a character is not
/// one or there are none.
pub open spec fn digits_value(s: Seq<char>) -> Option<nat>
    decreases s.len(),
{
    if s.len() == 0 {
        None
    } else if !('0' <= s.last() && s.last() <= '9') {
        None
    } else if s.len() == 1 {
        Some((s.last() as int - '0' as int) as nat)
    } else {
        match digits_value(s.drop_last()) {
            Some(front) => Some(front * 10 + (s.last() as int - '0' as int) as nat),
            None => None,
        }
    }
}

/// A text read as an unsigned 32-bit number: an optional plus sign, then
/// digits only, with a value that fits.
pub open spec fn u32_value(s: Seq<char>) -> Option<u32> {
    let digits = if s.len() > 0 && s[0] == '+' { s.skip(1) } else { s };
    match digits_value(digits) {
        Some(n) => if n <= u32::MAX { Some(n as u32) } else { None },
        None => None,
    }
}

proof fn lemma_digits_grow(s: Seq<char>, k: int)
    requires
        1 <= k <= s.len(),
        digits_value(s) is Some,
    ensures
        digits_value(s.take(k)) is Some,
        digits_value(s.take(k))->0 <= digits_value(s)->0,
    decreases s.len(),
{
    if k == s.len() {
        assert(s.take(k) =~= s);
    } else {
        lemma_digits_grow(s.drop_last(), k);
        assert(s.drop_last().take(k) =~= s.take(k));
    }
}

proof fn lemma_digits_all(s: Seq<char>, k: int)
    requires
        1 <= k <= s.len(),
        digits_value(s.take(k)) is None,
    ensures
        digits_value(s) is None,
    decreases s.len(),
{
    if k == s.len() {
        assert(s.take(k) =~= s);
    } else {
        assert(s.drop_last().take(k) =~= s.take(k));
        lemma_digits_all(s.drop_last(), k);
    }
}

/// Reads a text as an unsigned 32-bit number.
pub fn read_u32(s: &str) -> (r: Option<u32>)
    ensures
        r == u32_value(s@),
{
    let n: usize = s.unicode_len();
    let start: usize = if n > 0 && s.get_char(0) == '+' { 1 } else { 0 };
    let ghost digits = if s@.len() > 0 && s@[0] == '+' { s@.skip(1) } else { s@ };
    assert(digits =~= s@.skip(start as int));
    if start == n {
        return None;
    }
    let mut value: u64 = 0;
    let mut i: usize = start;
    while i < n
        invariant
            n == s@.len(),
            start <= i <= n,
            start < n,
            start <= 1,
            digits == s@.skip(start as int),
            value <= u32::MAX,
            i == start ==> value == 0,
            i > start ==> digits_value(digits.take(i - start)) == Some(value as nat),
            u32_value(s@) == (match digits_value(digits) {
                Some(v) => if v <= u32::MAX { Some(v as u32) } else { None },
                None => None,
            }),
        decreases n - i,
    {
        let c = s.get_char(i);
        let ghost upto = digits.take(i - start + 1);
        assert(upto.drop_last() =~= digits.take(i - start));
        assert(upto.last() == c);
        if !('0' <= c && c <= '9') {
            proof {
                lemma_digits_all(digits, i - start + 1);
            }
            return None;
        }
        let d: u64 = (c as u32 - '0' as u32) as u64;
        value = value * 10 + d;
        assert(digits_value(upto) == Some(value as nat));
        if value > 4_294_967_295 {
            proof {
                if digits_value(digits) is Some {
                    lemma_digits_grow(digits, i - start + 1);
                }
            }
            return None;
        }
        i = i + 1;
    }
    assert(digits.take(n - start) =~= digits);
    Some(value as u32)
}

/// Things noted down, in order.
#[derive(Debug)]
pub struct Notes(pub Vec<String>);

impl View for Notes {
    type V = Seq<Seq<char>>;

    open spec fn view(&self) -> Seq<Seq<char>> {
        views(self.0@)
    }
}

impl Notes {
    pub fn none() -> (r: Notes)
        ensures
            r@ == Seq::<Seq<char>>::empty(),
    {
        let notes = Notes(Vec::new());
        assert(notes@ =~= Seq::empty());
        notes
    }

    pub fn push(&mut self, note: String)
        ensures
            final(self)@ == old(self)@.push(note@),
    {
        self.0.push(note);
        assert(self@ =~= old(self)@.push(note@));
    }

    /// Both sets of notes, one after the other.
    pub fn followed_by(self, other: Notes) -> (r: Notes)
        ensures
            r@ == self@ + other@,
    {
        let mut all = self;
        let mut i: usize = 0;
        assert(other@.take(0) =~= Seq::empty());
        assert(self@ + Seq::empty() =~= self@);
        while i < other.0.len()
            invariant
                i <= other@.len(),
                all@ == self@ + other@.take(i as int),
            decreases other@.len() - i,
        {
            all.push(other.0[i].clone());
            assert(other@.take(i + 1) =~= other@.take(i as int).push(other@[i as int]));
            assert(all@ =~= self@ + other@.take(i + 1));
            i = i + 1;
        }
        assert(other@.take(i as int) =~= other@);
        all
    }
}

/// A number written in decimal reads as that number, and has no other signs in
/// it than digits.
pub proof fn law_numbers_read_back(n: nat)
    ensures
        dec_nat(n).len() > 0,
        digits_value(dec_nat(n)) == Some(n),
        forall|i: int| 0 <= i < dec_nat(n).len() ==> '0' <= (#[trigger] dec_nat(n)[i]) <= '9',
    decreases n,
{
    let said = dec_nat(n);
    if n >= 10 {
        let front = dec_nat(n / 10);
        law_numbers_read_back(n / 10);
        assert(said.drop_last() =~= front);
        assert(said.last() == digit_char((n % 10) as int));
        assert forall|i: int| 0 <= i < said.len() implies '0' <= (#[trigger] said[i]) <= '9' by {
            if i < front.len() {
                assert(said[i] == front[i]);
            }
        }
    }
}

/// A number that a `u32` can hold reads back as itself, and a larger one does
/// not read.
pub proof fn law_written_counts_read_back(n: nat)
    ensures
        u32_value(dec_nat(n)) == (if n <= u32::MAX {
            Some(n as u32)
        } else {
            None
        }),
{
    law_numbers_read_back(n);
    assert('0' <= dec_nat(n)[0] <= '9');
}

/// Bytes in hexadecimal: two signs for each, the high half first, 0 to 9 and
/// then a to f.
pub proof fn law_hex_is_two_signs_a_byte(bytes: Seq<u8>, i: int)
    requires
        0 <= i < bytes.len(),
    ensures
        hex(bytes).len() == 2 * bytes.len(),
        ({
            let high = hex(bytes)[2 * i] as int;
            let low = hex(bytes)[2 * i + 1] as int;
            let value = |c: int| if c <= '9' as int {
                c - '0' as int
            } else {
                c - 'a' as int + 10
            };
            &&& '0' as int <= high <= '9' as int || 'a' as int <= high <= 'f' as int
            &&& '0' as int <= low <= '9' as int || 'a' as int <= low <= 'f' as int
            &&& bytes[i] == 16 * value(high) + value(low)
        }),
    decreases bytes.len(),
{
    let rest = bytes.drop_last();
    if rest.len() > 0 {
        law_hex_is_two_signs_a_byte(rest, if i < rest.len() { i } else { 0 });
    } else {
        assert(hex(rest) =~= Seq::empty());
    }
    if i < rest.len() {
        assert(hex(bytes)[2 * i] == hex(rest)[2 * i]);
        assert(hex(bytes)[2 * i + 1] == hex(rest)[2 * i + 1]);
    } else {
        assert(hex(bytes)[2 * i] == hex_byte(bytes.last())[0]);
        assert(hex(bytes)[2 * i + 1] == hex_byte(bytes.last())[1]);
    }
}

/// The parts between commas: put together again they are the text, and none of
/// them holds a comma.
pub proof fn law_parts_make_the_whole(s: Seq<char>)
    ensures
        comma_parts(s).len() > 0,
        joined(comma_parts(s), ","@) == s,
        forall|i: int| 0 <= i < comma_parts(s).len() ==> !(#[trigger] comma_parts(s)[i]).contains(
            ',',
        ),
    decreases s.len(),
{
    reveal_strlit(",");
    if s.len() > 0 {
        let front = comma_parts(s.drop_last());
        law_parts_make_the_whole(s.drop_last());
        let all = comma_parts(s);
        if s.last() == ',' {
            assert(all.drop_last() =~= front);
            assert(joined(all, ","@) =~= s);
        } else {
            let longer = front.last().push(s.last());
            assert(all.drop_last() =~= front.drop_last());
            assert(all.last() == longer);
            assert(!longer.contains(',')) by {
                if longer.contains(',') {
                    let k = choose|k: int| 0 <= k < longer.len() && longer[k] == ',';
                    assert(front[front.len() - 1][k] == ',');
                    assert(front[front.len() - 1].contains(','));
                }
            }
            assert(joined(all, ","@) =~= joined(front, ","@).push(s.last()));
            assert(s.drop_last().push(s.last()) =~= s);
            assert forall|i: int| 0 <= i < all.len() implies !(#[trigger] all[i]).contains(',') by {
                if i < front.len() - 1 {
                    assert(all[i] == front[i]);
                }
            }
        }
    } else {
        assert(joined(comma_parts(s), ","@) =~= s);
    }
}

/// A text is found in every text that was built around it, and nowhere where
/// none of its places holds it.
pub proof fn law_texts_are_found(before: Seq<char>, needle: Seq<char>, after: Seq<char>)
    ensures
        has_text(before + needle + after, needle),
        has_text(before, needle) <==> exists|i: int|
            0 <= i <= before.len() - needle.len() && #[trigger] before.subrange(
                i,
                i + needle.len(),
            ) == needle,
{
    let whole = before + needle + after;
    assert(whole.subrange(before.len() as int, (before.len() + needle.len()) as int) =~= needle);
    assert(stands_at(whole, needle, before.len() as int));
    if has_text(before, needle) {
        let i = choose|i: int| stands_at(before, needle, i);
        assert(before.subrange(i, i + needle.len()) == needle);
    }
    if exists|i: int|
        0 <= i <= before.len() - needle.len() && #[trigger] before.subrange(i, i + needle.len())
            == needle {
        let i = choose|i: int|
            0 <= i <= before.len() - needle.len() && #[trigger] before.subrange(
                i,
                i + needle.len(),
            ) == needle;
        assert(stands_at(before, needle, i));
    }
}

} // verus!
