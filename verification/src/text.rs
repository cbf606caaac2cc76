//! Building text for messages and record heads.
use vstd::prelude::*;
use vstd::string::*;

verus! {

/// The decimal digit of a value below 10.
pub open spec fn digit(v: int) -> char {
    (v + 0x30) as char
}

/// The decimal digits of a number, without leading zeros.
pub open spec fn decimal(v: nat) -> Seq<char>
    decreases v,
{
    if v < 10 {
        seq![digit(v as int)]
    } else {
        decimal(v / 10).push(digit((v % 10) as int))
    }
}

/// The text of a decimal digit.
fn digit_str(d: u64) -> (s: &'static str)
    requires
        d < 10,
    ensures
        s@ == seq![digit(d as int)],
{
    proof {
        reveal_strlit("0");
        reveal_strlit("1");
        reveal_strlit("2");
        reveal_strlit("3");
        reveal_strlit("4");
        reveal_strlit("5");
        reveal_strlit("6");
        reveal_strlit("7");
        reveal_strlit("8");
        reveal_strlit("9");
    }
    match d {
        0 => "0",
        1 => "1",
        2 => "2",
        3 => "3",
        4 => "4",
        5 => "5",
        6 => "6",
        7 => "7",
        8 => "8",
        _ => "9",
    }
}

/// Append the decimal digits of a number.
pub fn append_decimal(s: &mut String, v: u64)
    ensures
        final(s)@ == old(s)@ + decimal(v as nat),
    decreases v,
{
    if v >= 10 {
        append_decimal(s, v / 10);
    }
    s.append(digit_str(v % 10));
}

/// A text between two others, with a number in it.
pub fn with_decimal(before: &str, v: u64, after: &str) -> (s: String)
    ensures
        s@ == before@ + decimal(v as nat) + after@,
{
    let mut s: String = before.to_owned();
    append_decimal(&mut s, v);
    s.append(after);
    s
}

/// The hexadecimal digit, in lower case, of a value below 16.
pub open spec fn hex_char(v: int) -> char {
    if v < 10 {
        (0x30 + v) as char
    } else {
        (0x61 + v - 10) as char
    }
}

/// The hexadecimal digits of a byte, without a leading zero.
pub open spec fn hex_byte(b: u8) -> Seq<char> {
    if b < 16 {
        seq![hex_char(b as int)]
    } else {
        seq![hex_char((b / 16) as int), hex_char((b % 16) as int)]
    }
}

/// Bytes in hexadecimal, separated by commas.
pub open spec fn hex_items(bytes: Seq<u8>) -> Seq<char>
    decreases bytes.len(),
{
    if bytes.len() == 0 {
        Seq::empty()
    } else if bytes.len() == 1 {
        hex_byte(bytes[0])
    } else {
        hex_items(bytes.drop_last()) + ", "@ + hex_byte(bytes.last())
    }
}

/// Bytes in hexadecimal, as a list in brackets.
pub open spec fn hex_list(bytes: Seq<u8>) -> Seq<char> {
    "["@ + hex_items(bytes) + "]"@
}

/// Append the hexadecimal digit of a value below 16.
fn push_hex_char(s: &mut String, v: u8)
    requires
        v < 16,
    ensures
        final(s)@ == old(s)@.push(hex_char(v as int)),
{
    let c: u8 = if v < 10 { 0x30 + v } else { 0x61 + (v - 10) };
    s.push(c as char);
}

/// Append bytes in hexadecimal, as a list in brackets.
pub fn append_hex_list(s: &mut String, bytes: &[u8])
    ensures
        final(s)@ == old(s)@ + hex_list(bytes@),
{
    s.append("[");
    let mut i: usize = 0;
    while i < bytes.len()
        invariant
            i <= bytes@.len(),
            s@ == old(s)@ + "["@ + hex_items(bytes@.take(i as int)),
        decreases bytes@.len() - i,
    {
        proof {
            assert(bytes@.take(i + 1).drop_last() =~= bytes@.take(i as int));
        }
        if i > 0 {
            s.append(", ");
        }
        let b: u8 = bytes[i];
        if b >= 16 {
            push_hex_char(s, b / 16);
        }
        push_hex_char(s, b % 16);
        i += 1;
        assert(s@ =~= old(s)@ + "["@ + hex_items(bytes@.take(i as int)));
    }
    s.append("]");
    assert(bytes@.take(i as int) =~= bytes@);
    assert(s@ =~= old(s)@ + hex_list(bytes@));
}

/// `String::push` appends a character.
pub assume_specification[ String::push ](s: &mut String, ch: char)
    ensures
        final(s)@ == old(s)@.push(ch),
;

/// The characters of some ASCII bytes.
pub open spec fn ascii_chars(bytes: Seq<u8>) -> Seq<char> {
    bytes.map_values(|b: u8| b as char)
}

/// The text of some bytes, all of which are ASCII.
pub fn ascii_string(bytes: &[u8]) -> (s: String)
    requires
        forall|i: int| 0 <= i < bytes@.len() ==> #[trigger] bytes@[i] < 0x80,
    ensures
        s@ == ascii_chars(bytes@),
{
    let mut s = String::new();
    let mut i: usize = 0;
    while i < bytes.len()
        invariant
            i <= bytes@.len(),
            s@ == ascii_chars(bytes@.take(i as int)),
            forall|k: int| 0 <= k < bytes@.len() ==> #[trigger] bytes@[k] < 0x80,
        decreases bytes@.len() - i,
    {
        s.push(bytes[i] as char);
        i += 1;
        assert(s@ =~= ascii_chars(bytes@.take(i as int)));
    }
    assert(bytes@.take(i as int) =~= bytes@);
    s
}

/// Whether two texts are equal.
pub fn str_eq(a: &str, b: &str) -> (r: bool)
    ensures
        r == (a@ == b@),
{
    let r = bytes_eq(a.as_bytes(), b.as_bytes());
    proof {
        if r {
            vstd::utf8::encode_utf8_decode_utf8(a@);
            vstd::utf8::encode_utf8_decode_utf8(b@);
        }
    }
    r
}

/// Whether two byte strings are equal.
pub fn bytes_eq(a: &[u8], b: &[u8]) -> (r: bool)
    ensures
        r == (a@ == b@),
{
    if a.len() != b.len() {
        return false;
    }
    let mut i: usize = 0;
    while i < a.len()
        invariant
            i <= a@.len(),
            a@.len() == b@.len(),
            forall|k: int| 0 <= k < i ==> a@[k] == b@[k],
        decreases a@.len() - i,
    {
        if a[i] != b[i] {
            return false;
        }
        i += 1;
    }
    assert(a@ =~= b@);
    true
}

/// Whether a character is white space, by the property of that name in Unicode.
pub open spec fn is_white(c: char) -> bool {
    let v = c as int;
    ||| 0x9 <= v <= 0xd
    ||| v == 0x20 || v == 0x85 || v == 0xa0 || v == 0x1680
    ||| 0x2000 <= v <= 0x200a
    ||| v == 0x2028 || v == 0x2029 || v == 0x202f || v == 0x205f || v == 0x3000
}

/// A text without the white space at its end.
pub open spec fn trimmed_end(s: Seq<char>) -> Seq<char>
    decreases s.len(),
{
    if s.len() > 0 && is_white(s.last()) {
        trimmed_end(s.drop_last())
    } else {
        s
    }
}

/// A text without the white space at its start.
pub open spec fn trimmed_start(s: Seq<char>) -> Seq<char>
    decreases s.len(),
{
    if s.len() > 0 && is_white(s[0]) {
        trimmed_start(s.skip(1))
    } else {
        s
    }
}

/// A text without the white space at its start and end.
pub open spec fn trimmed(s: Seq<char>) -> Seq<char> {
    trimmed_end(trimmed_start(s))
}

/// `str::trim` removes white space, as Unicode defines it, at the start and the
/// end.
#[verifier::external_body]
pub(crate) fn trim(s: &str) -> (r: &str)
    ensures
        r@ == trimmed(s@),
{
    s.trim()
}

/// Whether a text starts with another.
pub fn starts_with(s: &str, prefix: &str) -> (b: bool)
    ensures
        b == prefix@.is_prefix_of(s@),
{
    let n: usize = prefix.unicode_len();
    if n > s.unicode_len() {
        return false;
    }
    let mut i: usize = 0;
    while i < n
        invariant
            i <= n,
            n == prefix@.len(),
            n <= s@.len(),
            forall|k: int| 0 <= k < i ==> prefix@[k] == s@[k],
        decreases n - i,
    {
        if s.get_char(i) != prefix.get_char(i) {
            assert(s@.subrange(0, n as int)[i as int] != prefix@[i as int]);
            return false;
        }
        i += 1;
    }
    assert(s@.subrange(0, n as int) =~= prefix@);
    true
}

/// The hexadecimal digits of a number, in lower case, without leading zeros.
pub open spec fn hex_digits(v: nat) -> Seq<char>
    decreases v,
{
    if v < 16 {
        seq![hex_char(v as int)]
    } else {
        hex_digits(v / 16).push(hex_char((v % 16) as int))
    }
}

/// Some characters of one kind.
pub open spec fn repeated(c: char, n: int) -> Seq<char> {
    Seq::new(
        if n > 0 {
            n as nat
        } else {
            0
        },
        |i: int| c,
    )
}

/// A text that is filled with a character, at its start, up to a width.
pub open spec fn padded_start(s: Seq<char>, c: char, width: int) -> Seq<char> {
    repeated(c, width - s.len()) + s
}

/// A text that is filled with a character, at its end, up to a width.
pub open spec fn padded_end(s: Seq<char>, c: char, width: int) -> Seq<char> {
    s + repeated(c, width - s.len())
}

/// Append some characters of one kind.
fn append_repeated(s: &mut String, c: char, n: usize)
    ensures
        final(s)@ == old(s)@ + repeated(c, n as int),
{
    let mut i: usize = 0;
    assert(s@ =~= old(s)@ + repeated(c, 0));
    while i < n
        invariant
            i <= n,
            s@ == old(s)@ + repeated(c, i as int),
        decreases n - i,
    {
        s.push(c);
        i += 1;
        assert(s@ =~= old(s)@ + repeated(c, i as int));
    }
}

/// Append the hexadecimal digits of a number.
fn append_hex_digits(s: &mut String, v: u64)
    ensures
        final(s)@ == old(s)@ + hex_digits(v as nat),
    decreases v,
{
    if v >= 16 {
        append_hex_digits(s, v / 16);
    }
    push_hex_char(s, (v % 16) as u8);
    assert(s@ =~= old(s)@ + hex_digits(v as nat));
}

/// Append the hexadecimal digits of a number, filled with zeros at the start up
/// to a width.
pub fn append_hex(s: &mut String, v: u64, width: usize)
    ensures
        final(s)@ == old(s)@ + padded_start(hex_digits(v as nat), '0', width as int),
{
    let mut digits = String::new();
    append_hex_digits(&mut digits, v);
    assert(digits@ =~= hex_digits(v as nat));
    let n: usize = digits.as_str().unicode_len();
    if n < width {
        append_repeated(s, '0', width - n);
    }
    s.append(digits.as_str());
    assert(s@ =~= old(s)@ + padded_start(hex_digits(v as nat), '0', width as int));
}

/// Append a text, filled with a character at the end up to a width.
pub fn append_padded(s: &mut String, text: &str, c: char, width: usize)
    ensures
        final(s)@ == old(s)@ + padded_end(text@, c, width as int),
{
    s.append(text);
    let n: usize = text.unicode_len();
    if n < width {
        append_repeated(s, c, width - n);
    }
    assert(s@ =~= old(s)@ + padded_end(text@, c, width as int));
}

/// What a text starts with stays where another text is put before both.
pub proof fn lemma_prefix_of_sum(a: Seq<char>, b: Seq<char>, s: Seq<char>)
    ensures
        b.is_prefix_of(s) ==> (a + b).is_prefix_of(a + s),
{
    if b.is_prefix_of(s) {
        assert((a + s).subrange(0, (a + b).len() as int) =~= a + b);
    }
}

/// Two texts, one after the other.
pub fn concat(a: &str, b: &str) -> (s: String)
    ensures
        s@ == a@ + b@,
{
    let mut s: String = a.to_owned();
    s.append(b);
    s
}

/// The digits of a number are one more for each factor of ten, the last one that
/// of the remainder, and they are decimal digits.
pub proof fn law_decimal_digits(v: nat)
    ensures
        decimal(v).len() > 0,
        decimal(v).last() as int == '0' as int + v % 10,
        v >= 10 ==> decimal(v).drop_last() == decimal(v / 10),
        v < 10 ==> decimal(v).len() == 1,
        forall|i: int| #![trigger decimal(v)[i]] 0 <= i < decimal(v).len() ==> '0' <= decimal(v)[i] <= '9',
    decreases v,
{
    if v >= 10 {
        law_decimal_digits(v / 10);
        assert(decimal(v).drop_last() =~= decimal(v / 10));
        assert forall|i: int| #![trigger decimal(v)[i]] 0 <= i < decimal(v).len() implies '0' <= decimal(v)[i]
            <= '9' by {
            if i < decimal(v).len() - 1 {
                assert(decimal(v)[i] == decimal(v / 10)[i]);
            }
        }
    }
}

/// The hexadecimal digits of a number are one more for each factor of sixteen, the
/// last one that of the remainder, in lower case.
pub proof fn law_hex_digits(v: nat)
    ensures
        hex_digits(v).len() > 0,
        v % 16 < 10 ==> hex_digits(v).last() as int == '0' as int + v % 16,
        v % 16 >= 10 ==> hex_digits(v).last() as int == 'a' as int + v % 16 - 10,
        v >= 16 ==> hex_digits(v).drop_last() == hex_digits(v / 16),
        v < 16 ==> hex_digits(v).len() == 1,
{
    if v >= 16 {
        assert(hex_digits(v).drop_last() =~= hex_digits(v / 16));
    }
}

/// A text with a number is the text before, the number, and the text after.
pub proof fn law_text_with_number(before: &str, v: u64, after: &str, s: String)
    requires
        call_ensures(with_decimal, (before, v, after), s),
    ensures
        s@.len() == before@.len() + decimal(v as nat).len() + after@.len(),
        s@.take(before@.len() as int) == before@,
        s@.subrange(before@.len() as int, (before@.len() + decimal(v as nat).len()) as int) == decimal(v as nat),
        s@.skip((before@.len() + decimal(v as nat).len()) as int) == after@,
{
    let d = decimal(v as nat);
    assert(s@.take(before@.len() as int) =~= before@);
    assert(s@.subrange(before@.len() as int, (before@.len() + d.len()) as int) =~= d);
    assert(s@.skip((before@.len() + d.len()) as int) =~= after@);
}

/// White space is removed from both ends of a text, all of it and nothing else.
pub proof fn law_trimmed(s: Seq<char>)
    ensures
        trimmed(s).len() > 0 ==> !is_white(trimmed(s)[0]) && !is_white(trimmed(s).last()),
        exists|a: Seq<char>, b: Seq<char>|
            {
                &&& s == #[trigger] (a + trimmed(s) + b)
                &&& forall|i: int| 0 <= i < a.len() ==> is_white(#[trigger] a[i])
                &&& forall|i: int| 0 <= i < b.len() ==> is_white(#[trigger] b[i])
            },
{
    lemma_trimmed_start(s);
    let t = trimmed_start(s);
    lemma_trimmed_end(t);
    let u = trimmed_end(t);
    let a = s.take(s.len() - t.len());
    let b = t.skip(u.len() as int);
    assert(s =~= a + u + b);
    assert(s == a + trimmed(s) + b);
    assert forall|i: int| 0 <= i < a.len() implies is_white(#[trigger] a[i]) by {
        assert(a[i] == s[i]);
    }
    assert forall|i: int| 0 <= i < b.len() implies is_white(#[trigger] b[i]) by {
        assert(b[i] == t[u.len() + i]);
    }
    if u.len() > 0 {
        assert(u[0] == t[0]);
    }
}

/// What is removed from the start of a text is white space.
proof fn lemma_trimmed_start(s: Seq<char>)
    ensures
        trimmed_start(s).len() <= s.len(),
        trimmed_start(s) == s.skip(s.len() - trimmed_start(s).len()),
        trimmed_start(s).len() > 0 ==> !is_white(trimmed_start(s)[0]),
        forall|i: int| 0 <= i < s.len() - trimmed_start(s).len() ==> is_white(#[trigger] s[i]),
    decreases s.len(),
{
    if s.len() > 0 && is_white(s[0]) {
        let t = s.skip(1);
        lemma_trimmed_start(t);
        assert forall|i: int| 0 <= i < s.len() - trimmed_start(s).len() implies is_white(#[trigger] s[i]) by {
            if i > 0 {
                assert(s[i] == t[i - 1]);
            }
        }
        assert(s.skip(s.len() - trimmed_start(s).len()) =~= t.skip(t.len() - trimmed_start(t).len()));
    } else {
        assert(s.skip(0) =~= s);
    }
}

/// What is removed from the end of a text is white space.
proof fn lemma_trimmed_end(s: Seq<char>)
    ensures
        trimmed_end(s).len() <= s.len(),
        trimmed_end(s) == s.take(trimmed_end(s).len() as int),
        trimmed_end(s).len() > 0 ==> !is_white(trimmed_end(s).last()),
        forall|i: int| trimmed_end(s).len() <= i < s.len() ==> is_white(#[trigger] s[i]),
    decreases s.len(),
{
    if s.len() > 0 && is_white(s.last()) {
        let t = s.drop_last();
        lemma_trimmed_end(t);
        assert forall|i: int| trimmed_end(s).len() <= i < s.len() implies is_white(#[trigger] s[i]) by {
            if i < t.len() {
                assert(s[i] == t[i]);
            }
        }
        assert(s.take(trimmed_end(s).len() as int) =~= t.take(trimmed_end(t).len() as int));
    } else {
        assert(s.take(s.len() as int) =~= s);
    }
}

/// A text that is filled up keeps its characters, and is of the width, or as long
/// as it was if that is more. It is filled up at the one end, with the one
/// character.
pub proof fn law_padded(s: Seq<char>, c: char, width: int, i: int)
    requires
        0 <= width,
    ensures
        padded_end(s, c, width).len() == (if s.len() < width { width as nat } else { s.len() }),
        padded_end(s, c, width).take(s.len() as int) == s,
        s.len() <= i < width ==> padded_end(s, c, width)[i] == c,
        padded_start(s, c, width).len() == (if s.len() < width { width as nat } else { s.len() }),
        padded_start(s, c, width).skip(padded_start(s, c, width).len() - s.len()) == s,
        0 <= i < width - s.len() ==> padded_start(s, c, width)[i] == c,
{
    assert(padded_end(s, c, width).take(s.len() as int) =~= s);
    assert(padded_start(s, c, width).skip(padded_start(s, c, width).len() - s.len()) =~= s);
}

/// A list of bytes in hexadecimal has brackets around it, a comma and a space
/// between its items, and no leading zeros in them.
pub proof fn law_hex_list(bytes: Seq<u8>, b: u8)
    ensures
        hex_list(Seq::<u8>::empty()) == "["@ + "]"@,
        hex_list(seq![b]) == "["@ + hex_digits(b as nat) + "]"@,
        bytes.len() > 0 ==> hex_list(bytes.push(b)) == hex_list(bytes).drop_last() + ", "@ + hex_digits(b as nat)
            + "]"@,
{
    reveal_strlit("[");
    reveal_strlit("]");
    assert("["@ + Seq::<char>::empty() + "]"@ =~= "["@ + "]"@);
    reveal_with_fuel(hex_digits, 2);
    assert(hex_byte(b) =~= hex_digits(b as nat)) by {
        if b >= 16 {
            assert(hex_digits((b / 16) as nat) == seq![hex_char((b / 16) as int)]);
        }
    }
    assert(seq![b].len() == 1 && seq![b][0] == b);
    assert(bytes.push(b).drop_last() =~= bytes);
    if bytes.len() > 0 {
        let l = hex_list(bytes);
        assert(l.drop_last() =~= "["@ + hex_items(bytes));
        assert(hex_list(bytes.push(b)) =~= l.drop_last() + ", "@ + hex_digits(b as nat) + "]"@);
    }
}

/// Texts and byte strings are equal exactly if all of them is, and one starts with
/// another exactly if something can be added to that other to give it.
pub proof fn law_text_comparisons(a: &str, b: &str, x: &[u8], y: &[u8], eq: bool, same: bool, starts: bool)
    requires
        call_ensures(str_eq, (a, b), eq),
        call_ensures(bytes_eq, (x, y), same),
        call_ensures(starts_with, (a, b), starts),
    ensures
        eq <==> a@ == b@,
        same <==> x@ == y@,
        starts <==> exists|rest: Seq<char>| a@ == #[trigger] (b@ + rest),
{
    if starts {
        assert(a@ =~= b@ + a@.skip(b@.len() as int));
    }
    if exists|rest: Seq<char>| a@ == #[trigger] (b@ + rest) {
        let rest = choose|rest: Seq<char>| a@ == #[trigger] (b@ + rest);
        assert(a@.subrange(0, b@.len() as int) =~= b@);
    }
}

/// Text is appended to the text before: numbers in decimal and hexadecimal, lists of
/// bytes, and text that is filled up.
pub proof fn law_appended_text(
    a: &mut String,
    b: &mut String,
    c: &mut String,
    d: &mut String,
    v: u64,
    width: usize,
    bytes: &[u8],
    text: &str,
    fill: char,
)
    requires
        call_ensures(append_decimal, (a, v), ()),
        call_ensures(append_hex, (b, v, width), ()),
        call_ensures(append_hex_list, (c, bytes), ()),
        call_ensures(append_padded, (d, text, fill, width), ()),
    ensures
        final(a)@ == old(a)@ + decimal(v as nat),
        old(b)@.is_prefix_of(final(b)@),
        final(b)@.len() - old(b)@.len() >= width,
        final(b)@.len() - old(b)@.len() > width ==> final(b)@ == old(b)@ + hex_digits(v as nat),
        forall|i: int|
            old(b)@.len() <= i < final(b)@.len() - hex_digits(v as nat).len() ==> #[trigger] final(b)@[i] == '0',
        final(b)@.skip(final(b)@.len() - hex_digits(v as nat).len()) == hex_digits(v as nat),
        final(c)@ == old(c)@ + hex_list(bytes@),
        (old(d)@ + text@).is_prefix_of(final(d)@),
        final(d)@.len() == old(d)@.len() + text@.len() || final(d)@.len() == old(d)@.len() + width,
        final(d)@.len() - old(d)@.len() >= width,
        forall|i: int| old(d)@.len() + text@.len() <= i < final(d)@.len() ==> #[trigger] final(d)@[i] == fill,
{
    let h = hex_digits(v as nat);
    assert(final(b)@.skip(final(b)@.len() - h.len()) =~= h);
    if h.len() >= width {
        assert(final(b)@ =~= old(b)@ + h);
    }
}

/// Two texts together are one and then the other. The characters of ASCII bytes are
/// these bytes.
pub proof fn law_texts_together(a: &str, b: &str, s: String, bytes: &[u8], t: String)
    requires
        call_ensures(concat, (a, b), s),
        call_ensures(ascii_string, (bytes,), t),
    ensures
        s@ == a@ + b@,
        t@.len() == bytes@.len(),
        forall|i: int| 0 <= i < bytes@.len() ==> #[trigger] t@[i] == bytes@[i] as char,
{
}

} // verus!
