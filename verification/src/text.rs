//! Small verified helpers on text: comparison and unsigned decimal numbers.

use vstd::prelude::*;
use vstd::string::StringSliceAdditionalSpecFns;
use vstd::string::StrSliceExecFns;
use vstd::string::StringExecFns;

verus! {

/// Whether two string slices hold the same characters.
pub fn str_eq(a: &str, b: &str) -> (same: bool)
    ensures
        same == (a@ == b@),
{
    let x = a.as_bytes();
    let y = b.as_bytes();
    proof {
        // Equal encodings decode to equal characters.
        vstd::utf8::encode_utf8_decode_utf8(a@);
        vstd::utf8::encode_utf8_decode_utf8(b@);
    }
    if x.len() != y.len() {
        return false;
    }
    let mut i: usize = 0;
    while i < x.len()
        invariant
            i <= x.len(),
            x.len() == y.len(),
            forall|j: int| 0 <= j < i ==> x@[j] == y@[j],
            x@ == a.spec_bytes(),
            y@ == b.spec_bytes(),
            vstd::utf8::decode_utf8(a.spec_bytes()) == a@,
            vstd::utf8::decode_utf8(b.spec_bytes()) == b@,
        decreases x.len() - i,
    {
        if x[i] != y[i] {
            return false;
        }
        i += 1;
    }
    assert(x@ =~= y@);
    true
}

/// The views of a sequence of owned strings.
pub open spec fn texts(strings: Seq<String>) -> Seq<Seq<char>> {
    Seq::new(strings.len(), |i: int| strings[i]@)
}

/// Whether `c` is one of the ten ASCII digits.
pub open spec fn is_digit(c: char) -> bool {
    '0' <= c <= '9'
}

/// The number that a run of digits denotes, most significant digit first.
pub open spec fn digits_value(digits: Seq<char>) -> nat
    decreases digits.len(),
{
    if digits.len() == 0 {
        0
    } else {
        (digits_value(digits.drop_last()) * 10 + (digits.last() as u32 - 48)) as nat
    }
}

/// What a text denotes as an unsigned 8-bit decimal: one or more ASCII
/// digits, leading zeros allowed, whose value is at most 255.
pub open spec fn decimal_u8(text: Seq<char>) -> Option<u8> {
    if text.len() >= 1 && (forall|i: int| 0 <= i < text.len() ==> is_digit(#[trigger] text[i]))
        && digits_value(text) <= 255 {
        Some(digits_value(text) as u8)
    } else {
        None
    }
}

/// A run of digits is worth at least as much as any of its prefixes.
proof fn lemma_digits_value_grows(digits: Seq<char>, n: int)
    requires
        0 <= n <= digits.len(),
        forall|i: int| 0 <= i < digits.len() ==> is_digit(#[trigger] digits[i]),
    ensures
        digits_value(digits.take(n)) <= digits_value(digits),
    decreases digits.len() - n,
{
    if n == digits.len() {
        assert(digits.take(n) =~= digits);
    } else {
        lemma_digits_value_grows(digits, n + 1);
        let longer = digits.take(n + 1);
        assert(longer.drop_last() =~= digits.take(n));
        assert(is_digit(digits[n]));
        assert(longer.last() == digits[n]);
    }
}

/// Reads an unsigned 8-bit decimal number.
pub fn parse_decimal_u8(text: &str) -> (number: Option<u8>)
    ensures
        number == decimal_u8(text@),
{
    if !text.is_ascii() {
        proof {
            // Some character is not ASCII, hence not a digit.
            let i = choose|i: int| 0 <= i < text@.len() && !('\0' <= #[trigger] text@[i] <= '\u{7f}');
            assert(!is_digit(text@[i]));
        }
        return None;
    }
    let len = text.unicode_len();
    if len == 0 {
        return None;
    }
    let mut value: u16 = 0;
    let mut i: usize = 0;
    while i < len
        invariant
            i <= len,
            len == text@.len(),
            vstd::string::is_ascii(text),
            forall|j: int| 0 <= j < i ==> is_digit(#[trigger] text@[j]),
            value == digits_value(text@.take(i as int)),
            value <= 255,
        decreases len - i,
    {
        let byte = text.get_ascii(i);
        if byte < 48 || byte > 57 {
            assert(!is_digit(text@[i as int]));
            return None;
        }
        let ghost before = text@.take(i as int);
        let ghost after = text@.take(i as int + 1);
        proof {
            assert(after.drop_last() =~= before);
            assert(after.last() == text@[i as int]);
            assert(text@[i as int] as u32 == byte as u32);
        }
        let next: u16 = value * 10 + (byte - 48) as u16;
        assert(next == digits_value(after));
        if next > 255 {
            proof {
                if forall|j: int| 0 <= j < text@.len() ==> is_digit(#[trigger] text@[j]) {
                    lemma_digits_value_grows(text@, i as int + 1);
                }
            }
            return None;
        }
        value = next;
        i += 1;
    }
    assert(text@.take(len as int) =~= text@);
    Some(value as u8)
}

/// The character of a single decimal digit.
pub open spec fn digit_char(d: nat) -> char
    recommends
        d < 10,
{
    if d == 0 {
        '0'
    } else if d == 1 {
        '1'
    } else if d == 2 {
        '2'
    } else if d == 3 {
        '3'
    } else if d == 4 {
        '4'
    } else if d == 5 {
        '5'
    } else if d == 6 {
        '6'
    } else if d == 7 {
        '7'
    } else if d == 8 {
        '8'
    } else {
        '9'
    }
}

/// The shortest decimal spelling of a number: no leading zeros, `0` for zero.
pub open spec fn decimal_text(n: nat) -> Seq<char>
    decreases n,
{
    if n < 10 {
        seq![digit_char(n)]
    } else {
        decimal_text(n / 10).push(digit_char(n % 10))
    }
}

/// The spelling of a number consists of digits and denotes the number.
proof fn lemma_decimal_text_denotes(n: nat)
    ensures
        decimal_text(n).len() >= 1,
        forall|i: int| 0 <= i < decimal_text(n).len() ==> is_digit(#[trigger] decimal_text(n)[i]),
        digits_value(decimal_text(n)) == n,
    decreases n,
{
    if n < 10 {
        let one = seq![digit_char(n)];
        assert(one.drop_last() =~= Seq::<char>::empty());
        assert(digits_value(one.drop_last()) == 0);
        assert(one.last() == digit_char(n));
    } else {
        lemma_decimal_text_denotes(n / 10);
        let head = decimal_text(n / 10);
        let whole = head.push(digit_char(n % 10));
        assert(whole.drop_last() =~= head);
        assert(whole.last() == digit_char(n % 10));
        assert forall|i: int| 0 <= i < whole.len() implies is_digit(#[trigger] whole[i]) by {
            if i < head.len() {
                assert(whole[i] == head[i]);
            }
        }
    }
}

/// The spelling of a number up to 255 is read back as that number.
pub proof fn lemma_decimal_text_is_read_back(n: u8)
    ensures
        decimal_u8(decimal_text(n as nat)) == Some(n),
{
    lemma_decimal_text_denotes(n as nat);
}

/// The one-character text of a decimal digit.
fn digit_str(d: u8) -> (text: &'static str)
    requires
        d < 10,
    ensures
        text@ == seq![digit_char(d as nat)],
{
    proof {
        reveal_strlit("0");
        reveal_strlit("1");
        reveal_strlit("2");
        reveal_strlit("3");
        reveal_strlit("4");
        reveal_strlit("5");
        reveal_strlit("6");
        reveal_strlit("7");
        reveal_strlit("8");
        reveal_strlit("9");
    }
    let text = if d == 0 {
        "0"
    } else if d == 1 {
        "1"
    } else if d == 2 {
        "2"
    } else if d == 3 {
        "3"
    } else if d == 4 {
        "4"
    } else if d == 5 {
        "5"
    } else if d == 6 {
        "6"
    } else if d == 7 {
        "7"
    } else if d == 8 {
        "8"
    } else {
        "9"
    };
    assert(text@ =~= seq![digit_char(d as nat)]);
    text
}

/// Appends the decimal spelling of `n` to `out`.
pub fn push_decimal_u8(out: &mut String, n: u8)
    ensures
        final(out)@ == old(out)@ + decimal_text(n as nat),
{
    if n >= 100 {
        out.append(digit_str(n / 100));
        out.append(digit_str((n / 10) % 10));
        out.append(digit_str(n % 10));
        proof {
            let m = n as nat;
            assert(decimal_text(m / 10 / 10) =~= seq![digit_char(m / 100)]);
            assert(decimal_text(m / 10) =~= seq![digit_char(m / 100), digit_char((m / 10) % 10)]);
            assert(decimal_text(m) =~= seq![
                digit_char(m / 100),
                digit_char((m / 10) % 10),
                digit_char(m % 10),
            ]);
            assert(out@ =~= old(out)@ + decimal_text(m));
        }
    } else if n >= 10 {
        out.append(digit_str(n / 10));
        out.append(digit_str(n % 10));
        proof {
            let m = n as nat;
            assert(decimal_text(m / 10) =~= seq![digit_char(m / 10)]);
            assert(decimal_text(m) =~= seq![digit_char(m / 10), digit_char(m % 10)]);
            assert(out@ =~= old(out)@ + decimal_text(m));
        }
    } else {
        out.append(digit_str(n));
    }
}

/// What `char::escape_debug` of the standard library writes for a
/// character.
pub uninterp spec fn std_escape_debug(c: char) -> Seq<char>;

/// Escapes a character with `char::escape_debug` of the standard library.
///
/// Nothing is proved of this function. Its contract claims that the text
/// is [`std_escape_debug`] of the character, that is, that the same
/// character always gives the same text, and nothing of what that text is:
/// it depends on the tables of Unicode that the standard library carries.
#[verifier::external_body]
fn escape_by_std(c: char) -> (text: String)
    ensures
        text@ == std_escape_debug(c),
{
    c.escape_debug().to_string()
}

/// Appends a character with `String::push` of the standard library, which
/// is documented to append the character to the end of the string.
#[verifier::external_body]
fn push_char(out: &mut String, c: char)
    ensures
        final(out)@ == old(out)@.push(c),
{
    out.push(c)
}

/// How a character stands inside the quotes of a debug text. The null
/// character, tab, carriage return, line feed, the backslash and the double
/// quote are written as a backslash and `0`, `t`, `r`, `n`, `\` or `"`.
/// The other characters from the space to the tilde stand for themselves.
/// Everything else, the control characters and all that is not ASCII, is
/// written as `char::escape_debug` writes it.
pub open spec fn escaped_char(c: char) -> Seq<char> {
    if c == '\0' {
        seq!['\\', '0']
    } else if c == '\t' {
        seq!['\\', 't']
    } else if c == '\r' {
        seq!['\\', 'r']
    } else if c == '\n' {
        seq!['\\', 'n']
    } else if c == '\\' {
        seq!['\\', '\\']
    } else if c == '"' {
        seq!['\\', '"']
    } else if ' ' <= c <= '~' {
        seq![c]
    } else {
        std_escape_debug(c)
    }
}

/// A text with each of its characters escaped.
pub open spec fn escaped(text: Seq<char>) -> Seq<char>
    decreases text.len(),
{
    if text.len() == 0 {
        Seq::empty()
    } else {
        escaped(text.drop_last()) + escaped_char(text.last())
    }
}

/// The debug text of a text: its characters escaped, between double
/// quotes. This is what formatting a string with `{:?}` writes.
pub open spec fn debug_text(text: Seq<char>) -> Seq<char> {
    seq!['"'] + escaped(text) + seq!['"']
}

/// Whether a character is escaped without the tables of the standard
/// library: it is one of the six that take a backslash, or stands between
/// the space and the tilde.
pub open spec fn escaped_here(c: char) -> bool {
    c == '\0' || c == '\t' || c == '\r' || c == '\n' || (' ' <= c <= '~')
}

/// The escaped form of such characters holds no line feed.
proof fn lemma_escaped_is_one_line(text: Seq<char>)
    requires
        forall|i: int| 0 <= i < text.len() ==> escaped_here(#[trigger] text[i]),
    ensures
        forall|j: int| 0 <= j < escaped(text).len() ==> #[trigger] escaped(text)[j] != '\n',
    decreases text.len(),
{
    if text.len() > 0 {
        let head = text.drop_last();
        assert forall|i: int| 0 <= i < head.len() implies escaped_here(#[trigger] head[i]) by {
            assert(head[i] == text[i]);
        }
        lemma_escaped_is_one_line(head);
        let last = escaped_char(text.last());
        assert(escaped_here(text[text.len() - 1]));
        assert forall|k: int| 0 <= k < last.len() implies last[k] != '\n' by {}
        assert forall|j: int| 0 <= j < escaped(text).len() implies #[trigger] escaped(text)[j]
            != '\n' by {
            if j < escaped(head).len() {
                assert(escaped(text)[j] == escaped(head)[j]);
            } else {
                assert(escaped(text)[j] == last[j - escaped(head).len()]);
            }
        }
    }
}

/// The debug text of a text whose characters are all escaped here is one
/// line: whatever line feeds the text holds, its debug text holds none.
pub proof fn lemma_debug_text_is_one_line(text: Seq<char>)
    requires
        forall|i: int| 0 <= i < text.len() ==> escaped_here(#[trigger] text[i]),
    ensures
        forall|j: int| 0 <= j < debug_text(text).len() ==> #[trigger] debug_text(text)[j] != '\n',
{
    lemma_escaped_is_one_line(text);
}

/// Appends a character, escaped, to `out`.
fn push_escaped_char(out: &mut String, c: char)
    ensures
        final(out)@ == old(out)@ + escaped_char(c),
{
    proof {
        reveal_strlit("\\0");
        reveal_strlit("\\t");
        reveal_strlit("\\r");
        reveal_strlit("\\n");
        reveal_strlit("\\\\");
        reveal_strlit("\\\"");
    }
    if c == '\0' {
        out.append("\\0");
        assert(out@ =~= old(out)@ + escaped_char(c));
    } else if c == '\t' {
        out.append("\\t");
        assert(out@ =~= old(out)@ + escaped_char(c));
    } else if c == '\r' {
        out.append("\\r");
        assert(out@ =~= old(out)@ + escaped_char(c));
    } else if c == '\n' {
        out.append("\\n");
        assert(out@ =~= old(out)@ + escaped_char(c));
    } else if c == '\\' {
        out.append("\\\\");
        assert(out@ =~= old(out)@ + escaped_char(c));
    } else if c == '"' {
        out.append("\\\"");
        assert(out@ =~= old(out)@ + escaped_char(c));
    } else if ' ' <= c && c <= '~' {
        push_char(out, c);
        assert(out@ =~= old(out)@ + escaped_char(c));
    } else {
        let text = escape_by_std(c);
        out.append(text.as_str());
    }
}

/// Appends the debug text of `text` to `out`.
pub fn push_debug(out: &mut String, text: &str)
    ensures
        final(out)@ == old(out)@ + debug_text(text@),
{
    proof {
        reveal_strlit("\"");
    }
    out.append("\"");
    let ghost opened = out@;
    let len = text.unicode_len();
    let mut i: usize = 0;
    while i < len
        invariant
            i <= len,
            len == text@.len(),
            out@ == opened + escaped(text@.take(i as int)),
        decreases len - i,
    {
        let c = text.get_char(i);
        let ghost before = out@;
        push_escaped_char(out, c);
        proof {
            let longer = text@.take(i as int + 1);
            assert(longer.drop_last() =~= text@.take(i as int));
            assert(longer.last() == c);
            assert(out@ =~= opened + escaped(longer));
        }
        i += 1;
    }
    out.append("\"");
    proof {
        assert(text@.take(len as int) =~= text@);
        assert(opened =~= old(out)@ + seq!['"']);
        assert(out@ =~= old(out)@ + debug_text(text@));
    }
}

/// The debug text of `text`.
pub fn debug_string(text: &str) -> (shown: String)
    ensures
        shown@ == debug_text(text@),
{
    let mut shown = String::new();
    push_debug(&mut shown, text);
    assert(shown@ =~= debug_text(text@));
    shown
}

} // verus!
