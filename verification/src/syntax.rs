use vstd::prelude::*;
use vstd::string::StringExecFns;
use crate::text::{
    alphanumeric_answers, alphanumerics, answer, answer_at, char_is_alphanumeric, chars_of, hex,
    hex_text, is_alphanumeric, push_char,
};

verus! {

/// Whether `c` can stand after a backslash as an escape of one character.
pub open spec fn single_char_escape(c: char) -> bool {
    c == 't' || c == 'b' || c == 'n' || c == 'r' || c == 'f' || c == '\'' || c == '"' || c == '\\'
}

/// Whether `c` can stand unescaped in a local name after its first character,
/// given whether it is a letter or a number.
pub open spec fn later_char_given(c: char, alphanumeric: bool) -> bool {
    alphanumeric || c == '_' || c == '-' || c == '.'
}

/// Whether `c` can stand unescaped as the first character of a local name,
/// given whether it is a letter or a number.
pub open spec fn first_char_given(c: char, alphanumeric: bool) -> bool {
    later_char_given(c, alphanumeric) || c == ':'
}

/// Whether `c` can stand unescaped in a local name after its first character.
pub open spec fn local_name_later_char(c: char) -> bool {
    later_char_given(c, is_alphanumeric(c))
}

/// Whether `c` can stand unescaped as the first character of a local name.
pub open spec fn local_name_first_char(c: char) -> bool {
    first_char_given(c, is_alphanumeric(c))
}

/// Whether `c` is a hexadecimal digit, of either case.
pub open spec fn hex_digit(c: char) -> bool {
    ('0' <= c && c <= '9') || ('a' <= c && c <= 'f') || ('A' <= c && c <= 'F')
}

/// Whether `n` hexadecimal digits stand in `s` from position `i`.
pub open spec fn hex_run(s: Seq<char>, i: int, n: int) -> bool {
    i + n <= s.len() && forall|k: int| i <= k < i + n ==> hex_digit(#[trigger] s[k])
}

/// The length of the escape that stands in `s` from position `i`, just after a
/// backslash, if one does: `u` and four hexadecimal digits, `U` and eight, or
/// one of the single characters.
pub open spec fn escape_len(s: Seq<char>, i: int) -> Option<int> {
    if i >= s.len() {
        None
    } else if s[i] == 'u' {
        if hex_run(s, i + 1, 4) {
            Some(5)
        } else {
            None
        }
    } else if s[i] == 'U' {
        if hex_run(s, i + 1, 8) {
            Some(9)
        } else {
            None
        }
    } else if single_char_escape(s[i]) {
        Some(1)
    } else {
        None
    }
}

/// The length of the item of a local name that stands in `s` at position `i`,
/// if one does: a backslash escape, a percent sign and two hexadecimal digits,
/// or one character that needs no escape. The answers say of each position
/// whether the character there is a letter or a number.
pub open spec fn item_len(s: Seq<char>, answers: Seq<bool>, i: int, first: bool) -> Option<int> {
    if s[i] == '\\' {
        match escape_len(s, i + 1) {
            Some(n) => Some(n + 1),
            None => None,
        }
    } else if s[i] == '%' {
        if hex_run(s, i + 1, 2) {
            Some(3)
        } else {
            None
        }
    } else if later_char_given(s[i], answer(answers, i)) || (first && s[i] == ':') {
        Some(1)
    } else {
        None
    }
}

/// Whether `s` from position `i` on is made of items of a local name; `first`
/// says that the item at `i` is the first of the name, which cannot be empty.
pub open spec fn valid_local_from(s: Seq<char>, answers: Seq<bool>, i: int, first: bool) -> bool
    decreases s.len() - i,
{
    if i >= s.len() {
        !first
    } else {
        match item_len(s, answers, i, first) {
            None => false,
            Some(n) => n >= 1 && valid_local_from(s, answers, i + n, false),
        }
    }
}

/// Whether `s` is a valid local name, given of each position whether the
/// character there is a letter or a number.
pub open spec fn valid_local_with(s: Seq<char>, answers: Seq<bool>) -> bool {
    valid_local_from(s, answers, 0, true)
}

/// Whether `s` is a valid local name.
pub open spec fn valid_local(s: Seq<char>) -> bool {
    valid_local_with(s, alphanumeric_answers(s))
}

/// What a character is written as where it cannot stand as itself: the named
/// escapes of tab, line feed, carriage return, form feed, the two quotes and
/// the backslash; else a percent sign and two hexadecimal digits below 256, `\u`
/// and four below 65536, `\U` and eight above.
pub open spec fn encoded_char(c: char) -> Seq<char> {
    if c == '\t' {
        "\\t"@
    } else if c == '\n' {
        "\\n"@
    } else if c == '\r' {
        "\\r"@
    } else if c == '\x0C' {
        "\\f"@
    } else if c == '\'' {
        "\\'"@
    } else if c == '"' {
        "\\\""@
    } else if c == '\\' {
        "\\\\"@
    } else if (c as u32) < 256 {
        "%"@ + hex(c as nat, 2)
    } else if (c as u32) < 65536 {
        "\\u"@ + hex(c as nat, 4)
    } else {
        "\\U"@ + hex(c as nat, 8)
    }
}

/// What a character of a local name is written as, given whether it is the
/// first and whether it is a letter or a number: itself where it can stand
/// there, else its encoding.
pub open spec fn encoded_given(c: char, first: bool, alphanumeric: bool) -> Seq<char> {
    if (first && first_char_given(c, alphanumeric)) || (!first && later_char_given(c, alphanumeric)) {
        seq![c]
    } else {
        encoded_char(c)
    }
}

/// The first `n` characters of `s`, encoded as a local name, given of each
/// position whether the character there is a letter or a number.
pub open spec fn encoded_local_name_with(s: Seq<char>, answers: Seq<bool>, n: int) -> Seq<char>
    decreases n,
{
    if n <= 0 {
        Seq::empty()
    } else {
        encoded_local_name_with(s, answers, n - 1) + encoded_given(
            s[n - 1],
            n == 1,
            answer(answers, n - 1),
        )
    }
}

/// The first `n` characters of `s`, encoded as a local name.
pub open spec fn encoded_local_name(s: Seq<char>, n: int) -> Seq<char> {
    encoded_local_name_with(s, alphanumeric_answers(s), n)
}

/// Whether `c` can stand after a backslash as an escape of one character.
pub fn is_single_char_escape(c: char) -> (r: bool)
    ensures
        r == single_char_escape(c),
{
    c == 't' || c == 'b' || c == 'n' || c == 'r' || c == 'f' || c == '\'' || c == '"' || c == '\\'
}

/// Whether `c` can stand unescaped as the first character of a local name,
/// given whether it is a letter or a number.
pub fn is_first_char_given(c: char, alphanumeric: bool) -> (r: bool)
    ensures
        r == first_char_given(c, alphanumeric),
{
    is_later_char_given(c, alphanumeric) || c == ':'
}

/// Whether `c` can stand unescaped in a local name after its first character,
/// given whether it is a letter or a number.
pub fn is_later_char_given(c: char, alphanumeric: bool) -> (r: bool)
    ensures
        r == later_char_given(c, alphanumeric),
{
    alphanumeric || c == '_' || c == '-' || c == '.'
}

/// Whether `c` can stand unescaped as the first character of a local name.
pub fn is_local_name_first_char(c: char) -> (r: bool)
    ensures
        r == local_name_first_char(c),
{
    is_first_char_given(c, char_is_alphanumeric(c))
}

/// Whether `c` can stand unescaped in a local name after its first character.
pub fn is_local_name_later_char(c: char) -> (r: bool)
    ensures
        r == local_name_later_char(c),
{
    is_later_char_given(c, char_is_alphanumeric(c))
}

/// Whether `c` is a hexadecimal digit.
fn is_hex_digit(c: char) -> (r: bool)
    ensures
        r == hex_digit(c),
{
    ('0' <= c && c <= '9') || ('a' <= c && c <= 'f') || ('A' <= c && c <= 'F')
}

/// Whether `len` hexadecimal digits stand in `chars` from position `from`.
fn is_hex_num(chars: &Vec<char>, from: usize, len: usize) -> (r: bool)
    requires
        from <= chars@.len(),
        len <= 8,
    ensures
        r == hex_run(chars@, from as int, len as int),
{
    if chars.len() - from < len {
        return false;
    }
    let mut k: usize = 0;
    while k < len
        invariant
            k <= len,
            from + len <= chars.len(),
            forall|j: int| from <= j < from + k ==> hex_digit(#[trigger] chars@[j]),
        decreases len - k,
    {
        if !is_hex_digit(chars[from + k]) {
            return false;
        }
        k = k + 1;
    }
    true
}

/// The length of the escape that stands in `chars` from position `from`, just
/// after a backslash, if one does.
fn is_escape_sequence(chars: &Vec<char>, from: usize) -> (r: Option<usize>)
    requires
        from <= chars@.len(),
    ensures
        match escape_len(chars@, from as int) {
            Some(n) => r == Some(n as usize) && from + n <= chars@.len() && n >= 1,
            None => r is None,
        },
{
    if from >= chars.len() {
        None
    } else if chars[from] == 'u' {
        if is_hex_num(chars, from + 1, 4) {
            Some(5)
        } else {
            None
        }
    } else if chars[from] == 'U' {
        if is_hex_num(chars, from + 1, 8) {
            Some(9)
        } else {
            None
        }
    } else if is_single_char_escape(chars[from]) {
        Some(1)
    } else {
        None
    }
}

/// Whether `local` is a valid local name: not empty, and made of characters
/// that need no escape (a colon only in front), backslash escapes, and percent
/// signs with two hexadecimal digits.
pub fn is_valid_local(local: &str) -> (r: bool)
    ensures
        r == valid_local(local@),
{
    let chars = chars_of(local);
    let answers = alphanumerics(&chars);
    is_valid_local_with(local, &answers)
}

/// Whether `local` is a valid local name, given of each position whether the
/// character there is a letter or a number; beyond the end of the answers the
/// answer is no.
pub fn is_valid_local_with(local: &str, alphanumeric: &Vec<bool>) -> (r: bool)
    ensures
        r == valid_local_with(local@, alphanumeric@),
{
    let chars = chars_of(local);
    let mut i: usize = 0;
    let mut first: bool = true;
    while i < chars.len()
        invariant
            chars@ == local@,
            i <= chars.len(),
            valid_local_with(local@, alphanumeric@) == valid_local_from(
                chars@,
                alphanumeric@,
                i as int,
                first,
            ),
        decreases chars.len() - i,
    {
        let c = chars[i];
        if c == '\\' {
            match is_escape_sequence(&chars, i + 1) {
                Some(n) => {
                    i = i + 1 + n;
                },
                None => {
                    return false;
                },
            }
        } else if c == '%' {
            if !is_hex_num(&chars, i + 1, 2) {
                return false;
            }
            i = i + 3;
        } else if is_later_char_given(c, answer_at(alphanumeric, i)) || (first && c == ':') {
            i = i + 1;
        } else {
            return false;
        }
        first = false;
    }
    !first
}

/// What `c` is written as where it cannot stand as itself.
pub fn encode_char(c: char) -> (r: String)
    ensures
        r@ == encoded_char(c),
{
    if c == '\t' {
        String::from_str("\\t")
    } else if c == '\n' {
        String::from_str("\\n")
    } else if c == '\r' {
        String::from_str("\\r")
    } else if c == '\x0C' {
        String::from_str("\\f")
    } else if c == '\'' {
        String::from_str("\\'")
    } else if c == '"' {
        String::from_str("\\\"")
    } else if c == '\\' {
        String::from_str("\\\\")
    } else {
        let v = c as u32;
        if v < 256 {
            let digits = hex_text(v, 2);
            String::from_str("%").concat(digits.as_str())
        } else if v < 65536 {
            let digits = hex_text(v, 4);
            String::from_str("\\u").concat(digits.as_str())
        } else {
            let digits = hex_text(v, 8);
            String::from_str("\\U").concat(digits.as_str())
        }
    }
}

/// What a character of a local name is written as, given whether it is the
/// first and whether it is a letter or a number: itself where it can stand
/// there, else as `encode_char` has it.
pub fn encode_local_char(c: char, first: bool, alphanumeric: bool) -> (r: String)
    ensures
        r@ == encoded_given(c, first, alphanumeric),
{
    let plain = if first {
        is_first_char_given(c, alphanumeric)
    } else {
        is_later_char_given(c, alphanumeric)
    };
    if plain {
        let mut r = String::new();
        push_char(&mut r, c);
        assert(r@ =~= seq![c]);
        r
    } else {
        encode_char(c)
    }
}

/// Encodes `chars` as a local name: each character that can stand where it
/// is stays, each other is written as `encode_char` has it.
pub fn encode_local_name(chars: &str) -> (r: String)
    ensures
        r@ == encoded_local_name(chars@, chars@.len() as int),
{
    let all = chars_of(chars);
    let answers = alphanumerics(&all);
    encode_local_name_with(chars, &answers)
}

/// Encodes `chars` as a local name, given of each position whether the
/// character there is a letter or a number; beyond the end of the answers the
/// answer is no.
pub fn encode_local_name_with(chars: &str, alphanumeric: &Vec<bool>) -> (r: String)
    ensures
        r@ == encoded_local_name_with(chars@, alphanumeric@, chars@.len() as int),
{
    let all = chars_of(chars);
    let mut encoded = String::new();
    let mut i: usize = 0;
    assert(encoded@ =~= encoded_local_name_with(chars@, alphanumeric@, 0));
    while i < all.len()
        invariant
            all@ == chars@,
            i <= all.len(),
            encoded@ == encoded_local_name_with(chars@, alphanumeric@, i as int),
        decreases all.len() - i,
    {
        let text = encode_local_char(all[i], i == 0, answer_at(alphanumeric, i));
        encoded.append(text.as_str());
        i = i + 1;
    }
    encoded
}

} // verus!
