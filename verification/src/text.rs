use vstd::prelude::*;
use vstd::string::{StrSliceExecFns, StringExecFns};

verus! {

/// Three-way result of comparing two values under a total order.
#[derive(Clone, Copy, Debug, PartialEq, Eq, Structural)]
pub enum Rank {
    Less,
    Equal,
    Greater,
}

/// Three-way lexicographic comparison of two byte sequences from position `i` on.
pub open spec fn bytes_rank_from(a: Seq<u8>, b: Seq<u8>, i: int) -> Rank
    decreases a.len() - i,
{
    if i >= a.len() && i >= b.len() {
        Rank::Equal
    } else if i >= a.len() {
        Rank::Less
    } else if i >= b.len() {
        Rank::Greater
    } else if a[i] < b[i] {
        Rank::Less
    } else if a[i] > b[i] {
        Rank::Greater
    } else {
        bytes_rank_from(a, b, i + 1)
    }
}

/// Three-way lexicographic comparison of two byte sequences.
pub open spec fn bytes_rank(a: Seq<u8>, b: Seq<u8>) -> Rank {
    bytes_rank_from(a, b, 0)
}

/// Three-way comparison of two texts by their UTF-8 bytes.
#[verifier::opaque]
pub open spec fn text_rank(a: Seq<char>, b: Seq<char>) -> Rank {
    bytes_rank(vstd::utf8::encode_utf8(a), vstd::utf8::encode_utf8(b))
}

/// Compares two strings lexicographically by their bytes.
pub fn compare_text(a: &str, b: &str) -> (r: Rank)
    ensures
        r == text_rank(a@, b@),
{
    proof {
        reveal(text_rank);
    }
    let x = a.as_bytes();
    let y = b.as_bytes();
    let mut i: usize = 0;
    while i < x.len() && i < y.len()
        invariant
            x@ == vstd::utf8::encode_utf8(a@),
            y@ == vstd::utf8::encode_utf8(b@),
            i <= x.len(),
            i <= y.len(),
            text_rank(a@, b@) == bytes_rank_from(x@, y@, i as int),
        decreases x.len() - i,
    {
        if x[i] < y[i] {
            return Rank::Less;
        }
        if x[i] > y[i] {
            return Rank::Greater;
        }
        i = i + 1;
    }
    if i < y.len() {
        Rank::Less
    } else if i < x.len() {
        Rank::Greater
    } else {
        Rank::Equal
    }
}

/// The characters of a string, in order.
pub fn chars_of(s: &str) -> (r: Vec<char>)
    ensures
        r@ == s@,
{
    let mut r: Vec<char> = Vec::new();
    for c in it: s.chars()
        invariant
            it.seq() == s@,
            r@ == s@.subrange(0, it.index() as int),
    {
        r.push(c);
    }
    r
}

/// The first rank unless it is `Equal`, else the second: how a lexicographic
/// comparison combines the ranks of two components.
pub open spec fn rank_then(first: Rank, second: Rank) -> Rank {
    if first is Equal {
        second
    } else {
        first
    }
}

/// The opposite rank: what the comparison gives with its arguments exchanged.
pub open spec fn rank_flip(r: Rank) -> Rank {
    match r {
        Rank::Less => Rank::Greater,
        Rank::Equal => Rank::Equal,
        Rank::Greater => Rank::Less,
    }
}

/// Two byte sequences that agree before position `i` rank `Equal` from `i` on
/// exactly when they are the same.
proof fn lemma_bytes_rank_equal(a: Seq<u8>, b: Seq<u8>, i: int)
    requires
        0 <= i <= a.len(),
        i <= b.len(),
        forall|j: int| 0 <= j < i ==> a[j] == b[j],
    ensures
        bytes_rank_from(a, b, i) is Equal <==> a == b,
    decreases a.len() - i,
{
    if i >= a.len() && i >= b.len() {
        assert(a =~= b);
    } else if i >= a.len() || i >= b.len() {
        assert(a.len() != b.len());
    } else if a[i] != b[i] {
    } else {
        lemma_bytes_rank_equal(a, b, i + 1);
    }
}

/// Exchanging two byte sequences flips their rank.
proof fn lemma_bytes_rank_flip(a: Seq<u8>, b: Seq<u8>, i: int)
    requires
        0 <= i <= a.len(),
        i <= b.len(),
    ensures
        bytes_rank_from(b, a, i) == rank_flip(bytes_rank_from(a, b, i)),
    decreases a.len() - i,
{
    if i < a.len() && i < b.len() && a[i] == b[i] {
        lemma_bytes_rank_flip(a, b, i + 1);
    }
}

/// The order of byte sequences is transitive.
proof fn lemma_bytes_rank_transitive(a: Seq<u8>, b: Seq<u8>, c: Seq<u8>, i: int)
    requires
        0 <= i <= a.len(),
        i <= b.len(),
        i <= c.len(),
        bytes_rank_from(a, b, i) is Less,
        bytes_rank_from(b, c, i) is Less,
    ensures
        bytes_rank_from(a, c, i) is Less,
    decreases a.len() - i,
{
    if i < a.len() && i < b.len() && i < c.len() && a[i] == b[i] && b[i] == c[i] {
        lemma_bytes_rank_transitive(a, b, c, i + 1);
    }
}

/// `text_rank` is a total order on texts: two texts rank `Equal` exactly when
/// they are the same text.
pub proof fn lemma_text_rank_equal(a: Seq<char>, b: Seq<char>)
    ensures
        text_rank(a, b) is Equal <==> a == b,
{
    reveal(text_rank);
    let x = vstd::utf8::encode_utf8(a);
    let y = vstd::utf8::encode_utf8(b);
    lemma_bytes_rank_equal(x, y, 0);
    vstd::utf8::encode_utf8_decode_utf8(a);
    vstd::utf8::encode_utf8_decode_utf8(b);
}

/// Exchanging the arguments of `text_rank` flips the rank.
pub proof fn lemma_text_rank_flip(a: Seq<char>, b: Seq<char>)
    ensures
        text_rank(b, a) == rank_flip(text_rank(a, b)),
{
    reveal(text_rank);
    lemma_bytes_rank_flip(vstd::utf8::encode_utf8(a), vstd::utf8::encode_utf8(b), 0);
}

/// `text_rank` is transitive.
pub proof fn lemma_text_rank_transitive(a: Seq<char>, b: Seq<char>, c: Seq<char>)
    requires
        text_rank(a, b) is Less,
        text_rank(b, c) is Less,
    ensures
        text_rank(a, c) is Less,
{
    reveal(text_rank);
    lemma_bytes_rank_transitive(
        vstd::utf8::encode_utf8(a),
        vstd::utf8::encode_utf8(b),
        vstd::utf8::encode_utf8(c),
        0,
    );
}

/// The order laws of `text_rank` on three texts at once, in the form the
/// composite orders need them.
pub proof fn lemma_text_rank_laws(a: Seq<char>, b: Seq<char>, c: Seq<char>)
    ensures
        text_rank(a, b) is Equal <==> a == b,
        text_rank(b, c) is Equal <==> b == c,
        text_rank(a, c) is Equal <==> a == c,
        text_rank(b, a) == rank_flip(text_rank(a, b)),
        text_rank(a, b) is Less && text_rank(b, c) is Less ==> text_rank(a, c) is Less,
{
    lemma_text_rank_equal(a, b);
    lemma_text_rank_equal(b, c);
    lemma_text_rank_equal(a, c);
    lemma_text_rank_flip(a, b);
    if text_rank(a, b) is Less && text_rank(b, c) is Less {
        lemma_text_rank_transitive(a, b, c);
    }
}

/// Whether two strings hold the same text.
pub fn text_equals(a: &str, b: &str) -> (r: bool)
    ensures
        r == (a@ == b@),
{
    proof {
        lemma_text_rank_equal(a@, b@);
    }
    compare_text(a, b) == Rank::Equal
}

/// The decimal digit for `d`.
pub open spec fn digit_char(d: nat) -> char {
    if d == 0 {
        '0'
    } else if d == 1 {
        '1'
    } else if d == 2 {
        '2'
    } else if d == 3 {
        '3'
    } else if d == 4 {
        '4'
    } else if d == 5 {
        '5'
    } else if d == 6 {
        '6'
    } else if d == 7 {
        '7'
    } else if d == 8 {
        '8'
    } else {
        '9'
    }
}

/// The number `n` written in decimal, without leading zeros.
pub open spec fn decimal(n: nat) -> Seq<char>
    decreases n,
{
    if n < 10 {
        seq![digit_char(n)]
    } else {
        decimal(n / 10).push(digit_char(n % 10))
    }
}

/// The number that a text of decimal digits writes.
pub open spec fn decimal_value(s: Seq<char>) -> nat
    decreases s.len(),
{
    if s.len() == 0 {
        0
    } else {
        (decimal_value(s.drop_last()) * 10 + (s.last() as nat - '0' as nat)) as nat
    }
}

/// Reading back what `decimal` wrote gives the number again, so two different
/// numbers are never written the same.
pub proof fn lemma_decimal_value(n: nat)
    ensures
        decimal_value(decimal(n)) == n,
    decreases n,
{
    if n < 10 {
        let s = seq![digit_char(n)];
        assert(s.drop_last() =~= Seq::<char>::empty());
        assert(s.last() == digit_char(n));
        assert(decimal_value(s.drop_last()) == 0);
    } else {
        lemma_decimal_value(n / 10);
        let s = decimal(n / 10).push(digit_char(n % 10));
        assert(s.drop_last() =~= decimal(n / 10));
        assert(s.last() == digit_char(n % 10));
    }
}

/// The decimal digit for `d`, as a text.
fn digit_text(d: usize) -> (r: &'static str)
    requires
        d < 10,
    ensures
        r@ == seq![digit_char(d as nat)],
{
    proof {
        reveal_strlit("0");
        reveal_strlit("1");
        reveal_strlit("2");
        reveal_strlit("3");
        reveal_strlit("4");
        reveal_strlit("5");
        reveal_strlit("6");
        reveal_strlit("7");
        reveal_strlit("8");
        reveal_strlit("9");
    }
    let r = if d == 0 {
        "0"
    } else if d == 1 {
        "1"
    } else if d == 2 {
        "2"
    } else if d == 3 {
        "3"
    } else if d == 4 {
        "4"
    } else if d == 5 {
        "5"
    } else if d == 6 {
        "6"
    } else if d == 7 {
        "7"
    } else if d == 8 {
        "8"
    } else {
        "9"
    };
    assert(r@ =~= seq![digit_char(d as nat)]);
    r
}

/// Writes `n` in decimal.
pub fn decimal_text(n: usize) -> (r: String)
    ensures
        r@ == decimal(n as nat),
    decreases n,
{
    if n < 10 {
        String::from_str(digit_text(n))
    } else {
        let mut r = decimal_text(n / 10);
        r.append(digit_text(n % 10));
        assert(r@ =~= decimal(n as nat));
        r
    }
}

/// Whether `prefix` is the beginning of `text`.
pub open spec fn is_prefix_of(prefix: Seq<char>, text: Seq<char>) -> bool {
    prefix.len() <= text.len() && text.subrange(0, prefix.len() as int) == prefix
}

/// Appends one character to a string, by `String::push`: the string is then
/// what it was, followed by that character.
#[verifier::external_body]
pub(crate) fn push_char(s: &mut String, c: char)
    ensures
        final(s)@ == old(s)@.push(c),
{
    s.push(c);
}

/// Whether Unicode counts `c` as a letter or a number: what
/// `char::is_alphanumeric` answers.
pub uninterp spec fn is_alphanumeric(c: char) -> bool;

/// Asks `char::is_alphanumeric`; the answer is given the name `is_alphanumeric`,
/// as it depends on the character alone.
#[verifier::external_body]
pub(crate) fn char_is_alphanumeric(c: char) -> (r: bool)
    ensures
        r == is_alphanumeric(c),
{
    c.is_alphanumeric()
}

/// For each character of a text, whether Unicode counts it as a letter or a
/// number.
pub open spec fn alphanumeric_answers(s: Seq<char>) -> Seq<bool> {
    Seq::new(s.len(), |i: int| is_alphanumeric(s[i]))
}

/// The answer at position `i` of a list of answers; beyond its end the answer
/// is no.
pub open spec fn answer(answers: Seq<bool>, i: int) -> bool {
    0 <= i < answers.len() && answers[i]
}

/// For each of the characters, whether Unicode counts it as a letter or a
/// number.
pub fn alphanumerics(chars: &Vec<char>) -> (r: Vec<bool>)
    ensures
        r@ == alphanumeric_answers(chars@),
{
    let mut r: Vec<bool> = Vec::new();
    let mut i: usize = 0;
    while i < chars.len()
        invariant
            i <= chars.len(),
            r@.len() == i,
            forall|j: int| 0 <= j < i ==> r@[j] == is_alphanumeric(chars@[j]),
        decreases chars.len() - i,
    {
        r.push(char_is_alphanumeric(chars[i]));
        i = i + 1;
    }
    assert(r@ =~= alphanumeric_answers(chars@));
    r
}

/// The answer at position `i` of a list of answers; beyond its end the answer
/// is no.
pub fn answer_at(answers: &Vec<bool>, i: usize) -> (r: bool)
    ensures
        r == answer(answers@, i as int),
{
    i < answers.len() && answers[i]
}

/// The upper-case hexadecimal digit for `d`.
pub open spec fn hex_char(d: nat) -> char {
    if d < 10 {
        digit_char(d)
    } else if d == 10 {
        'A'
    } else if d == 11 {
        'B'
    } else if d == 12 {
        'C'
    } else if d == 13 {
        'D'
    } else if d == 14 {
        'E'
    } else {
        'F'
    }
}

/// The last `width` upper-case hexadecimal digits of `v`, zeros in front where
/// `v` has fewer.
pub open spec fn hex(v: nat, width: nat) -> Seq<char>
    decreases width,
{
    if width == 0 {
        Seq::empty()
    } else {
        hex(v / 16, (width - 1) as nat).push(hex_char(v % 16))
    }
}

/// The hexadecimal digit for `d`, as a text.
fn hex_digit_text(d: u32) -> (r: &'static str)
    requires
        d < 16,
    ensures
        r@ == seq![hex_char(d as nat)],
{
    if d < 10 {
        digit_text(d as usize)
    } else {
        proof {
            reveal_strlit("A");
            reveal_strlit("B");
            reveal_strlit("C");
            reveal_strlit("D");
            reveal_strlit("E");
            reveal_strlit("F");
        }
        let r = if d == 10 {
            "A"
        } else if d == 11 {
            "B"
        } else if d == 12 {
            "C"
        } else if d == 13 {
            "D"
        } else if d == 14 {
            "E"
        } else {
            "F"
        };
        assert(r@ =~= seq![hex_char(d as nat)]);
        r
    }
}

/// Writes the last `width` upper-case hexadecimal digits of `v`.
pub fn hex_text(v: u32, width: usize) -> (r: String)
    ensures
        r@ == hex(v as nat, width as nat),
    decreases width,
{
    if width == 0 {
        let r = String::new();
        assert(r@ =~= hex(v as nat, 0));
        r
    } else {
        let mut r = hex_text(v / 16, width - 1);
        r.append(hex_digit_text(v % 16));
        assert(r@ =~= hex(v as nat, width as nat));
        r
    }
}

/// `n` zeros.
pub open spec fn zeros(n: nat) -> Seq<char> {
    Seq::new(n, |i: int| '0')
}

/// The number `n` in decimal, with zeros in front up to `width` digits; a
/// number with more digits is written whole.
pub open spec fn padded_decimal(n: nat, width: nat) -> Seq<char> {
    if decimal(n).len() >= width {
        decimal(n)
    } else {
        zeros((width - decimal(n).len()) as nat) + decimal(n)
    }
}

/// Writes `n` in decimal, with zeros in front up to `width` digits.
pub fn padded_decimal_text(n: usize, width: usize) -> (r: String)
    ensures
        r@ == padded_decimal(n as nat, width as nat),
{
    let digits = decimal_text(n);
    let len = digits.as_str().unicode_len();
    let mut r = String::new();
    let mut i: usize = len;
    assert(r@ =~= zeros(0));
    while i < width
        invariant
            len <= i,
            i <= width || i == len,
            len == digits@.len(),
            r@ == zeros((i - len) as nat),
        decreases width - i,
    {
        proof {
            reveal_strlit("0");
        }
        r.append("0");
        i = i + 1;
        assert(r@ =~= zeros((i - len) as nat));
    }
    r.append(digits.as_str());
    assert(r@ =~= padded_decimal(n as nat, width as nat));
    r
}

} // verus!
