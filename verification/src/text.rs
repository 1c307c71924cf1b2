//! Text operations, stated over the character sequence of a string.
use vstd::prelude::*;
use vstd::string::*;

verus! {

/// Whether a character has the Unicode `White_Space` property.
pub open spec fn white_space(c: char) -> bool {
    let code = c as u32;
    ||| 0x9 <= code <= 0xd
    ||| code == 0x20
    ||| code == 0x85
    ||| code == 0xa0
    ||| code == 0x1680
    ||| 0x2000 <= code <= 0x200a
    ||| code == 0x2028
    ||| code == 0x2029
    ||| code == 0x202f
    ||| code == 0x205f
    ||| code == 0x3000
}

/// Whether a text holds ASCII characters alone.
pub open spec fn all_ascii(text: Seq<char>) -> bool {
    forall|i: int| 0 <= i < text.len() ==> (#[trigger] text[i] as u32) < 128
}

/// What `str::to_lowercase` makes of a text with other characters than those of
/// ASCII.
pub uninterp spec fn unicode_lowercase(text: Seq<char>) -> Seq<char>;

/// A text in lower case.
pub open spec fn lowercase(text: Seq<char>) -> Seq<char> {
    if all_ascii(text) {
        text.map_values(|c: char| ascii_lower(c))
    } else {
        unicode_lowercase(text)
    }
}

/// The character sequences of a list of strings.
pub open spec fn texts(list: Seq<String>) -> Seq<Seq<char>> {
    list.map_values(|s: String| s@)
}

/// The character sequence of an optional string.
pub open spec fn opt_text(text: Option<String>) -> Option<Seq<char>> {
    match text {
        Some(s) => Some(s@),
        None => None,
    }
}

/// A text without its leading white space.
pub open spec fn trim_start(s: Seq<char>) -> Seq<char>
    decreases s.len(),
{
    if s.len() > 0 && white_space(s[0]) {
        trim_start(s.skip(1))
    } else {
        s
    }
}

/// A text without its trailing white space.
pub open spec fn trim_end(s: Seq<char>) -> Seq<char>
    decreases s.len(),
{
    if s.len() > 0 && white_space(s.last()) {
        trim_end(s.drop_last())
    } else {
        s
    }
}

/// A text without leading and trailing white space.
pub open spec fn trimmed(s: Seq<char>) -> Seq<char> {
    trim_end(trim_start(s))
}

/// Whether a text holds nothing but white space.
pub open spec fn is_blank(s: Seq<char>) -> bool {
    trimmed(s).len() == 0
}

/// The ASCII lower-case form of a character.
pub open spec fn ascii_lower(c: char) -> char {
    if 'A' <= c <= 'Z' {
        ((c as u32) + 32) as char
    } else {
        c
    }
}

/// Equality of texts up to the case of ASCII letters.
pub open spec fn equal_ignoring_ascii_case(a: Seq<char>, b: Seq<char>) -> bool {
    a.map_values(|c: char| ascii_lower(c)) == b.map_values(|c: char| ascii_lower(c))
}

/// Whether a character is an ASCII letter or digit.
pub open spec fn ascii_alphanumeric(c: char) -> bool {
    'a' <= c <= 'z' || 'A' <= c <= 'Z' || '0' <= c <= '9'
}

/// Whether a text begins with another.
pub open spec fn begins_with(s: Seq<char>, prefix: Seq<char>) -> bool {
    prefix.len() <= s.len() && s.take(prefix.len() as int) == prefix
}

/// The part of a text before the first `sep`, and the part behind it.
pub open spec fn cut(s: Seq<char>, sep: char) -> Option<(Seq<char>, Seq<char>)>
    decreases s.len(),
{
    if s.len() == 0 {
        None
    } else if s[0] == sep {
        Some((Seq::empty(), s.skip(1)))
    } else {
        match cut(s.skip(1), sep) {
            Some((head, tail)) => Some((seq![s[0]] + head, tail)),
            None => None,
        }
    }
}

/// The parts of a text between the occurrences of `sep`.
pub open spec fn pieces(s: Seq<char>, sep: char) -> Seq<Seq<char>>
    decreases s.len(),
{
    if s.len() == 0 {
        seq![Seq::empty()]
    } else {
        let rest = pieces(s.drop_last(), sep);
        if s.last() == sep {
            rest.push(Seq::empty())
        } else {
            rest.drop_last().push(rest.last().push(s.last()))
        }
    }
}

/// Texts put one behind the other, with `sep` between neighbours.
pub open spec fn joined(parts: Seq<Seq<char>>, sep: Seq<char>) -> Seq<char>
    decreases parts.len(),
{
    if parts.len() == 0 {
        Seq::empty()
    } else if parts.len() == 1 {
        parts[0]
    } else {
        joined(parts.drop_last(), sep) + sep + parts.last()
    }
}

/// A text in which every occurrence of one character is replaced by another.
pub open spec fn with_char_replaced(s: Seq<char>, from: char, to: char) -> Seq<char> {
    s.map_values(|c: char| if c == from { to } else { c })
}

/// A text in which the occurrences of `token`, found from left to right without
/// overlap, are replaced by `value`.
pub open spec fn with_token_replaced(s: Seq<char>, token: Seq<char>, value: Seq<char>) -> Seq<char>
    decreases s.len(),
{
    if token.len() == 0 || s.len() < token.len() {
        s
    } else if begins_with(s, token) {
        value + with_token_replaced(s.skip(token.len() as int), token, value)
    } else {
        seq![s[0]] + with_token_replaced(s.skip(1), token, value)
    }
}

/// The order of texts by code points, in which a proper prefix comes first.
pub open spec fn precedes(a: Seq<char>, b: Seq<char>) -> bool
    decreases a.len(),
{
    if b.len() == 0 {
        false
    } else if a.len() == 0 {
        true
    } else if a[0] != b[0] {
        a[0] < b[0]
    } else {
        precedes(a.skip(1), b.skip(1))
    }
}

/// The decimal digit for a number below ten.
pub open spec fn digit(n: nat) -> char {
    (48 + n) as char
}

/// A number in decimal notation.
pub open spec fn decimal(n: nat) -> Seq<char>
    decreases n,
{
    if n < 10 {
        seq![digit(n)]
    } else {
        decimal(n / 10).push(digit(n % 10))
    }
}

/// Whether a text is a non-empty run of decimal digits.
pub open spec fn all_digits(s: Seq<char>) -> bool {
    s.len() > 0 && forall|i: int| 0 <= i < s.len() ==> '0' <= #[trigger] s[i] <= '9'
}

/// The number that a run of decimal digits denotes.
pub open spec fn digits_value(s: Seq<char>) -> nat
    decreases s.len(),
{
    if s.len() == 0 {
        0
    } else {
        (digits_value(s.drop_last()) * 10 + (s.last() as u32 - 48)) as nat
    }
}

/// The integer that a text denotes: decimal digits, behind at most one sign.
pub open spec fn integer_value(s: Seq<char>) -> Option<int> {
    if s.len() > 0 && (s[0] == '-' || s[0] == '+') {
        if all_digits(s.skip(1)) {
            Some(if s[0] == '-' { -(digits_value(s.skip(1)) as int) } else { digits_value(s.skip(1)) as int })
        } else {
            None
        }
    } else if all_digits(s) {
        Some(digits_value(s) as int)
    } else {
        None
    }
}

/// The `i64` that a text denotes, if it denotes one.
pub open spec fn i64_value(s: Seq<char>) -> Option<int> {
    match integer_value(s) {
        Some(n) => if i64::MIN <= n <= i64::MAX { Some(n) } else { None },
        None => None,
    }
}

/// The `usize` that a text denotes, if it denotes one. A minus sign is never accepted.
pub open spec fn usize_value(s: Seq<char>) -> Option<int> {
    if s.len() > 0 && s[0] == '-' {
        None
    } else {
        match integer_value(s) {
            Some(n) => if 0 <= n <= usize::MAX { Some(n) } else { None },
            None => None,
        }
    }
}

/// Two lower-case hexadecimal digits for each byte.
pub open spec fn hex(bytes: Seq<u8>) -> Seq<char>
    decreases bytes.len(),
{
    if bytes.len() == 0 {
        Seq::empty()
    } else {
        hex(bytes.drop_last()).push(hex_digit((bytes.last() / 16) as nat)).push(
            hex_digit((bytes.last() % 16) as nat),
        )
    }
}

/// The lower-case hexadecimal digit for a number below sixteen.
pub open spec fn hex_digit(n: nat) -> char {
    if n < 10 {
        (48 + n) as char
    } else {
        (87 + n) as char
    }
}

/// Equality of two texts, by `str`'s own comparison.
#[verifier::external_body]
pub(crate) fn same(a: &str, b: &str) -> (r: bool)
    ensures
        r == (a@ == b@),
{
    a == b
}

/// `char::is_whitespace`: the `White_Space` property, by its code points.
#[verifier::external_body]
fn is_white_space(c: char) -> (r: bool)
    ensures
        r == white_space(c),
{
    c.is_whitespace()
}

/// `str::to_lowercase`, which on an ASCII text changes the ASCII letters alone.
#[verifier::external_body]
pub(crate) fn to_lower(s: &str) -> (r: String)
    ensures
        r@ == if all_ascii(s@) {
            s@.map_values(|c: char| ascii_lower(c))
        } else {
            unicode_lowercase(s@)
        },
{
    s.to_lowercase()
}

/// `String::push`: the character comes behind the text.
#[verifier::external_body]
pub(crate) fn push_char(s: &mut String, c: char)
    ensures
        final(s)@ == old(s)@.push(c),
{
    s.push(c);
}

/// The characters of a text.
pub fn chars_of(s: &str) -> (r: Vec<char>)
    ensures
        r@ == s@,
{
    let mut out: Vec<char> = Vec::new();
    for c in it: s.chars()
        invariant
            out@ == s@.take(it.index()),
            it.seq() == s@,
    {
        out.push(c);
    }
    out
}

/// The text made of the characters from `lo` up to, not including, `hi`.
pub fn text_between(chars: &Vec<char>, lo: usize, hi: usize) -> (r: String)
    requires
        lo <= hi <= chars@.len(),
    ensures
        r@ == chars@.subrange(lo as int, hi as int),
{
    let mut out = String::new();
    let mut i = lo;
    while i < hi
        invariant
            lo <= i <= hi <= chars@.len(),
            out@ == chars@.subrange(lo as int, i as int),
        decreases hi - i,
    {
        push_char(&mut out, chars[i]);
        i += 1;
    }
    out
}

/// The text made of the given characters.
pub fn text_of(chars: &Vec<char>) -> (r: String)
    ensures
        r@ == chars@,
{
    let r = text_between(chars, 0, chars.len());
    assert(chars@.subrange(0, chars@.len() as int) == chars@);
    r
}

/// The text without leading and trailing white space.
pub fn trim(s: &str) -> (r: String)
    ensures
        r@ == trimmed(s@),
{
    let chars = chars_of(s);
    let mut lo: usize = 0;
    assert(s@.skip(0) == s@);
    while lo < chars.len() && is_white_space(chars[lo])
        invariant
            chars@ == s@,
            lo <= chars@.len(),
            trim_start(s@) == trim_start(s@.skip(lo as int)),
        ensures
            lo <= chars@.len(),
            trim_start(s@) == s@.skip(lo as int),
        decreases chars.len() - lo,
    {
        assert(s@.skip(lo as int).skip(1) == s@.skip(lo + 1));
        lo += 1;
    }
    let ghost rest = s@.skip(lo as int);
    let mut hi: usize = chars.len();
    assert(s@.subrange(lo as int, hi as int) == rest);
    while hi > lo && is_white_space(chars[hi - 1])
        invariant
            chars@ == s@,
            lo <= hi <= chars@.len(),
            trim_end(rest) == trim_end(s@.subrange(lo as int, hi as int)),
        ensures
            lo <= hi <= chars@.len(),
            trim_end(rest) == s@.subrange(lo as int, hi as int),
        decreases hi,
    {
        assert(s@.subrange(lo as int, hi as int).drop_last() == s@.subrange(lo as int, hi - 1));
        hi -= 1;
    }
    text_between(&chars, lo, hi)
}

/// Whether the text is empty up to white space.
pub fn blank(s: &str) -> (r: bool)
    ensures
        r == is_blank(s@),
{
    trim(s).as_str().is_empty()
}

/// The ASCII lower-case form of a character.
pub fn lower_char(c: char) -> (r: char)
    ensures
        r == ascii_lower(c),
{
    if 'A' <= c && c <= 'Z' {
        ((c as u8) + 32) as char
    } else {
        c
    }
}

/// The text with its ASCII letters in lower case.
pub fn to_ascii_lower(s: &str) -> (r: String)
    ensures
        r@ == s@.map_values(|c: char| ascii_lower(c)),
{
    let chars = chars_of(s);
    let mut out = String::new();
    let mut i: usize = 0;
    while i < chars.len()
        invariant
            chars@ == s@,
            i <= chars@.len(),
            out@ == s@.take(i as int).map_values(|c: char| ascii_lower(c)),
        decreases chars.len() - i,
    {
        push_char(&mut out, lower_char(chars[i]));
        i += 1;
    }
    assert(s@.take(i as int) == s@);
    out
}

/// Equality up to the case of ASCII letters.
pub fn same_ignoring_ascii_case(a: &str, b: &str) -> (r: bool)
    ensures
        r == equal_ignoring_ascii_case(a@, b@),
{
    to_ascii_lower(a) == to_ascii_lower(b)
}

/// Whether the text begins with `prefix`.
pub fn starts_with(s: &str, prefix: &str) -> (r: bool)
    ensures
        r == begins_with(s@, prefix@),
{
    match strip_prefix(s, prefix) {
        Some(_) => true,
        None => false,
    }
}

/// What follows `prefix` in a text that begins with it.
pub fn strip_prefix(s: &str, prefix: &str) -> (r: Option<String>)
    ensures
        opt_text(r) == if begins_with(s@, prefix@) {
            Some(s@.skip(prefix@.len() as int))
        } else {
            None
        },
{
    let chars = chars_of(s);
    let head = chars_of(prefix);
    if head.len() > chars.len() {
        return None;
    }
    let start = text_between(&chars, 0, head.len());
    if same(start.as_str(), prefix) {
        let r = text_between(&chars, head.len(), chars.len());
        assert(r@ == s@.skip(prefix@.len() as int));
        Some(r)
    } else {
        None
    }
}

/// The part before the first `sep`, or nothing where there is no `sep`.
pub fn head_before(s: &str, sep: char) -> (r: Option<String>)
    ensures
        opt_text(r) == match cut(s@, sep) {
            Some((head, _)) => Some(head),
            None => None,
        },
{
    let chars = chars_of(s);
    let mut i: usize = 0;
    assert(s@.skip(0) == s@);
    while i < chars.len()
        invariant
            chars@ == s@,
            i <= chars@.len(),
            match cut(s@, sep) {
                Some((head, _)) => cut(s@.skip(i as int), sep) is Some && head == s@.take(i as int)
                    + (cut(s@.skip(i as int), sep)->0).0,
                None => cut(s@.skip(i as int), sep) is None,
            },
        decreases chars.len() - i,
    {
        if chars[i] == sep {
            assert((cut(s@.skip(i as int), sep)->0).0 == Seq::<char>::empty());
            let r = text_between(&chars, 0, i);
            assert(r@ == s@.take(i as int) + Seq::<char>::empty());
            return Some(r);
        }
        assert(s@.skip(i as int).skip(1) == s@.skip(i + 1));
        assert(s@.take(i + 1) == s@.take(i as int) + seq![s@[i as int]]);
        i += 1;
    }
    None
}

/// The parts between the occurrences of `sep`.
pub fn split(s: &str, sep: char) -> (r: Vec<String>)
    ensures
        texts(r@) == pieces(s@, sep),
        r@.len() > 0,
{
    let chars = chars_of(s);
    let mut out: Vec<String> = Vec::new();
    let mut current = String::new();
    let mut i: usize = 0;
    assert(s@.take(0) == Seq::<char>::empty());
    assert(texts(out@).push(current@) == pieces(s@.take(0), sep));
    while i < chars.len()
        invariant
            chars@ == s@,
            i <= chars@.len(),
            texts(out@).push(current@) == pieces(s@.take(i as int), sep),
        decreases chars.len() - i,
    {
        let c = chars[i];
        let ghost before = pieces(s@.take(i as int), sep);
        assert(s@.take(i + 1).drop_last() == s@.take(i as int));
        assert(before.drop_last() == texts(out@));
        assert(before.last() == current@);
        if c == sep {
            let ghost old_out = out@;
            out.push(current);
            assert(texts(out@) == before);
            current = String::new();
        } else {
            push_char(&mut current, c);
        }
        i += 1;
    }
    assert(s@.take(i as int) == s@);
    let ghost done = texts(out@).push(current@);
    out.push(current);
    assert(texts(out@) == done);
    out
}

/// The texts one behind the other, with `sep` between neighbours.
pub fn join(parts: &Vec<String>, sep: &str) -> (r: String)
    ensures
        r@ == joined(texts(parts@), sep@),
{
    let mut out = String::new();
    let mut i: usize = 0;
    while i < parts.len()
        invariant
            i <= parts@.len(),
            out@ == joined(texts(parts@).take(i as int), sep@),
        decreases parts.len() - i,
    {
        assert(texts(parts@).take(i + 1).drop_last() == texts(parts@).take(i as int));
        if i > 0 {
            out.append(sep);
        }
        out.append(parts[i].as_str());
        i += 1;
    }
    assert(texts(parts@).take(i as int) == texts(parts@));
    out
}

/// The text with every occurrence of one character replaced by another.
pub fn replace_char(s: &str, from: char, to: char) -> (r: String)
    ensures
        r@ == with_char_replaced(s@, from, to),
{
    let chars = chars_of(s);
    let mut out = String::new();
    let mut i: usize = 0;
    while i < chars.len()
        invariant
            chars@ == s@,
            i <= chars@.len(),
            out@ == with_char_replaced(s@.take(i as int), from, to),
        decreases chars.len() - i,
    {
        let c = chars[i];
        push_char(&mut out, if c == from { to } else { c });
        i += 1;
    }
    assert(s@.take(i as int) == s@);
    out
}

/// Whether the characters from `at` on begin with those of `token`.
fn matches_at(chars: &Vec<char>, at: usize, token: &Vec<char>) -> (r: bool)
    requires
        at <= chars@.len(),
    ensures
        r == begins_with(chars@.skip(at as int), token@),
{
    let count = chars.len();
    if count - at < token.len() {
        return false;
    }
    let mut j: usize = 0;
    while j < token.len()
        invariant
            at <= count == chars@.len(),
            token@.len() <= chars@.len() - at,
            j <= token@.len(),
            forall|k: int| 0 <= k < j ==> chars@[at + k] == #[trigger] token@[k],
        decreases token.len() - j,
    {
        if chars[at + j] != token[j] {
            assert(chars@.skip(at as int).take(token@.len() as int)[j as int] != token@[j as int]);
            return false;
        }
        j += 1;
    }
    assert(chars@.skip(at as int).take(token@.len() as int) == token@);
    true
}

/// The text with the occurrences of `token`, from left to right and without
/// overlap, replaced by `value`.
pub fn replace_token(s: &str, token: &str, value: &str) -> (r: String)
    ensures
        r@ == with_token_replaced(s@, token@, value@),
{
    let chars = chars_of(s);
    let pattern = chars_of(token);
    let mut out = String::new();
    if pattern.len() == 0 {
        return s.to_owned();
    }
    let mut i: usize = 0;
    assert(s@.skip(0) == s@);
    while i < chars.len()
        invariant
            chars@ == s@,
            pattern@ == token@,
            token@.len() > 0,
            i <= chars@.len(),
            with_token_replaced(s@, token@, value@) == out@ + with_token_replaced(
                s@.skip(i as int),
                token@,
                value@,
            ),
        decreases chars.len() - i,
    {
        let ghost done = out@;
        if matches_at(&chars, i, &pattern) {
            assert(s@.skip(i as int).skip(token@.len() as int) == s@.skip(i + token@.len()));
            out.append(value);
            i += pattern.len();
        } else {
            assert(s@.skip(i as int).skip(1) == s@.skip(i + 1));
            push_char(&mut out, chars[i]);
            assert(with_token_replaced(s@.skip(i as int), token@, value@) == seq![s@[i as int]]
                + with_token_replaced(s@.skip(i + 1), token@, value@));
            i += 1;
        }
        assert(with_token_replaced(s@, token@, value@) == out@ + with_token_replaced(
            s@.skip(i as int),
            token@,
            value@,
        ));
    }
    out
}

/// Whether one text comes before another in code point order.
pub fn less(a: &str, b: &str) -> (r: bool)
    ensures
        r == precedes(a@, b@),
{
    let x = chars_of(a);
    let y = chars_of(b);
    let mut i: usize = 0;
    assert(a@.skip(0) == a@ && b@.skip(0) == b@);
    while i < x.len() && i < y.len()
        invariant
            x@ == a@,
            y@ == b@,
            i <= x@.len(),
            i <= y@.len(),
            precedes(a@, b@) == precedes(a@.skip(i as int), b@.skip(i as int)),
        decreases x.len() - i,
    {
        if x[i] != y[i] {
            return x[i] < y[i];
        }
        assert(a@.skip(i as int).skip(1) == a@.skip(i + 1));
        assert(b@.skip(i as int).skip(1) == b@.skip(i + 1));
        i += 1;
    }
    i < y.len()
}

/// A number in decimal notation.
pub fn number_text(n: usize) -> (r: String)
    ensures
        r@ == decimal(n as nat),
    decreases n,
{
    if n < 10 {
        let mut out = String::new();
        push_char(&mut out, (48 + n as u8) as char);
        assert(out@ == seq![digit(n as nat)]);
        out
    } else {
        let mut out = number_text(n / 10);
        push_char(&mut out, (48 + (n % 10) as u8) as char);
        out
    }
}

/// The digits from `from` on as a number, where they are digits and do not exceed `limit`.
fn digits_from(chars: &Vec<char>, from: usize, limit: u64) -> (r: Option<u64>)
    requires
        from <= chars@.len(),
    ensures
        r == {
            let rest = chars@.skip(from as int);
            if all_digits(rest) && digits_value(rest) <= limit {
                Some(digits_value(rest) as u64)
            } else {
                None
            }
        },
{
    let ghost rest = chars@.skip(from as int);
    if from == chars.len() {
        return None;
    }
    let mut value: u64 = 0;
    let mut i = from;
    assert(rest.take(0) == Seq::<char>::empty());
    while i < chars.len()
        invariant
            from <= i <= chars@.len(),
            from < chars@.len(),
            rest == chars@.skip(from as int),
            value <= limit,
            value == digits_value(rest.take(i - from)),
            forall|k: int| 0 <= k < i - from ==> '0' <= #[trigger] rest[k] <= '9',
        decreases chars.len() - i,
    {
        let c = chars[i];
        assert(rest[i - from] == c);
        if c < '0' || '9' < c {
            return None;
        }
        let d: u64 = (c as u32 - 48) as u64;
        assert(rest.take(i + 1 - from).drop_last() == rest.take(i - from));
        proof {
            lemma_digits_grow(rest, i + 1 - from);
        }
        if value > (u64::MAX - d) / 10 {
            return None;
        }
        value = value * 10 + d;
        if value > limit {
            return None;
        }
        i += 1;
    }
    assert(rest.take(i - from) == rest);
    Some(value)
}

/// A longer run of digits denotes no smaller number.
proof fn lemma_digits_grow(s: Seq<char>, n: int)
    requires
        0 <= n <= s.len(),
    ensures
        all_digits(s) ==> digits_value(s.take(n)) <= digits_value(s),
    decreases s.len() - n,
{
    if n == s.len() {
        assert(s.take(n) == s);
    } else if all_digits(s) {
        lemma_digits_grow(s, n + 1);
        assert(s.take(n + 1).drop_last() == s.take(n));
        assert('0' <= s[n] <= '9');
    }
}

/// The `i64` that the text denotes, as `str::parse` reads it.
pub fn parse_i64(s: &str) -> (r: Option<i64>)
    ensures
        r == match i64_value(s@) {
            Some(n) => Some(n as i64),
            None => None,
        },
{
    let chars = chars_of(s);
    if chars.len() > 0 && chars[0] == '-' {
        match digits_from(&chars, 1, 0x8000_0000_0000_0000) {
            Some(n) => {
                if n == 0x8000_0000_0000_0000 {
                    Some(i64::MIN)
                } else {
                    Some(-(n as i64))
                }
            },
            None => None,
        }
    } else if chars.len() > 0 && chars[0] == '+' {
        match digits_from(&chars, 1, 0x7fff_ffff_ffff_ffff) {
            Some(n) => Some(n as i64),
            None => None,
        }
    } else {
        assert(s@.skip(0) == s@);
        match digits_from(&chars, 0, 0x7fff_ffff_ffff_ffff) {
            Some(n) => Some(n as i64),
            None => None,
        }
    }
}

/// The `usize` that the text denotes, as `str::parse` reads it.
pub fn parse_usize(s: &str) -> (r: Option<usize>)
    ensures
        r == match usize_value(s@) {
            Some(n) => Some(n as usize),
            None => None,
        },
{
    let chars = chars_of(s);
    let from: usize = if chars.len() > 0 && chars[0] == '+' {
        1
    } else {
        0
    };
    assert(s@.skip(0) == s@);
    match digits_from(&chars, from, u64::MAX) {
        Some(n) => if n <= usize::MAX as u64 {
            Some(n as usize)
        } else {
            None
        },
        None => None,
    }
}

/// Two lower-case hexadecimal digits for each byte.
pub fn encode_hex(bytes: &[u8]) -> (r: String)
    ensures
        r@ == hex(bytes@),
{
    let mut out = String::new();
    let mut i: usize = 0;
    while i < bytes.len()
        invariant
            i <= bytes@.len(),
            out@ == hex(bytes@.take(i as int)),
        decreases bytes.len() - i,
    {
        let b = bytes[i];
        assert(bytes@.take(i + 1).drop_last() == bytes@.take(i as int));
        push_char(&mut out, hex_char(b / 16));
        push_char(&mut out, hex_char(b % 16));
        i += 1;
    }
    assert(bytes@.take(i as int) == bytes@);
    out
}

fn hex_char(n: u8) -> (r: char)
    requires
        n < 16,
    ensures
        r == hex_digit(n as nat),
{
    if n < 10 {
        (48 + n) as char
    } else {
        (87 + n) as char
    }
}

/// Two texts, one behind the other.
pub fn cat(a: &str, b: &str) -> (r: String)
    ensures
        r@ == a@ + b@,
{
    let mut out = a.to_owned();
    out.append(b);
    out
}

/// Three texts, one behind the other.
pub fn cat3(a: &str, b: &str, c: &str) -> (r: String)
    ensures
        r@ == a@ + b@ + c@,
{
    let mut out = cat(a, b);
    out.append(c);
    out
}

/// Five texts, one behind the other.
pub fn cat5(a: &str, b: &str, c: &str, d: &str, e: &str) -> (r: String)
    ensures
        r@ == a@ + b@ + c@ + d@ + e@,
{
    let mut out = cat3(a, b, c);
    out.append(d);
    out.append(e);
    out
}

/// Whether a list holds a text.
pub fn contains_text(list: &Vec<String>, text: &str) -> (r: bool)
    ensures
        r == texts(list@).contains(text@),
{
    let mut i: usize = 0;
    while i < list.len()
        invariant
            i <= list@.len(),
            forall|k: int| 0 <= k < i ==> #[trigger] list@[k]@ != text@,
        decreases list.len() - i,
    {
        if same(list[i].as_str(), text) {
            assert(texts(list@)[i as int] == text@);
            return true;
        }
        i += 1;
    }
    assert forall|k: int| 0 <= k < texts(list@).len() implies texts(list@)[k] != text@ by {
        assert(texts(list@)[k] == list@[k]@);
    }
    false
}

/// A copy of an optional text.
pub fn copy_opt(text: &Option<String>) -> (r: Option<String>)
    ensures
        r == *text,
{
    match text {
        Some(s) => Some(s.clone()),
        None => None,
    }
}

/// A copy of a list of texts.
pub fn copy_texts(list: &Vec<String>) -> (r: Vec<String>)
    ensures
        r@ == list@,
{
    let mut out: Vec<String> = Vec::new();
    let mut i: usize = 0;
    while i < list.len()
        invariant
            i <= list@.len(),
            out@ == list@.take(i as int),
        decreases list.len() - i,
    {
        out.push(list[i].clone());
        i += 1;
    }
    assert(list@.take(i as int) == list@);
    out
}

/// No text comes before itself.
pub proof fn lemma_precedes_irreflexive(a: Seq<char>)
    ensures
        !precedes(a, a),
    decreases a.len(),
{
    if a.len() > 0 {
        lemma_precedes_irreflexive(a.skip(1));
    }
}

/// The order of texts is transitive.
pub proof fn lemma_precedes_transitive(a: Seq<char>, b: Seq<char>, c: Seq<char>)
    requires
        precedes(a, b),
        precedes(b, c),
    ensures
        precedes(a, c),
    decreases a.len(),
{
    if a.len() > 0 && a[0] == b[0] && b[0] == c[0] {
        lemma_precedes_transitive(a.skip(1), b.skip(1), c.skip(1));
    }
}

/// Of two different texts one comes before the other.
pub proof fn lemma_precedes_total(a: Seq<char>, b: Seq<char>)
    requires
        a != b,
    ensures
        precedes(a, b) || precedes(b, a),
    decreases a.len(),
{
    if a.len() == 0 {
        if b.len() == 0 {
            assert(a =~= b);
        }
    } else if b.len() > 0 && a[0] == b[0] {
        if a.skip(1) == b.skip(1) {
            assert(a =~= seq![a[0]] + a.skip(1));
            assert(b =~= seq![b[0]] + b.skip(1));
        } else {
            lemma_precedes_total(a.skip(1), b.skip(1));
        }
    }
}

proof fn lemma_hex_len(bytes: Seq<u8>)
    ensures
        hex(bytes).len() == 2 * bytes.len(),
    decreases bytes.len(),
{
    if bytes.len() > 0 {
        lemma_hex_len(bytes.drop_last());
    }
}

/// Different bytes are shown differently.
pub proof fn law_hex_tells_bytes_apart(a: Seq<u8>, b: Seq<u8>)
    requires
        hex(a) == hex(b),
    ensures
        a == b,
    decreases a.len(),
{
    lemma_hex_len(a);
    lemma_hex_len(b);
    if a.len() > 0 {
        let shown = hex(a);
        let (x, y) = (a.last(), b.last());
        assert(shown[shown.len() - 1] == hex_digit((x % 16) as nat));
        assert(shown[shown.len() - 1] == hex_digit((y % 16) as nat));
        assert(shown[shown.len() - 2] == hex_digit((x / 16) as nat));
        assert(shown[shown.len() - 2] == hex_digit((y / 16) as nat));
        assert(x % 16 == y % 16 && x / 16 == y / 16);
        assert(hex(a.drop_last()) =~= shown.take(shown.len() - 2));
        assert(hex(b.drop_last()) =~= shown.take(shown.len() - 2));
        law_hex_tells_bytes_apart(a.drop_last(), b.drop_last());
        assert(a =~= a.drop_last().push(x));
        assert(b =~= b.drop_last().push(y));
    } else {
        assert(a =~= b);
    }
}

/// Blanks, tabs and line ends are white space; no other character that is printed in
/// ASCII is.
pub proof fn law_white_space(c: char)
    ensures
        c == ' ' || c == '\t' || c == '\n' || c == '\r' ==> white_space(c),
        '!' <= c <= '~' ==> !white_space(c),
{
}

proof fn lemma_trim_start(s: Seq<char>) -> (from: int)
    ensures
        0 <= from <= s.len(),
        trim_start(s) == s.skip(from),
        forall|i: int| 0 <= i < from ==> white_space(#[trigger] s[i]),
        from < s.len() ==> !white_space(s[from]),
    decreases s.len(),
{
    if s.len() > 0 && white_space(s[0]) {
        let rest = s.skip(1);
        let from = lemma_trim_start(rest);
        assert(rest.skip(from) =~= s.skip(from + 1));
        assert forall|i: int| 0 <= i < from + 1 implies white_space(#[trigger] s[i]) by {
            if i > 0 {
                assert(rest[i - 1] == s[i]);
            }
        }
        from + 1
    } else {
        assert(s.skip(0) =~= s);
        0
    }
}

proof fn lemma_trim_end(s: Seq<char>) -> (to: int)
    ensures
        0 <= to <= s.len(),
        trim_end(s) == s.take(to),
        forall|i: int| to <= i < s.len() ==> white_space(#[trigger] s[i]),
        to > 0 ==> !white_space(s[to - 1]),
    decreases s.len(),
{
    if s.len() > 0 && white_space(s.last()) {
        let rest = s.drop_last();
        let to = lemma_trim_end(rest);
        assert(rest.take(to) =~= s.take(to));
        assert forall|i: int| to <= i < s.len() implies white_space(#[trigger] s[i]) by {
            if i < rest.len() {
                assert(rest[i] == s[i]);
            }
        }
        to
    } else {
        assert(s.take(s.len() as int) =~= s);
        s.len() as int
    }
}

/// What is left of a trimmed text is one part of it. All that was cut off on either
/// side is white space, and what is left neither begins nor ends with any.
pub proof fn law_trimmed(s: Seq<char>)
    ensures
        exists|from: int, to: int|
            0 <= from <= to <= s.len() && trimmed(s) == #[trigger] s.subrange(from, to) && (forall|
                i: int,
            |
                0 <= i < from || to <= i < s.len() ==> white_space(#[trigger] s[i])),
        trimmed(s).len() > 0 ==> !white_space(trimmed(s)[0]) && !white_space(trimmed(s).last()),
        is_blank(s) <==> forall|i: int| 0 <= i < s.len() ==> white_space(#[trigger] s[i]),
{
    let from = lemma_trim_start(s);
    let rest = s.skip(from);
    let to = lemma_trim_end(rest);
    assert(rest.take(to) =~= s.subrange(from, from + to));
    assert forall|i: int| 0 <= i < from || from + to <= i < s.len() implies white_space(
        #[trigger] s[i],
    ) by {
        if i >= from + to {
            assert(rest[i - from] == s[i]);
        }
    }
    if to > 0 {
        assert(rest[to - 1] == s[from + to - 1]);
        assert(rest[0] == s[from]);
        assert(!white_space(s[from]));
    }
}

/// Trimming a text once more changes nothing.
pub proof fn law_trimmed_once(s: Seq<char>)
    ensures
        trimmed(trimmed(s)) == trimmed(s),
{
    law_trimmed(s);
    let t = trimmed(s);
    if t.len() > 0 {
        assert(trim_start(t) == t);
        assert(trim_end(t) == t);
    }
}

/// The upper case letters of ASCII are taken to the lower case letter at the same
/// place of the alphabet, and nothing else is changed.
pub proof fn law_ascii_lower(c: char)
    ensures
        'A' <= c <= 'Z' ==> ascii_lower(c) as u32 == c as u32 + 32 && 'a' <= ascii_lower(c) <= 'z',
        !('A' <= c <= 'Z') ==> ascii_lower(c) == c,
        ascii_lower(ascii_lower(c)) == ascii_lower(c),
{
}

/// Two texts are equal up to the case of ASCII letters if and only if they are of one
/// length and have at each place the same character, or the same letter in another
/// case.
pub proof fn law_equal_ignoring_ascii_case(a: Seq<char>, b: Seq<char>)
    ensures
        equal_ignoring_ascii_case(a, b) <==> a.len() == b.len() && forall|i: int|
            0 <= i < a.len() ==> {
                ||| #[trigger] a[i] == b[i]
                ||| 'A' <= a[i] <= 'Z' && b[i] as u32 == a[i] as u32 + 32
                ||| 'A' <= b[i] <= 'Z' && a[i] as u32 == b[i] as u32 + 32
            },
        equal_ignoring_ascii_case(a, b) <==> equal_ignoring_ascii_case(b, a),
{
    let lower = |c: char| ascii_lower(c);
    let x = a.map_values(lower);
    let y = b.map_values(lower);
    if x == y {
        assert(x.len() == y.len());
        assert forall|i: int| 0 <= i < a.len() implies {
            ||| #[trigger] a[i] == b[i]
            ||| 'A' <= a[i] <= 'Z' && b[i] as u32 == a[i] as u32 + 32
            ||| 'A' <= b[i] <= 'Z' && a[i] as u32 == b[i] as u32 + 32
        } by {
            assert(x[i] == y[i]);
        }
    }
    if a.len() == b.len() && forall|i: int|
        0 <= i < a.len() ==> {
            ||| #[trigger] a[i] == b[i]
            ||| 'A' <= a[i] <= 'Z' && b[i] as u32 == a[i] as u32 + 32
            ||| 'A' <= b[i] <= 'Z' && a[i] as u32 == b[i] as u32 + 32
        } {
        assert forall|i: int| 0 <= i < x.len() implies x[i] == y[i] by {
            assert(a[i] == a[i]);
        }
        assert(x =~= y);
    }
}

/// A text of ASCII characters is put in lower case character by character.
pub proof fn law_lowercase_of_ascii(s: Seq<char>)
    requires
        forall|i: int| 0 <= i < s.len() ==> (#[trigger] s[i] as u32) < 128,
    ensures
        lowercase(s).len() == s.len(),
        forall|i: int|
            0 <= i < s.len() ==> if 'A' <= s[i] <= 'Z' {
                (#[trigger] lowercase(s)[i]) as u32 == s[i] as u32 + 32
            } else {
                lowercase(s)[i] == s[i]
            },
{
}

/// A text begins with another if and only if it is that one and some rest.
pub proof fn law_begins_with(s: Seq<char>, prefix: Seq<char>)
    ensures
        begins_with(s, prefix) <==> exists|rest: Seq<char>| s == #[trigger] (prefix + rest),
{
    if begins_with(s, prefix) {
        assert(s =~= prefix + s.skip(prefix.len() as int));
    }
    assert forall|rest: Seq<char>| s == #[trigger] (prefix + rest) implies begins_with(
        s,
        prefix,
    ) by {
        assert(s.take(prefix.len() as int) =~= prefix);
    }
}

/// A text is cut at the first separator: what is before it, the separator and what is
/// behind it are the text, and there is no separator in what is before it. A text
/// without a separator is not cut.
pub proof fn law_cut(s: Seq<char>, sep: char)
    ensures
        match cut(s, sep) {
            Some((head, tail)) => s == head + seq![sep] + tail && !head.contains(sep),
            None => !s.contains(sep),
        },
    decreases s.len(),
{
    if s.len() > 0 {
        if s[0] == sep {
            assert(s =~= Seq::<char>::empty() + seq![sep] + s.skip(1));
        } else {
            let rest = s.skip(1);
            law_cut(rest, sep);
            assert(s =~= seq![s[0]] + rest);
            match cut(rest, sep) {
                Some((head, tail)) => {
                    let longer = seq![s[0]] + head;
                    assert(s =~= longer + seq![sep] + tail);
                    assert forall|i: int| 0 <= i < longer.len() implies longer[i] != sep by {
                        if i > 0 {
                            assert(longer[i] == head[i - 1]);
                            assert(head.contains(head[i - 1]));
                        }
                    }
                },
                None => {
                    assert forall|i: int| 0 <= i < s.len() implies s[i] != sep by {
                        if i > 0 {
                            assert(s[i] == rest[i - 1]);
                            assert(rest.contains(rest[i - 1]));
                        }
                    }
                },
            }
        }
    }
}

/// The pieces of a text hold no separator, and with the separator between them they
/// are the text again.
pub proof fn law_pieces(s: Seq<char>, sep: char)
    ensures
        pieces(s, sep).len() > 0,
        joined(pieces(s, sep), seq![sep]) == s,
        forall|i: int| 0 <= i < pieces(s, sep).len() ==> !(#[trigger] pieces(s, sep)[i]).contains(sep),
    decreases s.len(),
{
    let all = pieces(s, sep);
    if s.len() == 0 {
        assert(joined(all, seq![sep]) =~= s);
    } else {
        let front = s.drop_last();
        let rest = pieces(front, sep);
        law_pieces(front, sep);
        assert(s =~= front.push(s.last()));
        if s.last() == sep {
            assert(all.drop_last() =~= rest);
            assert(joined(all, seq![sep]) =~= joined(rest, seq![sep]) + seq![sep]);
            assert(joined(all, seq![sep]) =~= s);
        } else {
            assert(all.drop_last() =~= rest.drop_last());
            if rest.len() == 1 {
                assert(joined(all, seq![sep]) =~= s);
            } else {
                assert(joined(all, seq![sep]) =~= joined(rest.drop_last(), seq![sep]) + seq![sep]
                    + rest.last().push(s.last()));
                assert(joined(rest, seq![sep]) =~= joined(rest.drop_last(), seq![sep]) + seq![sep]
                    + rest.last());
                assert(joined(all, seq![sep]) =~= joined(rest, seq![sep]).push(s.last()));
            }
            let last = rest.last().push(s.last());
            assert(!rest.last().contains(sep));
            assert forall|i: int| 0 <= i < last.len() implies last[i] != sep by {
                if i < rest.last().len() {
                    assert(rest.last().contains(rest.last()[i]));
                }
            }
            assert forall|i: int| 0 <= i < all.len() implies !(#[trigger] all[i]).contains(
                sep,
            ) by {
                if i < all.len() - 1 {
                    assert(all[i] == rest[i]);
                }
            }
        }
    }
}

/// Joining more parts puts a separator and those parts behind the others.
pub proof fn law_joined(first: Seq<Seq<char>>, behind: Seq<Seq<char>>, sep: Seq<char>)
    ensures
        joined(seq![], sep).len() == 0,
        first.len() == 1 ==> joined(first, sep) == first[0],
        first.len() > 0 && behind.len() > 0 ==> joined(first + behind, sep) == joined(first, sep)
            + sep + joined(behind, sep),
    decreases behind.len(),
{
    if first.len() > 0 && behind.len() > 0 {
        let all = first + behind;
        assert(all.last() == behind.last());
        assert(all.drop_last() =~= first + behind.drop_last());
        if behind.len() == 1 {
            assert(all.drop_last() =~= first);
        } else {
            law_joined(first, behind.drop_last(), sep);
            assert(joined(all, sep) =~= joined(first, sep) + sep + joined(behind, sep));
        }
    }
}

/// Every character that is to be replaced is, in its place, and no other is.
pub proof fn law_char_replaced(s: Seq<char>, from: char, to: char)
    ensures
        with_char_replaced(s, from, to).len() == s.len(),
        forall|i: int|
            0 <= i < s.len() ==> #[trigger] with_char_replaced(s, from, to)[i] == if s[i] == from {
                to
            } else {
                s[i]
            },
        from != to ==> !with_char_replaced(s, from, to).contains(from),
{
}

/// A text in which a token does not stand keeps as it is. Where it stands first
/// behind a part, the part stays, the value comes in its place, and the rest is
/// treated alike.
pub proof fn law_token_replaced(
    part: Seq<char>,
    token: Seq<char>,
    rest: Seq<char>,
    value: Seq<char>,
)
    requires
        token.len() > 0,
        forall|i: int|
            0 <= i < part.len() ==> !begins_with((#[trigger] (part + token + rest).skip(i)), token),
    ensures
        with_token_replaced(part + token + rest, token, value) == part + value
            + with_token_replaced(rest, token, value),
    decreases part.len(),
{
    let all = part + token + rest;
    if part.len() == 0 {
        assert(all =~= token + rest);
        assert(all.take(token.len() as int) =~= token);
        assert(all.skip(token.len() as int) =~= rest);
        assert(part + value =~= value);
    } else {
        assert(all.skip(0) =~= all);
        assert(!begins_with(all, token));
        let fewer = part.skip(1);
        let behind = fewer + token + rest;
        assert(all.skip(1) =~= behind);
        assert forall|i: int| 0 <= i < fewer.len() implies !begins_with(
            (#[trigger] behind.skip(i)),
            token,
        ) by {
            assert(behind.skip(i) =~= all.skip(i + 1));
        }
        law_token_replaced(fewer, token, rest, value);
        assert(with_token_replaced(all, token, value) =~= part + value + with_token_replaced(
            rest,
            token,
            value,
        ));
    }
}

/// A text in which a token does not stand stays as it is.
pub proof fn law_no_token_no_change(s: Seq<char>, token: Seq<char>, value: Seq<char>)
    requires
        forall|i: int| 0 <= i < s.len() ==> !begins_with((#[trigger] s.skip(i)), token),
    ensures
        with_token_replaced(s, token, value) == s,
    decreases s.len(),
{
    if token.len() > 0 && s.len() >= token.len() {
        assert(s.skip(0) =~= s);
        let rest = s.skip(1);
        assert forall|i: int| 0 <= i < rest.len() implies !begins_with(
            (#[trigger] rest.skip(i)),
            token,
        ) by {
            assert(rest.skip(i) =~= s.skip(i + 1));
        }
        law_no_token_no_change(rest, token, value);
        assert(s =~= seq![s[0]] + rest);
    }
}

/// One text comes before another if and only if it is a part of it from the start
/// with more behind it, or has the lower character at the first place where they
/// differ.
pub proof fn law_order_of_texts(a: Seq<char>, b: Seq<char>, shared: int)
    requires
        0 <= shared <= a.len(),
        shared <= b.len(),
        a.take(shared) == b.take(shared),
        shared < a.len() && shared < b.len() ==> a[shared] != b[shared],
    ensures
        precedes(a, b) <==> shared < b.len() && (shared == a.len() || a[shared] < b[shared]),
    decreases shared,
{
    if shared > 0 {
        assert(a[0] == a.take(shared)[0] && b[0] == b.take(shared)[0]);
        assert(a.skip(1).take(shared - 1) =~= a.take(shared).skip(1));
        assert(b.skip(1).take(shared - 1) =~= b.take(shared).skip(1));
        law_order_of_texts(a.skip(1), b.skip(1), shared - 1);
    }
}

proof fn lemma_digits_of(n: nat)
    ensures
        all_digits(decimal(n)),
        digits_value(decimal(n)) == n,
        decimal(n)[0] == '0' ==> n == 0,
    decreases n,
{
    reveal_with_fuel(digits_value, 2);
    if n < 10 {
        let s = decimal(n);
        assert(s.drop_last() =~= Seq::empty());
        assert(digits_value(s) == n);
    } else {
        let front = decimal(n / 10);
        lemma_digits_of(n / 10);
        let s = decimal(n);
        assert(s.drop_last() =~= front);
        assert(s.last() as u32 == 48 + n % 10);
        assert forall|i: int| 0 <= i < s.len() implies '0' <= #[trigger] s[i] <= '9' by {
            if i < front.len() {
                assert(s[i] == front[i]);
            }
        }
        assert(s[0] == front[0]);
    }
}

/// A number's digits, read as an integer, are that number, with a sign or without.
/// They begin with no zero that is not the number itself.
pub proof fn law_decimal_is_read_back(n: nat)
    ensures
        integer_value(decimal(n)) == Some(n as int),
        integer_value(seq!['-'] + decimal(n)) == Some(-(n as int)),
        integer_value(seq!['+'] + decimal(n)) == Some(n as int),
        decimal(n)[0] == '0' ==> n == 0 && decimal(n).len() == 1,
{
    let s = decimal(n);
    lemma_digits_of(n);
    assert('0' <= s[0] <= '9');
    assert((seq!['-'] + s).skip(1) =~= s);
    assert((seq!['+'] + s).skip(1) =~= s);
}

/// One more digit makes ten times the number and the digit.
pub proof fn law_integers_are_decimal(s: Seq<char>, d: char)
    ensures
        all_digits(s) && '0' <= d <= '9' ==> integer_value(s.push(d)) == Some(
            integer_value(s)->0 * 10 + (d as int - 48),
        ),
        '0' <= d <= '9' ==> integer_value(seq![d]) == Some(d as int - 48),
        integer_value(s) is Some <==> all_digits(s) || (s.len() > 0 && (s[0] == '-' || s[0] == '+')
            && all_digits(s.skip(1))),
        integer_value(s) is Some && s[0] == '-' ==> integer_value(s)->0 == -integer_value(
            s.skip(1),
        )->0,
        integer_value(s) is Some && s[0] == '+' ==> integer_value(s) == integer_value(s.skip(1)),
{
    reveal_with_fuel(digits_value, 2);
    if all_digits(s) {
        assert('0' <= s[0] <= '9');
        if '0' <= d <= '9' {
            let more = s.push(d);
            assert(more.drop_last() =~= s);
            assert forall|i: int| 0 <= i < more.len() implies '0' <= #[trigger] more[i] <= '9' by {
                if i < s.len() {
                    assert(more[i] == s[i]);
                }
            }
        }
    }
    if '0' <= d <= '9' {
        let one = seq![d];
        assert(one.drop_last() =~= Seq::empty());
        assert(all_digits(one));
    }
    if s.len() > 0 && all_digits(s.skip(1)) {
        let rest = s.skip(1);
        assert('0' <= rest[0] <= '9');
    }
}

/// What is read is within the range of the type that it is read for, and everything
/// within the range is read.
pub proof fn law_integers_in_range(s: Seq<char>, n: int)
    ensures
        i64_value(s) == Some(n) <==> integer_value(s) == Some(n) && -0x8000_0000_0000_0000 <= n
            <= 0x7fff_ffff_ffff_ffff,
        usize_value(s) == Some(n) <==> integer_value(s) == Some(n) && 0 <= n <= usize::MAX && s[0]
            != '-',
{
}

/// The bytes of a text in hexadecimal are two lower case digits each, the high one
/// first.
pub proof fn law_hex_digits(bytes: Seq<u8>, i: int)
    requires
        0 <= i < bytes.len(),
    ensures
        hex(bytes).len() == 2 * bytes.len(),
        hex(bytes)[2 * i] == "0123456789abcdef"@[bytes[i] as int / 16],
        hex(bytes)[2 * i + 1] == "0123456789abcdef"@[bytes[i] as int % 16],
    decreases bytes.len(),
{
    reveal_strlit("0123456789abcdef");
    lemma_hex_len(bytes);
    let front = bytes.drop_last();
    lemma_hex_len(front);
    if i < front.len() {
        law_hex_digits(front, i);
    }
}

} // verus!
