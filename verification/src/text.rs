//! Text primitives that the rest of the library is stated over: substring
//! search, lower-casing, trimming, line splitting, joining and the decimal
//! and hexadecimal notation of integers.

use vstd::prelude::*;
use vstd::string::StringExecFns;
use crate::base64::string_from_utf8;

verus! {

/// `needle` occurs in `hay` as a contiguous run of characters.
pub open spec fn is_substring(needle: Seq<char>, hay: Seq<char>) -> bool {
    exists|i: int|
        0 <= i && i + needle.len() <= hay.len() && #[trigger] hay.subrange(i, i + needle.len())
            == needle
}

/// The lower-case form of a string, by the Unicode mapping of `str::to_lowercase`.
pub uninterp spec fn lowercase_of(s: Seq<char>) -> Seq<char>;

/// Whether the character is white space: one of the characters with the
/// Unicode property `White_Space`.
pub open spec fn is_white_space(c: char) -> bool {
    let v = c as u32;
    ||| 0x09 <= v <= 0x0D
    ||| v == 0x20
    ||| v == 0x85
    ||| v == 0xA0
    ||| v == 0x1680
    ||| 0x2000 <= v <= 0x200A
    ||| v == 0x2028
    ||| v == 0x2029
    ||| v == 0x202F
    ||| v == 0x205F
    ||| v == 0x3000
}

/// A string without its leading white space.
pub open spec fn trimmed_start(s: Seq<char>) -> Seq<char>
    decreases s.len(),
{
    if s.len() > 0 && is_white_space(s[0]) {
        trimmed_start(s.drop_first())
    } else {
        s
    }
}

/// A string without its trailing white space.
pub open spec fn trimmed_end(s: Seq<char>) -> Seq<char>
    decreases s.len(),
{
    if s.len() > 0 && is_white_space(s.last()) {
        trimmed_end(s.drop_last())
    } else {
        s
    }
}

/// A string without its leading and trailing white space.
pub open spec fn trimmed_of(s: Seq<char>) -> Seq<char> {
    trimmed_end(trimmed_start(s))
}

/// The index of the first line feed in `s`, or the length of `s` if it has none.
pub open spec fn first_newline(s: Seq<char>) -> int
    decreases s.len(),
{
    if s.len() == 0 || s[0] == '\n' {
        0
    } else {
        1 + first_newline(s.drop_first())
    }
}

/// A line without the carriage return that stood before its line feed.
pub open spec fn without_cr(line: Seq<char>) -> Seq<char> {
    if line.len() > 0 && line.last() == '\r' {
        line.drop_last()
    } else {
        line
    }
}

/// The lines of a text: split at each line feed, a carriage return before a
/// line feed dropped with it, and no empty line after a final line feed.
pub open spec fn split_lines(s: Seq<char>) -> Seq<Seq<char>>
    decreases s.len(),
{
    if s.len() == 0 {
        seq![]
    } else {
        let i = first_newline(s);
        if i < 0 || i >= s.len() {
            seq![s]
        } else {
            seq![without_cr(s.take(i))] + split_lines(s.skip(i + 1))
        }
    }
}

/// The characters of an optional string.
pub open spec fn opt_view(o: Option<String>) -> Option<Seq<char>> {
    match o {
        Some(s) => Some(s@),
        None => None,
    }
}

/// The characters of an optional string slice.
pub open spec fn opt_str_view(o: Option<&str>) -> Option<Seq<char>> {
    match o {
        Some(s) => Some(s@),
        None => None,
    }
}

/// The character sequences of a sequence of strings.
pub open spec fn strs(v: Seq<String>) -> Seq<Seq<char>> {
    Seq::new(v.len(), |i: int| v[i]@)
}

/// The parts with `sep` between each two neighbours.
pub open spec fn join_spec(parts: Seq<Seq<char>>, sep: Seq<char>) -> Seq<char>
    decreases parts.len(),
{
    if parts.len() == 0 {
        seq![]
    } else if parts.len() == 1 {
        parts[0]
    } else {
        join_spec(parts.drop_last(), sep) + sep + parts.last()
    }
}

/// The first `n` items of a sequence, or all of it if it is shorter.
pub open spec fn first_n<T>(s: Seq<T>, n: nat) -> Seq<T> {
    if s.len() <= n {
        s
    } else {
        s.take(n as int)
    }
}

/// `s` with every occurrence of `from` replaced by `to`, found from the left
/// and not overlapping.
pub open spec fn replace_all(s: Seq<char>, from: Seq<char>, to: Seq<char>) -> Seq<char>
    recommends
        from.len() > 0,
    decreases s.len(),
{
    if from.len() == 0 || s.len() < from.len() {
        s
    } else if s.take(from.len() as int) == from {
        to + replace_all(s.skip(from.len() as int), from, to)
    } else {
        seq![s[0]] + replace_all(s.skip(1), from, to)
    }
}

/// `str::replace` of std with a string pattern that is not empty: every
/// match of the pattern, from the left, gives way to the replacement.
#[verifier::external_body]
pub(crate) fn replace(s: &str, from: &str, to: &str) -> (r: String)
    requires
        from@.len() > 0,
    ensures
        r@ == replace_all(s@, from@, to@),
{
    s.replace(from, to)
}

/// `str::contains` of std with a string pattern: whether the pattern matches
/// a sub-slice of the string.
#[verifier::external_body]
pub(crate) fn contains(hay: &str, needle: &str) -> (r: bool)
    ensures
        r == is_substring(needle@, hay@),
{
    hay.contains(needle)
}

/// `str::to_lowercase` of std: the result is a function of the characters alone.
#[verifier::external_body]
pub(crate) fn to_lowercase(s: &str) -> (r: String)
    ensures
        r@ == lowercase_of(s@),
{
    s.to_lowercase()
}

/// `str::trim` of std: the string without its leading and trailing white
/// space, which is what Unicode gives the property `White_Space`.
#[verifier::external_body]
pub(crate) fn trim(s: &str) -> (r: String)
    ensures
        r@ == trimmed_of(s@),
{
    s.trim().to_string()
}

/// `str::lines` of std, each line handed out as a `String`.
#[verifier::external_body]
pub(crate) fn lines(s: &str) -> (r: Vec<String>)
    ensures
        strs(r@) == split_lines(s@),
{
    s.lines().map(|l| l.to_string()).collect()
}

/// Joins the parts with `sep` between them.
pub fn join(parts: &Vec<String>, sep: &str) -> (r: String)
    ensures
        r@ == join_spec(strs(parts@), sep@),
{
    let mut out = String::new();
    let mut i: usize = 0;
    while i < parts.len()
        invariant
            i <= parts@.len(),
            out@ == join_spec(strs(parts@).take(i as int), sep@),
        decreases parts@.len() - i,
    {
        let ghost before = strs(parts@).take(i as int);
        let ghost after = strs(parts@).take(i + 1);
        proof {
            assert(after.drop_last() =~= before);
            assert(after.last() == parts@[i as int]@);
        }
        if i > 0 {
            out.append(sep);
        }
        out.append(parts[i].as_str());
        proof {
            if i == 0 {
                assert(Seq::<char>::empty() + parts@[0]@ =~= parts@[0]@);
            }
        }
        i += 1;
    }
    proof {
        assert(strs(parts@).take(i as int) =~= strs(parts@));
    }
    out
}

/// `line` holds at least one of the markers.
pub open spec fn contains_any(line: Seq<char>, markers: Seq<Seq<char>>) -> bool {
    exists|k: int| 0 <= k < markers.len() && is_substring(#[trigger] markers[k], line)
}

/// The lines that hold one of the markers, each trimmed, in their order.
pub open spec fn marked_lines(lines: Seq<Seq<char>>, markers: Seq<Seq<char>>) -> Seq<Seq<char>>
    decreases lines.len(),
{
    if lines.len() == 0 {
        seq![]
    } else if contains_any(lines.last(), markers) {
        marked_lines(lines.drop_last(), markers).push(trimmed_of(lines.last()))
    } else {
        marked_lines(lines.drop_last(), markers)
    }
}

/// The lines that hold none of the markers, unchanged, in their order.
pub open spec fn unmarked_lines(lines: Seq<Seq<char>>, markers: Seq<Seq<char>>) -> Seq<Seq<char>>
    decreases lines.len(),
{
    if lines.len() == 0 {
        seq![]
    } else if contains_any(lines.last(), markers) {
        unmarked_lines(lines.drop_last(), markers)
    } else {
        unmarked_lines(lines.drop_last(), markers).push(lines.last())
    }
}

/// Whether `line` holds at least one of the markers.
pub fn holds_any(line: &str, markers: &Vec<String>) -> (r: bool)
    ensures
        r == contains_any(line@, strs(markers@)),
{
    let mut k: usize = 0;
    while k < markers.len()
        invariant
            k <= markers@.len(),
            forall|j: int| 0 <= j < k ==> !is_substring(#[trigger] strs(markers@)[j], line@),
        decreases markers@.len() - k,
    {
        if contains(line, markers[k].as_str()) {
            assert(is_substring(strs(markers@)[k as int], line@));
            return true;
        }
        k += 1;
    }
    false
}

/// The trimmed lines that hold one of the markers.
pub fn select_marked(lines: &Vec<String>, markers: &Vec<String>) -> (r: Vec<String>)
    ensures
        strs(r@) == marked_lines(strs(lines@), strs(markers@)),
{
    let mut out: Vec<String> = Vec::new();
    let mut i: usize = 0;
    while i < lines.len()
        invariant
            i <= lines@.len(),
            strs(out@) == marked_lines(strs(lines@).take(i as int), strs(markers@)),
        decreases lines@.len() - i,
    {
        proof {
            assert(strs(lines@).take(i + 1).drop_last() =~= strs(lines@).take(i as int));
        }
        if holds_any(lines[i].as_str(), markers) {
            let ghost prev = strs(out@);
            out.push(trim(lines[i].as_str()));
            proof {
                assert(strs(out@) =~= prev.push(trimmed_of(lines@[i as int]@)));
            }
        }
        i += 1;
    }
    proof {
        assert(strs(lines@).take(i as int) =~= strs(lines@));
    }
    out
}

/// The lines that hold none of the markers.
pub fn select_unmarked(lines: &Vec<String>, markers: &Vec<String>) -> (r: Vec<String>)
    ensures
        strs(r@) == unmarked_lines(strs(lines@), strs(markers@)),
{
    let mut out: Vec<String> = Vec::new();
    let mut i: usize = 0;
    while i < lines.len()
        invariant
            i <= lines@.len(),
            strs(out@) == unmarked_lines(strs(lines@).take(i as int), strs(markers@)),
        decreases lines@.len() - i,
    {
        proof {
            assert(strs(lines@).take(i + 1).drop_last() =~= strs(lines@).take(i as int));
        }
        if !holds_any(lines[i].as_str(), markers) {
            let ghost prev = strs(out@);
            out.push(lines[i].clone());
            proof {
                assert(strs(out@) =~= prev.push(lines@[i as int]@));
            }
        }
        i += 1;
    }
    proof {
        assert(strs(lines@).take(i as int) =~= strs(lines@));
    }
    out
}

/// A copy of the first `n` strings, or of all of them if there are fewer.
pub fn take_first(v: &Vec<String>, n: usize) -> (r: Vec<String>)
    ensures
        r@ == first_n(v@, n as nat),
        strs(r@) == first_n(strs(v@), n as nat),
{
    let mut out: Vec<String> = Vec::new();
    let mut i: usize = 0;
    while i < v.len() && i < n
        invariant
            i <= v@.len(),
            i <= n,
            out@ == v@.take(i as int),
        decreases v@.len() - i,
    {
        out.push(v[i].clone());
        proof {
            assert(out@ =~= v@.take(i + 1));
        }
        i += 1;
    }
    proof {
        assert(v@.take(v@.len() as int) =~= v@);
        assert(strs(out@) =~= first_n(strs(v@), n as nat));
    }
    out
}

/// The index of the first byte equal to `b`, if there is one.
pub open spec fn first_index(s: Seq<u8>, b: u8) -> Option<int>
    decreases s.len(),
{
    if s.len() == 0 {
        None
    } else if s[0] == b {
        Some(0)
    } else {
        match first_index(s.drop_first(), b) {
            Some(i) => Some(i + 1),
            None => None,
        }
    }
}

/// The index of the last byte equal to `b`, if there is one.
pub open spec fn last_index(s: Seq<u8>, b: u8) -> Option<int>
    decreases s.len(),
{
    if s.len() == 0 {
        None
    } else if s.last() == b {
        Some(s.len() - 1)
    } else {
        last_index(s.drop_last(), b)
    }
}

/// The index of the first byte equal to `b`.
pub fn find_first(bytes: &[u8], b: u8) -> (r: Option<usize>)
    ensures
        match r {
            Some(i) => first_index(bytes@, b) == Some(i as int) && i < bytes@.len(),
            None => first_index(bytes@, b) is None,
        },
{
    let mut i: usize = 0;
    proof {
        assert(bytes@.skip(0) =~= bytes@);
    }
    while i < bytes.len()
        invariant
            i <= bytes@.len(),
            first_index(bytes@, b) == match first_index(bytes@.skip(i as int), b) {
                Some(k) => Some(k + i),
                None => None,
            },
        decreases bytes@.len() - i,
    {
        proof {
            assert(bytes@.skip(i as int)[0] == bytes@[i as int]);
            assert(bytes@.skip(i as int).drop_first() =~= bytes@.skip(i + 1));
        }
        if bytes[i] == b {
            return Some(i);
        }
        i += 1;
    }
    None
}

/// The index of the last byte equal to `b`.
pub fn find_last(bytes: &[u8], b: u8) -> (r: Option<usize>)
    ensures
        match r {
            Some(i) => last_index(bytes@, b) == Some(i as int) && i < bytes@.len(),
            None => last_index(bytes@, b) is None,
        },
{
    let mut j: usize = bytes.len();
    proof {
        assert(bytes@.take(j as int) =~= bytes@);
    }
    while j > 0
        invariant
            j <= bytes@.len(),
            last_index(bytes@, b) == last_index(bytes@.take(j as int), b),
        decreases j,
    {
        proof {
            assert(bytes@.take(j as int).last() == bytes@[j - 1]);
            assert(bytes@.take(j as int).drop_last() =~= bytes@.take(j - 1));
        }
        if bytes[j - 1] == b {
            return Some(j - 1);
        }
        j -= 1;
    }
    None
}

/// A copy of the bytes from `from` up to, not including, `to`.
pub fn copy_range(bytes: &[u8], from: usize, to: usize) -> (r: Vec<u8>)
    requires
        from <= to <= bytes@.len(),
    ensures
        r@ == bytes@.subrange(from as int, to as int),
{
    let mut out: Vec<u8> = Vec::new();
    let mut i: usize = from;
    while i < to
        invariant
            from <= i <= to,
            to <= bytes@.len(),
            out@ == bytes@.subrange(from as int, i as int),
        decreases to - i,
    {
        out.push(bytes[i]);
        proof {
            assert(out@ =~= bytes@.subrange(from as int, i + 1));
        }
        i += 1;
    }
    out
}

/// The bytes from the first opening brace to the last closing brace, or
/// all bytes when one of the two is missing or the last closing brace
/// stands before the first opening one.
pub open spec fn json_span(bytes: Seq<u8>) -> Seq<u8> {
    match (first_index(bytes, 123u8), last_index(bytes, 125u8)) {
        (Some(a), Some(b)) => if a <= b {
            bytes.subrange(a, b + 1)
        } else {
            bytes
        },
        _ => bytes,
    }
}

/// The JSON text inside a model's answer, which may stand in a code fence
/// or between other words: the span between the braces.
pub open spec fn json_part_of(text: Seq<char>) -> Seq<char> {
    let span = json_span(vstd::utf8::encode_utf8(text));
    if vstd::utf8::valid_utf8(span) {
        vstd::utf8::decode_utf8(span)
    } else {
        text
    }
}

/// The JSON text inside a model's answer.
pub fn json_part(result: &str) -> (r: String)
    ensures
        r@ == json_part_of(result@),
{
    let bytes = result.as_bytes();
    let n = bytes.len();
    let span = match find_first(bytes, 123u8) {
        Some(a) => match find_last(bytes, 125u8) {
            Some(b) => {
                if a <= b && b < n {
                    Some(copy_range(bytes, a, b + 1))
                } else {
                    None
                }
            },
            None => None,
        },
        None => None,
    };
    match span {
        Some(v) => match string_from_utf8(v) {
            Some(t) => t,
            None => String::from_str(result),
        },
        None => {
            proof {
                vstd::utf8::encode_utf8_valid_utf8(result@);
                vstd::utf8::encode_utf8_decode_utf8(result@);
            }
            String::from_str(result)
        },
    }
}

/// The decimal notation of an integer, with a minus sign if it is negative.
pub open spec fn int_text(n: int) -> Seq<char> {
    if n < 0 {
        "-"@ + decimal_text((-n) as nat)
    } else {
        decimal_text(n as nat)
    }
}

/// The character of a digit below 16, in lower-case hexadecimal.
pub open spec fn digit_char(d: nat) -> char
    recommends
        d < 16,
{
    if d == 0 {
        '0'
    } else if d == 1 {
        '1'
    } else if d == 2 {
        '2'
    } else if d == 3 {
        '3'
    } else if d == 4 {
        '4'
    } else if d == 5 {
        '5'
    } else if d == 6 {
        '6'
    } else if d == 7 {
        '7'
    } else if d == 8 {
        '8'
    } else if d == 9 {
        '9'
    } else if d == 10 {
        'a'
    } else if d == 11 {
        'b'
    } else if d == 12 {
        'c'
    } else if d == 13 {
        'd'
    } else if d == 14 {
        'e'
    } else {
        'f'
    }
}

/// The decimal notation of `n`, without leading zeros.
pub open spec fn decimal_text(n: nat) -> Seq<char>
    decreases n,
{
    if n < 10 {
        seq![digit_char(n)]
    } else {
        decimal_text(n / 10).push(digit_char(n % 10))
    }
}

/// The lower-case hexadecimal notation of `n`, without leading zeros.
pub open spec fn hex_text(n: nat) -> Seq<char>
    decreases n,
{
    if n < 16 {
        seq![digit_char(n)]
    } else {
        hex_text(n / 16).push(digit_char(n % 16))
    }
}

/// Whether the character is one of the ten decimal digits.
pub open spec fn is_digit_char(c: char) -> bool {
    c == '0' || c == '1' || c == '2' || c == '3' || c == '4' || c == '5' || c == '6' || c == '7'
        || c == '8' || c == '9'
}

/// Decimal notation is not empty and holds digits only.
pub proof fn lemma_decimal_digits(n: nat)
    ensures
        decimal_text(n).len() >= 1,
        forall|i: int| 0 <= i < decimal_text(n).len() ==> is_digit_char(#[trigger] decimal_text(n)[i]),
        n >= 10 ==> decimal_text(n).len() >= 2,
    decreases n,
{
    if n >= 10 {
        lemma_decimal_digits(n / 10);
    }
}

/// Different numbers have different decimal notations.
pub proof fn lemma_decimal_injective(a: nat, b: nat)
    requires
        decimal_text(a) == decimal_text(b),
    ensures
        a == b,
    decreases a,
{
    lemma_decimal_digits(a);
    lemma_decimal_digits(b);
    if a < 10 && b < 10 {
        assert(decimal_text(a)[0] == digit_char(a));
        assert(decimal_text(b)[0] == digit_char(b));
    } else if a >= 10 && b >= 10 {
        let x = decimal_text(a / 10);
        let y = decimal_text(b / 10);
        assert(x.push(digit_char(a % 10)).drop_last() =~= x);
        assert(y.push(digit_char(b % 10)).drop_last() =~= y);
        assert(x.push(digit_char(a % 10)).last() == digit_char(a % 10));
        assert(y.push(digit_char(b % 10)).last() == digit_char(b % 10));
        lemma_decimal_injective(a / 10, b / 10);
    } else {
        assert(decimal_text(a).len() != decimal_text(b).len());
    }
}

fn digit_str(d: u64) -> (r: &'static str)
    requires
        d < 16,
    ensures
        r@ == seq![digit_char(d as nat)],
{
    proof {
        reveal_strlit("0");
        reveal_strlit("1");
        reveal_strlit("2");
        reveal_strlit("3");
        reveal_strlit("4");
        reveal_strlit("5");
        reveal_strlit("6");
        reveal_strlit("7");
        reveal_strlit("8");
        reveal_strlit("9");
        reveal_strlit("a");
        reveal_strlit("b");
        reveal_strlit("c");
        reveal_strlit("d");
        reveal_strlit("e");
        reveal_strlit("f");
    }
    let r = if d == 0 {
        "0"
    } else if d == 1 {
        "1"
    } else if d == 2 {
        "2"
    } else if d == 3 {
        "3"
    } else if d == 4 {
        "4"
    } else if d == 5 {
        "5"
    } else if d == 6 {
        "6"
    } else if d == 7 {
        "7"
    } else if d == 8 {
        "8"
    } else if d == 9 {
        "9"
    } else if d == 10 {
        "a"
    } else if d == 11 {
        "b"
    } else if d == 12 {
        "c"
    } else if d == 13 {
        "d"
    } else if d == 14 {
        "e"
    } else {
        "f"
    };
    assert(r@ =~= seq![digit_char(d as nat)]);
    r
}

/// The decimal notation of `n`.
pub fn decimal(n: u64) -> (r: String)
    ensures
        r@ == decimal_text(n as nat),
    decreases n,
{
    if n < 10 {
        String::from_str(digit_str(n))
    } else {
        let mut out = decimal(n / 10);
        out.append(digit_str(n % 10));
        proof {
            let head = decimal_text((n / 10) as nat);
            assert(head + seq![digit_char((n % 10) as nat)] =~= head.push(
                digit_char((n % 10) as nat),
            ));
        }
        out
    }
}

/// The lower-case hexadecimal notation of `n`.
pub fn hex(n: u64) -> (r: String)
    ensures
        r@ == hex_text(n as nat),
    decreases n,
{
    if n < 16 {
        String::from_str(digit_str(n))
    } else {
        let mut out = hex(n / 16);
        out.append(digit_str(n % 16));
        proof {
            let head = hex_text((n / 16) as nat);
            assert(head + seq![digit_char((n % 16) as nat)] =~= head.push(
                digit_char((n % 16) as nat),
            ));
        }
        out
    }
}

/// The decimal notation of a signed integer.
pub fn signed_decimal(n: i32) -> (r: String)
    ensures
        r@ == int_text(n as int),
{
    if n < 0 {
        let magnitude: u64 = (0 - (n as i64)) as u64;
        let mut out = String::from_str("-");
        let digits = decimal(magnitude);
        out.append(digits.as_str());
        out
    } else {
        decimal(n as u64)
    }
}

} // verus!
