//! Text helpers over the characters of a string.

use vstd::prelude::*;
use vstd::string::StringExecFns;
use vstd::utf8::is_ascii_chars;

verus! {

/// `String::push` appends the given character to the end of the string.
pub assume_specification[ String::push ](s: &mut String, c: char)
    ensures
        final(s)@ == old(s)@.push(c),
;

/// The characters of `s`, in order.
pub fn chars_of(s: &str) -> (r: Vec<char>)
    ensures
        r@ == s@,
{
    let mut out: Vec<char> = Vec::new();
    for c in iter: s.chars()
        invariant
            iter.seq() == s@,
            out@ == s@.take(iter.index() as int),
    {
        out.push(c);
    }
    out
}

/// The text made of the characters `chars[from..to]`.
pub fn text_of(chars: &Vec<char>, from: usize, to: usize) -> (r: String)
    requires
        from <= to <= chars@.len(),
    ensures
        r@ == chars@.subrange(from as int, to as int),
{
    let mut out = String::new();
    let mut i: usize = from;
    while i < to
        invariant
            from <= i <= to <= chars@.len(),
            out@ == chars@.subrange(from as int, i as int),
        decreases to - i,
    {
        out.push(chars[i]);
        i += 1;
        assert(out@ =~= chars@.subrange(from as int, i as int));
    }
    out
}

/// `s` without the characters `c` at its end.
pub open spec fn trim_end_of(s: Seq<char>, c: char) -> Seq<char>
    decreases s.len(),
{
    if s.len() > 0 && s.last() == c {
        trim_end_of(s.drop_last(), c)
    } else {
        s
    }
}

/// Where `n` is the length at which trimming must stop, trimming stops there.
pub proof fn trim_end_stops(s: Seq<char>, c: char, n: int)
    requires
        0 <= n <= s.len(),
        forall|i: int| n <= i < s.len() ==> s[i] == c,
        n > 0 ==> s[n - 1] != c,
    ensures
        trim_end_of(s, c) == s.take(n),
    decreases s.len(),
{
    if s.len() > n {
        trim_end_stops(s.drop_last(), c, n);
        assert(s.drop_last().take(n) =~= s.take(n));
    } else {
        assert(s.take(n) =~= s);
    }
}

/// Drops the characters `c` at the end of `s` (`str::trim_end_matches`).
pub fn trim_end(s: &str, c: char) -> (r: String)
    ensures
        r@ == trim_end_of(s@, c),
{
    let chars = chars_of(s);
    let mut n: usize = chars.len();
    while n > 0 && chars[n - 1] == c
        invariant
            n <= chars@.len(),
            chars@ == s@,
            forall|i: int| n <= i < s@.len() ==> s@[i] == c,
        decreases n,
    {
        n -= 1;
    }
    proof {
        trim_end_stops(s@, c, n as int);
    }
    text_of(&chars, 0, n)
}

/// `a` followed by `b`.
pub fn joined(a: &str, b: &str) -> (r: String)
    ensures
        r@ == a@ + b@,
{
    let mut out = a.to_owned();
    out.append(b);
    out
}

/// Whether two texts are the same.
pub fn same_text(a: &str, b: &str) -> (r: bool)
    ensures
        r == (a@ == b@),
{
    a.to_owned() == b.to_owned()
}

/// What follows `prefix` in `s`, where `s` starts with it.
pub open spec fn after_prefix(s: Seq<char>, prefix: Seq<char>) -> Option<Seq<char>> {
    if s.len() >= prefix.len() && s.take(prefix.len() as int) == prefix {
        Some(s.skip(prefix.len() as int))
    } else {
        None
    }
}

/// Strips `prefix` from the start of `s` (`str::strip_prefix`).
pub fn strip_prefix(s: &str, prefix: &str) -> (r: Option<String>)
    ensures
        match r {
            Some(rest) => after_prefix(s@, prefix@) == Some(rest@),
            None => after_prefix(s@, prefix@) is None,
        },
{
    let chars = chars_of(s);
    let wanted = chars_of(prefix);
    if chars.len() < wanted.len() {
        return None;
    }
    let mut i: usize = 0;
    while i < wanted.len()
        invariant
            i <= wanted@.len() <= chars@.len(),
            wanted@ == prefix@,
            chars@ == s@,
            forall|j: int| 0 <= j < i ==> chars@[j] == wanted@[j],
        decreases wanted@.len() - i,
    {
        if chars[i] != wanted[i] {
            assert(s@.take(prefix@.len() as int)[i as int] != prefix@[i as int]);
            return None;
        }
        i += 1;
    }
    assert(s@.take(prefix@.len() as int) =~= prefix@);
    let rest = text_of(&chars, wanted.len(), chars.len());
    assert(rest@ =~= s@.skip(prefix@.len() as int));
    Some(rest)
}

/// Whether `needle` stands in `hay` at position `at`.
pub open spec fn stands_at(hay: Seq<char>, needle: Seq<char>, at: int) -> bool {
    &&& 0 <= at
    &&& at + needle.len() <= hay.len()
    &&& hay.subrange(at, at + needle.len()) == needle
}

/// Whether `needle` is a part of `hay`.
pub open spec fn has_part(hay: Seq<char>, needle: Seq<char>) -> bool {
    exists|at: int| stands_at(hay, needle, at)
}

fn matches_at(hay: &Vec<char>, needle: &Vec<char>, at: usize) -> (r: bool)
    requires
        at + needle@.len() <= hay@.len(),
    ensures
        r == stands_at(hay@, needle@, at as int),
{
    let hay_len: usize = hay.len();
    let mut i: usize = 0;
    while i < needle.len()
        invariant
            i <= needle@.len(),
            hay_len == hay@.len(),
            at + needle@.len() <= hay_len,
            forall|j: int| 0 <= j < i ==> hay@[at + j] == needle@[j],
        decreases needle@.len() - i,
    {
        if hay[at + i] != needle[i] {
            assert(hay@.subrange(at as int, at + needle@.len())[i as int] != needle@[i as int]);
            return false;
        }
        i += 1;
    }
    assert(hay@.subrange(at as int, at + needle@.len()) =~= needle@);
    true
}

/// Substring search (`str::contains`).
pub fn contains(hay: &str, needle: &str) -> (r: bool)
    ensures
        r == has_part(hay@, needle@),
{
    let hay_chars = chars_of(hay);
    let needle_chars = chars_of(needle);
    if needle_chars.len() > hay_chars.len() {
        return false;
    }
    let last: usize = hay_chars.len() - needle_chars.len();
    let mut at: usize = 0;
    while !matches_at(&hay_chars, &needle_chars, at)
        invariant
            at <= last,
            last == hay_chars@.len() - needle_chars@.len(),
            hay_chars@ == hay@,
            needle_chars@ == needle@,
            forall|j: int| 0 <= j < at ==> !stands_at(hay@, needle@, j),
        decreases last - at,
    {
        if at == last {
            return false;
        }
        at += 1;
    }
    true
}

/// The part of `s` before the first `c`, or all of it.
pub open spec fn before_char(s: Seq<char>, c: char) -> Seq<char>
    decreases s.len(),
{
    if s.len() == 0 || s[0] == c {
        Seq::empty()
    } else {
        seq![s[0]] + before_char(s.drop_first(), c)
    }
}

proof fn before_char_is(s: Seq<char>, c: char, n: int)
    requires
        0 <= n <= s.len(),
        forall|i: int| 0 <= i < n ==> s[i] != c,
        n < s.len() ==> s[n] == c,
    ensures
        before_char(s, c) == s.take(n),
    decreases n,
{
    if n > 0 {
        before_char_is(s.drop_first(), c, n - 1);
        assert(seq![s[0]] + s.drop_first().take(n - 1) =~= s.take(n));
    } else {
        assert(s.take(0) =~= Seq::empty());
    }
}

/// The first piece of `s.split(c)`.
pub fn first_piece(s: &str, c: char) -> (r: String)
    ensures
        r@ == before_char(s@, c),
{
    let chars = chars_of(s);
    let mut n: usize = 0;
    while n < chars.len() && chars[n] != c
        invariant
            n <= chars@.len(),
            chars@ == s@,
            forall|i: int| 0 <= i < n ==> s@[i] != c,
        decreases chars@.len() - n,
    {
        n += 1;
    }
    proof {
        before_char_is(s@, c, n as int);
    }
    let r = text_of(&chars, 0, n);
    assert(r@ =~= s@.take(n as int));
    r
}

/// The characters with the Unicode property White_Space.
pub open spec fn white_space(c: char) -> bool {
    let v = c as int;
    ||| 0x9 <= v <= 0xd
    ||| v == 0x20
    ||| v == 0x85
    ||| v == 0xa0
    ||| v == 0x1680
    ||| 0x2000 <= v <= 0x200a
    ||| v == 0x2028
    ||| v == 0x2029
    ||| v == 0x202f
    ||| v == 0x205f
    ||| v == 0x3000
}

/// `char::is_whitespace`.
pub fn is_white_space(c: char) -> (r: bool)
    ensures
        r == white_space(c),
{
    let v: u32 = c as u32;
    (0x9 <= v && v <= 0xd) || v == 0x20 || v == 0x85 || v == 0xa0 || v == 0x1680 || (0x2000 <= v
        && v <= 0x200a) || v == 0x2028 || v == 0x2029 || v == 0x202f || v == 0x205f || v == 0x3000
}

/// `s` without the white space at its start.
pub open spec fn trim_start_of(s: Seq<char>) -> Seq<char>
    decreases s.len(),
{
    if s.len() > 0 && white_space(s[0]) {
        trim_start_of(s.drop_first())
    } else {
        s
    }
}

/// `s` without the white space at its end.
pub open spec fn trim_tail_of(s: Seq<char>) -> Seq<char>
    decreases s.len(),
{
    if s.len() > 0 && white_space(s.last()) {
        trim_tail_of(s.drop_last())
    } else {
        s
    }
}

/// `s` without the white space around it.
pub open spec fn trimmed(s: Seq<char>) -> Seq<char> {
    trim_tail_of(trim_start_of(s))
}

/// `str::trim`.
pub fn trim(s: &str) -> (r: String)
    ensures
        r@ == trimmed(s@),
{
    let chars = chars_of(s);
    let total: usize = chars.len();
    let mut from: usize = 0;
    assert(s@.skip(0) =~= s@);
    while from < total && is_white_space(chars[from])
        invariant
            from <= total,
            total == chars@.len(),
            chars@ == s@,
            trim_start_of(s@) == trim_start_of(s@.skip(from as int)),
        decreases total - from,
    {
        assert(s@.skip(from as int).drop_first() =~= s@.skip(from + 1));
        from += 1;
    }
    let ghost rest = s@.skip(from as int);
    assert(trim_start_of(s@) == rest);
    let mut to: usize = total;
    assert(rest.take(rest.len() as int) =~= rest);
    while to > from && is_white_space(chars[to - 1])
        invariant
            from <= to <= total,
            total == chars@.len(),
            chars@ == s@,
            rest == s@.skip(from as int),
            trim_tail_of(rest) == trim_tail_of(rest.take(to - from)),
        decreases to,
    {
        assert(rest.take(to - from).drop_last() =~= rest.take(to - from - 1));
        to -= 1;
    }
    let r = text_of(&chars, from, to);
    assert(r@ =~= rest.take(to - from));
    r
}

/// The lower-case form of a text.
pub uninterp spec fn lowercase(s: Seq<char>) -> Seq<char>;

/// The lower-case form of an ASCII character.
pub open spec fn ascii_lower(c: char) -> char {
    if 'A' <= c && c <= 'Z' {
        (c as int + 32) as char
    } else {
        c
    }
}

/// `str::to_lowercase` maps a text to its lower-case form by the Unicode
/// rules; on ASCII text it lowers the letters A to Z.
pub assume_specification[ str::to_lowercase ](s: &str) -> (r: String)
    ensures
        r@ == lowercase(s@),
        is_ascii_chars(s@) ==> r@ == s@.map_values(|c: char| ascii_lower(c)),
;

// -------------------------------- numbers ----------------------------------

/// The digit that stands for `d`.
pub open spec fn digit_char(d: int) -> char {
    (d + 48) as char
}

/// A natural number in decimal.
pub open spec fn digits(n: nat) -> Seq<char>
    decreases n,
{
    if n < 10 {
        seq![digit_char(n as int)]
    } else {
        digits(n / 10).push(digit_char((n % 10) as int))
    }
}

/// An integer in decimal.
pub open spec fn decimal(n: int) -> Seq<char> {
    if n < 0 {
        seq!['-'] + digits((-n) as nat)
    } else {
        digits(n as nat)
    }
}

fn exec_digit(d: u64) -> (r: char)
    requires
        d < 10,
    ensures
        r == digit_char(d as int),
{
    (d as u8 + 48) as char
}

fn push_digits(out: &mut String, n: u64)
    ensures
        final(out)@ == old(out)@ + digits(n as nat),
    decreases n,
{
    if n >= 10 {
        push_digits(out, n / 10);
    }
    out.push(exec_digit(n % 10));
    proof {
        if n < 10 {
            assert(out@ =~= old(out)@ + digits(n as nat));
        } else {
            assert(out@ =~= old(out)@ + digits((n / 10) as nat).push(digit_char((n % 10) as int)));
        }
    }
}

/// An integer in decimal (`to_string`).
pub fn i64_text(n: i64) -> (r: String)
    ensures
        r@ == decimal(n as int),
{
    let mut out = String::new();
    if n < 0 {
        out.push('-');
        let magnitude: u64 = if n == i64::MIN {
            9223372036854775808u64
        } else {
            (-n) as u64
        };
        push_digits(&mut out, magnitude);
        assert(out@ =~= decimal(n as int));
    } else {
        push_digits(&mut out, n as u64);
        assert(out@ =~= decimal(n as int));
    }
    out
}

/// A natural number in decimal (`to_string`).
pub fn u64_text(n: u64) -> (r: String)
    ensures
        r@ == decimal(n as int),
{
    let mut out = String::new();
    push_digits(&mut out, n);
    assert(out@ =~= decimal(n as int));
    out
}

pub open spec fn is_digit(c: char) -> bool {
    '0' <= c && c <= '9'
}

pub open spec fn all_digits(s: Seq<char>) -> bool {
    forall|i: int| 0 <= i < s.len() ==> is_digit(s[i])
}

/// The number that a string of digits stands for.
pub open spec fn digits_value(s: Seq<char>) -> nat
    decreases s.len(),
{
    if s.len() == 0 {
        0
    } else {
        digits_value(s.drop_last()) * 10 + ((s.last() as int - 48) as nat)
    }
}

/// The integer that a text stands for: digits after an optional sign, where
/// only a signed type takes a minus.
pub open spec fn parsed_int(s: Seq<char>, signed: bool) -> Option<int> {
    let minus = signed && s.len() > 0 && s[0] == '-';
    let plus = s.len() > 0 && s[0] == '+';
    let body = if minus || plus {
        s.skip(1)
    } else {
        s
    };
    if body.len() == 0 || !all_digits(body) {
        None
    } else if minus {
        Some(-(digits_value(body) as int))
    } else {
        Some(digits_value(body) as int)
    }
}

/// The integer that a text stands for, where the range holds it.
pub open spec fn parsed_within(s: Seq<char>, signed: bool, min: int, max: int) -> Option<int> {
    match parsed_int(s, signed) {
        Some(v) => if min <= v <= max {
            Some(v)
        } else {
            None
        },
        None => None,
    }
}

proof fn digits_value_grows(s: Seq<char>, n: int)
    requires
        0 <= n <= s.len(),
        all_digits(s),
    ensures
        digits_value(s.take(n)) <= digits_value(s),
    decreases s.len() - n,
{
    if n < s.len() {
        digits_value_grows(s, n + 1);
        assert(s.take(n + 1).drop_last() =~= s.take(n));
    } else {
        assert(s.take(n) =~= s);
    }
}

/// Parses an integer as the standard library does, into a range that 64 bits
/// hold.
fn parse_within(s: &str, signed: bool, min: i128, max: i128) -> (r: Option<i128>)
    requires
        -0x1_0000_0000_0000_0000 < min <= 0,
        0 <= max < 0x1_0000_0000_0000_0000,
    ensures
        match r {
            Some(v) => parsed_within(s@, signed, min as int, max as int) == Some(v as int),
            None => parsed_within(s@, signed, min as int, max as int) is None,
        },
{
    let chars = chars_of(s);
    let total: usize = chars.len();
    let minus = signed && total > 0 && chars[0] == '-';
    let plus = total > 0 && chars[0] == '+';
    let from: usize = if minus || plus {
        1
    } else {
        0
    };
    let ghost body = s@.skip(from as int);
    assert(from == 0 ==> body =~= s@);
    if from == total {
        return None;
    }
    let mut value: i128 = 0;
    let mut i: usize = from;
    assert(body.take(0) =~= Seq::<char>::empty());
    while i < total
        invariant
            from <= i <= total,
            from <= 1,
            from < total,
            total == chars@.len(),
            chars@ == s@,
            body == s@.skip(from as int),
            minus == (signed && s@.len() > 0 && s@[0] == '-'),
            from == (if minus || (s@.len() > 0 && s@[0] == '+') {
                1int
            } else {
                0int
            }),
            from == 0 ==> body == s@,
            -0x1_0000_0000_0000_0000 < min <= 0,
            0 <= max < 0x1_0000_0000_0000_0000,
            all_digits(body.take(i - from)),
            value == digits_value(body.take(i - from)),
            0 <= value < 0x1_0000_0000_0000_0000,
        decreases total - i,
    {
        let c = chars[i];
        assert(body[i - from] == c);
        if c < '0' || c > '9' {
            assert(!is_digit(body[i - from]));
            return None;
        }
        let d: i128 = c as u32 as i128 - 48;
        value = value * 10 + d;
        i += 1;
        assert(body.take(i - from).drop_last() =~= body.take(i - from - 1));
        assert forall|j: int| 0 <= j < i - from implies is_digit(#[trigger] body.take(i - from)[j]) by {
            if j < i - from - 1 {
                assert(body.take(i - from - 1)[j] == body.take(i - from)[j]);
            }
        }
        if value >= 0x1_0000_0000_0000_0000 {
            proof {
                if all_digits(body) {
                    digits_value_grows(body, i - from);
                }
            }
            return None;
        }
    }
    assert(body.take(total - from) =~= body);
    let signed_value: i128 = if minus {
        0 - value
    } else {
        value
    };
    if min <= signed_value && signed_value <= max {
        Some(signed_value)
    } else {
        None
    }
}

/// `str::parse::<i64>`.
pub fn parse_i64(s: &str) -> (r: Option<i64>)
    ensures
        match r {
            Some(v) => parsed_within(s@, true, i64::MIN as int, i64::MAX as int) == Some(v as int),
            None => parsed_within(s@, true, i64::MIN as int, i64::MAX as int) is None,
        },
{
    match parse_within(s, true, -0x8000_0000_0000_0000, 0x7fff_ffff_ffff_ffff) {
        Some(v) => Some(v as i64),
        None => None,
    }
}

/// `str::parse::<u64>`.
pub fn parse_u64(s: &str) -> (r: Option<u64>)
    ensures
        match r {
            Some(v) => parsed_within(s@, false, 0, u64::MAX as int) == Some(v as int),
            None => parsed_within(s@, false, 0, u64::MAX as int) is None,
        },
{
    match parse_within(s, false, 0, 0xffff_ffff_ffff_ffff) {
        Some(v) => Some(v as u64),
        None => None,
    }
}

/// `str::parse::<u16>`.
pub fn parse_u16(s: &str) -> (r: Option<u16>)
    ensures
        match r {
            Some(v) => parsed_within(s@, false, 0, u16::MAX as int) == Some(v as int),
            None => parsed_within(s@, false, 0, u16::MAX as int) is None,
        },
{
    match parse_within(s, false, 0, 0xffff) {
        Some(v) => Some(v as u16),
        None => None,
    }
}

/// `str::parse::<usize>`.
pub fn parse_usize(s: &str) -> (r: Option<usize>)
    ensures
        match r {
            Some(v) => parsed_within(s@, false, 0, usize::MAX as int) == Some(v as int),
            None => parsed_within(s@, false, 0, usize::MAX as int) is None,
        },
{
    match parse_within(s, false, 0, usize::MAX as i128) {
        Some(v) => Some(v as usize),
        None => None,
    }
}

/// A printed number has digits only, and they stand for it.
pub proof fn digits_are_digits(n: nat)
    ensures
        digits(n).len() > 0,
        all_digits(digits(n)),
        digits_value(digits(n)) == n,
    decreases n,
{
    if n < 10 {
        let s = digits(n);
        assert(s.drop_last() =~= Seq::<char>::empty());
        assert(digits_value(s.drop_last()) == 0);
    } else {
        digits_are_digits(n / 10);
        let s = digits(n);
        assert(s.drop_last() =~= digits(n / 10));
    }
}

/// Parsing a printed integer gives the integer back.
pub proof fn parse_undoes_print(n: int, signed: bool)
    requires
        signed || 0 <= n,
    ensures
        parsed_int(decimal(n), signed) == Some(n),
{
    if n < 0 {
        digits_are_digits((-n) as nat);
        assert(decimal(n).skip(1) =~= digits((-n) as nat));
    } else {
        digits_are_digits(n as nat);
        assert(is_digit(decimal(n)[0]));
    }
}

proof fn trim_start_has_no_edge(s: Seq<char>)
    ensures
        trim_start_of(s).len() > 0 ==> !white_space(trim_start_of(s)[0]),
    decreases s.len(),
{
    if s.len() > 0 && white_space(s[0]) {
        trim_start_has_no_edge(s.drop_first());
    }
}

proof fn trim_tail_has_no_edge(s: Seq<char>)
    ensures
        trim_tail_of(s).len() > 0 ==> !white_space(trim_tail_of(s).last()),
        trim_tail_of(s).len() > 0 ==> s.len() > 0 && trim_tail_of(s)[0] == s[0],
    decreases s.len(),
{
    if s.len() > 0 && white_space(s.last()) {
        trim_tail_has_no_edge(s.drop_last());
    }
}

/// A trimmed text neither starts nor ends with white space.
pub proof fn trimmed_has_no_edges(s: Seq<char>)
    ensures
        trimmed(s).len() > 0 ==> !white_space(trimmed(s)[0]) && !white_space(trimmed(s).last()),
{
    trim_start_has_no_edge(s);
    trim_tail_has_no_edge(trim_start_of(s));
}

/// What is left after trimming does not end with the trimmed character.
pub proof fn trim_end_has_no_edge(s: Seq<char>, c: char)
    ensures
        trim_end_of(s, c).len() > 0 ==> trim_end_of(s, c).last() != c,
        trim_end_of(trim_end_of(s, c), c) == trim_end_of(s, c),
    decreases s.len(),
{
    if s.len() > 0 && s.last() == c {
        trim_end_has_no_edge(s.drop_last(), c);
    }
}

} // verus!
