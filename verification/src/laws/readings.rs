//! Laws of texts and of the readings of JSON documents.

use crate::float::{is_nan, scale, significand, truncated};
use crate::json::{double_of_text, lookup, JsonTree, NumberView};
use crate::people::text_before;
use crate::text::{
    after_prefix, all_digits, before_char, decimal, digits_value, is_digit, parse_undoes_print,
    parsed_int, parsed_within, trim_end_of, trim_start_of, trim_tail_of, trimmed, white_space,
};
use vstd::arithmetic::power2::{lemma_pow2_pos, pow2};
use vstd::prelude::*;

verus! {

// --------------------------------- documents -------------------------------

/// Whether some field has a name.
pub open spec fn has_field(fields: Seq<(Seq<char>, JsonTree)>, key: Seq<char>) -> bool {
    exists|i: int| 0 <= i < fields.len() && (#[trigger] fields[i]).0 == key
}

/// A field of an object is found by its name, wherever it stands; of two fields with
/// one name the first is found.
pub proof fn field_is_found_by_its_name(
    before: Seq<(Seq<char>, JsonTree)>,
    key: Seq<char>,
    value: JsonTree,
    after: Seq<(Seq<char>, JsonTree)>,
)
    requires
        !has_field(before, key),
    ensures
        JsonTree::Object(before + seq![(key, value)] + after).field(key) == Some(value),
    decreases before.len(),
{
    let all = before + seq![(key, value)] + after;
    if before.len() == 0 {
        assert(all[0] == (key, value));
    } else {
        let rest = before.drop_first();
        assert(before[0].0 != key);
        assert(!has_field(rest, key)) by {
            if has_field(rest, key) {
                let i = choose|i: int| 0 <= i < rest.len() && (#[trigger] rest[i]).0 == key;
                assert(before[i + 1].0 == key);
            }
        }
        field_is_found_by_its_name(rest, key, value, after);
        assert(all.drop_first() =~= rest + seq![(key, value)] + after);
        assert(all[0] == before[0]);
    }
}

/// A field that an object does not have is not found, and other values have none.
pub proof fn missing_field_is_not_found(v: JsonTree, key: Seq<char>)
    ensures
        v matches JsonTree::Object(fields) ==> (v.field(key) is None <==> !has_field(fields, key)),
        !(v is Object) ==> v.field(key) is None,
{
    if let JsonTree::Object(fields) = v {
        lookup_finds_iff_there(fields, key);
    }
}

proof fn lookup_finds_iff_there(fields: Seq<(Seq<char>, JsonTree)>, key: Seq<char>)
    ensures
        lookup(fields, key) is None <==> !has_field(fields, key),
    decreases fields.len(),
{
    if fields.len() > 0 {
        let rest = fields.drop_first();
        lookup_finds_iff_there(rest, key);
        if has_field(rest, key) {
            let i = choose|i: int| 0 <= i < rest.len() && (#[trigger] rest[i]).0 == key;
            assert(fields[i + 1].0 == key);
        }
        if has_field(fields, key) && fields[0].0 != key {
            let i = choose|i: int| 0 <= i < fields.len() && (#[trigger] fields[i]).0 == key;
            assert(rest[i - 1].0 == key);
        }
        if fields[0].0 == key {
            assert(has_field(fields, key));
        }
    }
}

/// A field is read as what it is: a text, a truth value, a list or a number. Read as
/// something else it is not there.
pub proof fn field_is_read_as_what_it_is(v: JsonTree, key: Seq<char>, x: JsonTree)
    requires
        v.field(key) == Some(x),
    ensures
        x matches JsonTree::Text(s) ==> v.text_field(key) == Some(s) && v.printed_field(key)
            == Some(s),
        !(x is Text) ==> v.text_field(key) is None,
        x matches JsonTree::Number(n) ==> {
            &&& v.printed_field(key) == Some(n.text)
            &&& v.plain_integer_field(key) == n.int
            &&& v.natural_field(key) == n.uint
            &&& v.double_field(key) == n.double
        },
        !(x is Number) ==> v.plain_integer_field(key) is None && v.natural_field(key) is None,
        !(x is Number) && !(x is Text) ==> v.printed_field(key) is None && v.integer_field(key)
            is None && v.double_field(key) is None,
        x matches JsonTree::Text(s) ==> v.double_field(key) == double_of_text(s),
        v.flag(key) <==> x == JsonTree::Bool(true),
        x matches JsonTree::List(items) ==> v.items_or_none(key) == items,
        !(x is List) ==> v.items_or_none(key).len() == 0,
{
}

/// Nothing is read from a field that is not there.
pub proof fn missing_field_reads_as_nothing(v: JsonTree, key: Seq<char>)
    requires
        v.field(key) is None,
    ensures
        v.text_field(key) is None,
        v.printed_field(key) is None,
        v.integer_field(key) is None,
        v.plain_integer_field(key) is None,
        v.natural_field(key) is None,
        v.double_field(key) is None,
        !v.flag(key),
        v.items_or_none(key).len() == 0,
{
}

/// An integer is read as itself, whether it is written as a number or as a text.
pub proof fn integer_is_read_as_itself(v: JsonTree, key: Seq<char>, n: i64)
    ensures
        v.field(key) matches Some(JsonTree::Number(x)) && x.int == Some(n) ==> v.integer_field(key)
            == Some(n),
        v.field(key) == Some(JsonTree::Text(decimal(n as int))) ==> v.integer_field(key) == Some(n),
{
    parse_undoes_print(n as int, true);
}

/// A number that is no integer is read without its fraction.
pub proof fn fraction_is_cut_off(v: JsonTree, key: Seq<char>, x: NumberView, bits: u64)
    requires
        v.field(key) == Some(JsonTree::Number(x)),
        x.int is None,
    ensures
        x.double == Some(bits) ==> v.integer_field(key) == Some(truncated(bits)),
        x.double is None ==> v.integer_field(key) is None,
{
}

/// A double is cut towards zero: where 64 bits hold the result, it is the greatest
/// integer whose absolute value is not above that of the double, with the sign of the
/// double. What is too large becomes the nearest integer that fits, and what is not a
/// number becomes zero.
pub proof fn double_is_cut_towards_zero(bits: u64)
    ensures
        is_nan(bits) ==> truncated(bits) == 0,
        !is_nan(bits) ==> {
            let negative = bits >= 0x8000_0000_0000_0000;
            let size = if negative {
                -truncated(bits)
            } else {
                truncated(bits) as int
            };
            let s = significand(bits) as int;
            &&& size >= 0
            &&& scale(bits) >= 0 ==> size <= s * pow2(scale(bits) as nat)
            &&& scale(bits) < 0 ==> size * pow2((-scale(bits)) as nat) <= s
            &&& truncated(bits) != i64::MAX && truncated(bits) != i64::MIN ==> {
                &&& scale(bits) >= 0 ==> size == s * pow2(scale(bits) as nat)
                &&& scale(bits) < 0 ==> s < (size + 1) * pow2((-scale(bits)) as nat)
            }
            &&& truncated(bits) == i64::MAX ==> !negative
            &&& truncated(bits) == i64::MIN ==> negative
        },
{
    if !is_nan(bits) && scale(bits) < 0 {
        let s = significand(bits) as int;
        let p = pow2((-scale(bits)) as nat) as int;
        lemma_pow2_pos((-scale(bits)) as nat);
        let q = s / p;
        assert(q * p <= s && s < (q + 1) * p && q >= 0 && q <= s) by (nonlinear_arith)
            requires
                p > 0,
                s >= 0,
                q == s / p,
        ;
        assert(s < 0x20_0000_0000_0000);
    } else if !is_nan(bits) {
        let s = significand(bits) as int;
        let p = pow2(scale(bits) as nat) as int;
        lemma_pow2_pos(scale(bits) as nat);
        assert(s * p >= 0) by (nonlinear_arith)
            requires
                s >= 0,
                p > 0,
        ;
    }
}

/// A double is its significand times a power of two, as IEEE 754 lays its bits out:
/// 11 bits of exponent and 52 bits of fraction, where a normal number has a leading
/// one that is not written.
pub proof fn double_is_laid_out_in_bits(exponent: u64, fraction: u64, sign: bool)
    requires
        exponent < 2047,
        fraction < 0x10_0000_0000_0000,
    ensures
        ({
            let bits = (exponent * 0x10_0000_0000_0000 + fraction + (if sign {
                0x8000_0000_0000_0000int
            } else {
                0
            })) as u64;
            &&& !is_nan(bits)
            &&& exponent == 0 ==> significand(bits) == fraction && scale(bits) == -1074
            &&& exponent > 0 ==> significand(bits) == fraction + 0x10_0000_0000_0000 && scale(bits)
                == exponent - 1075
        }),
{
}

/// A text that is no integer is not read as one.
pub proof fn other_text_is_no_integer(v: JsonTree, key: Seq<char>, s: Seq<char>)
    requires
        v.field(key) == Some(JsonTree::Text(s)),
        parsed_int(s, true) matches Some(n) ==> n < i64::MIN || n > i64::MAX,
    ensures
        v.integer_field(key) is None,
{
}

// ----------------------------------- texts ---------------------------------

/// Whether all of a text is white space.
pub open spec fn blank(s: Seq<char>) -> bool {
    forall|i: int| 0 <= i < s.len() ==> white_space(#[trigger] s[i])
}

proof fn start_is_blank(s: Seq<char>)
    ensures
        exists|a: Seq<char>| blank(a) && s == #[trigger] (a + trim_start_of(s)),
    decreases s.len(),
{
    if s.len() > 0 && white_space(s[0]) {
        start_is_blank(s.drop_first());
        let a = choose|a: Seq<char>|
            blank(a) && s.drop_first() == #[trigger] (a + trim_start_of(s.drop_first()));
        let b = seq![s[0]] + a;
        assert(blank(b));
        assert(s =~= seq![s[0]] + s.drop_first());
        assert(seq![s[0]] + (a + trim_start_of(s)) =~= b + trim_start_of(s));
    } else {
        assert(blank(Seq::<char>::empty()));
        assert(s =~= Seq::<char>::empty() + trim_start_of(s));
    }
}

proof fn tail_is_blank(s: Seq<char>)
    ensures
        exists|b: Seq<char>| blank(b) && s == #[trigger] (trim_tail_of(s) + b),
    decreases s.len(),
{
    if s.len() > 0 && white_space(s.last()) {
        tail_is_blank(s.drop_last());
        let b = choose|b: Seq<char>|
            blank(b) && s.drop_last() == #[trigger] (trim_tail_of(s.drop_last()) + b);
        let c = b.push(s.last());
        assert(blank(c));
        assert(s =~= s.drop_last().push(s.last()));
        assert((trim_tail_of(s) + b).push(s.last()) =~= trim_tail_of(s) + c);
    } else {
        assert(blank(Seq::<char>::empty()));
        assert(s =~= trim_tail_of(s) + Seq::<char>::empty());
    }
}

/// Trimming takes white space away at the ends, and nothing else.
pub proof fn trimming_takes_white_space_only(s: Seq<char>)
    ensures
        exists|a: Seq<char>, b: Seq<char>|
            blank(a) && blank(b) && s == #[trigger] (a + trimmed(s) + b),
{
    start_is_blank(s);
    let a = choose|a: Seq<char>| blank(a) && s == #[trigger] (a + trim_start_of(s));
    tail_is_blank(trim_start_of(s));
    let b = choose|b: Seq<char>|
        blank(b) && trim_start_of(s) == #[trigger] (trim_tail_of(trim_start_of(s)) + b);
    assert(s =~= a + trimmed(s) + b);
}

/// White space is the space, the tab, the line ends and the other characters with
/// that property in Unicode, and no other.
pub proof fn white_space_is_that_of_unicode(c: char)
    ensures
        white_space(c) <==> {
            ||| '\t' <= c && c <= '\r'
            ||| c == ' '
            ||| c == '\u{85}'
            ||| c == '\u{a0}'
            ||| c == '\u{1680}'
            ||| '\u{2000}' <= c && c <= '\u{200a}'
            ||| c == '\u{2028}'
            ||| c == '\u{2029}'
            ||| c == '\u{202f}'
            ||| c == '\u{205f}'
            ||| c == '\u{3000}'
        },
{
}

/// Dropping a character at the end takes only that character away, and all of it.
pub proof fn trim_end_drops_one_character(s: Seq<char>, c: char, n: nat)
    requires
        s.len() > 0 ==> s.last() != c,
    ensures
        trim_end_of(s + Seq::new(n, |i: int| c), c) == s,
{
    let all = s + Seq::new(n, |i: int| c);
    crate::text::trim_end_stops(all, c, s.len() as int);
    assert(all.take(s.len() as int) =~= s);
}

/// What follows a prefix is found where the text starts with it, and only there.
pub proof fn prefix_is_followed_by_the_rest(s: Seq<char>, prefix: Seq<char>, rest: Seq<char>)
    ensures
        after_prefix(prefix + rest, prefix) == Some(rest),
        after_prefix(s, prefix) == Some(rest) ==> s == prefix + rest,
{
    assert((prefix + rest).take(prefix.len() as int) =~= prefix);
    assert((prefix + rest).skip(prefix.len() as int) =~= rest);
    if after_prefix(s, prefix) == Some(rest) {
        assert(s =~= prefix + rest);
    }
}

/// The piece before a character is all that stands before its first occurrence, and
/// the whole text where it does not occur.
pub proof fn piece_ends_at_the_first_occurrence(piece: Seq<char>, c: char, rest: Seq<char>)
    requires
        !piece.contains(c),
    ensures
        before_char(piece + seq![c] + rest, c) == piece,
        before_char(piece, c) == piece,
    decreases piece.len(),
{
    let all = piece + seq![c] + rest;
    if piece.len() > 0 {
        assert(piece[0] != c) by {
            if piece[0] == c {
                assert(piece.contains(c));
            }
        }
        let less = piece.drop_first();
        assert(!less.contains(c)) by {
            if less.contains(c) {
                let i = choose|i: int| 0 <= i < less.len() && less[i] == c;
                assert(piece[i + 1] == c);
            }
        }
        piece_ends_at_the_first_occurrence(less, c, rest);
        assert(all[0] == piece[0]);
        assert(all.drop_first() =~= less + seq![c] + rest);
        assert(seq![piece[0]] + less =~= piece);
    } else {
        assert(all[0] == c);
    }
}

/// Texts stand in the order of their characters: the first character that differs
/// decides, and a text stands before every text that goes on behind it.
pub proof fn texts_stand_in_the_order_of_characters(
    start: Seq<char>,
    x: char,
    y: char,
    a: Seq<char>,
    b: Seq<char>,
)
    ensures
        x < y ==> text_before(start + seq![x] + a, start + seq![y] + b) && !text_before(
            start + seq![y] + b,
            start + seq![x] + a,
        ),
        text_before(start, start + b),
        b.len() > 0 ==> !text_before(start + b, start),
    decreases start.len(),
{
    let left = start + seq![x] + a;
    let right = start + seq![y] + b;
    if start.len() > 0 {
        let rest = start.drop_first();
        texts_stand_in_the_order_of_characters(rest, x, y, a, b);
        assert(left[0] == start[0] && right[0] == start[0] && (start + b)[0] == start[0]);
        assert(left.drop_first() =~= rest + seq![x] + a);
        assert(right.drop_first() =~= rest + seq![y] + b);
        assert((start + b).drop_first() =~= rest + b);
    } else {
        assert(left[0] == x && right[0] == y);
        assert(start + b =~= b);
    }
}

/// Digits are read as the number they stand for, with a sign before them where the
/// type has one; whatever else stands in a text makes it no number.
pub proof fn digits_are_read_with_their_sign(s: Seq<char>, c: char, signed: bool)
    ensures
        s.len() > 0 && all_digits(s) ==> {
            &&& parsed_int(s, signed) == Some(digits_value(s) as int)
            &&& parsed_int(seq!['+'] + s, signed) == Some(digits_value(s) as int)
            &&& parsed_int(seq!['-'] + s, true) == Some(-(digits_value(s) as int))
            &&& parsed_int(seq!['-'] + s, false) is None
        },
        !all_digits(s) && s[0] != '+' && s[0] != '-' ==> parsed_int(s, signed) is None,
        !all_digits(s) ==> parsed_int(seq!['+'] + s, signed) is None && parsed_int(
            seq!['-'] + s,
            signed,
        ) is None,
        parsed_int(Seq::empty(), signed) is None,
        parsed_int(seq!['+'], signed) is None,
        parsed_int(seq!['-'], signed) is None,
        is_digit(c) ==> digits_value(s.push(c)) == 10 * digits_value(s) + (c as int - '0' as int),
        digits_value(Seq::empty()) == 0,
{
    assert((seq!['+'] + s).skip(1) =~= s);
    assert((seq!['-'] + s).skip(1) =~= s);
    assert(!is_digit((seq!['-'] + s)[0]));
    assert(s.push(c).drop_last() =~= s);
    assert(seq!['+'].skip(1) =~= Seq::<char>::empty());
    assert(seq!['-'].skip(1) =~= Seq::<char>::empty());
    assert(!is_digit(seq!['-'][0]));
    if s.len() > 0 && all_digits(s) {
        assert(is_digit(s[0]));
    }
}

/// A text that stands for an integer of 64 bits is read as that integer.
pub proof fn text_is_read_as_its_integer(v: JsonTree, key: Seq<char>, s: Seq<char>, n: i64)
    requires
        v.field(key) == Some(JsonTree::Text(s)),
        parsed_int(s, true) == Some(n as int),
    ensures
        v.integer_field(key) == Some(n),
{
}

/// A number that fits its type is read as itself, and no other text is one.
pub proof fn printed_number_is_read(n: int, min: int, max: int, signed: bool)
    requires
        signed || 0 <= n,
    ensures
        parsed_within(decimal(n), signed, min, max) == (if min <= n <= max {
            Some(n)
        } else {
            None
        }),
{
    parse_undoes_print(n, signed);
}

} // verus!
