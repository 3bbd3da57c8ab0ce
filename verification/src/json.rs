//! The JSON subset the wire protocol speaks.
//!
//! Messages are single JSON values: objects, arrays, strings, decimals,
//! booleans and null. A value is printed canonically (no whitespace, object
//! fields in the order given, the small fixed set of string escapes), and
//! parsed leniently (whitespace between tokens, any field order at the
//! callers above, the common escapes). Printing then parsing gives the value
//! back exactly; the lemmas at the bottom of the module say so.
//!
//! Strings are kept as the raw bytes standing between the quotes after
//! unescaping; the library never needs to look inside them as characters.
//! A whole message must be well-formed UTF-8 before the grammar is even
//! tried: bytes that are not are never a message.

use crate::decimal::{spec_print_decimal, push_decimal, Decimal, is_digit_byte, digits_val, all_digits, lemma_digits_val_prefix_le};
use vstd::prelude::*;
use vstd::utf8::{
    valid_utf8, valid_first_scalar, valid_leading_and_continuation_bytes_first_codepoint,
    length_of_first_scalar, pop_first_scalar, take_first_scalar, codepoint_width_1,
    codepoint_width_2, codepoint_width_3, codepoint_width_4, is_leading_byte_width_1,
    is_leading_byte_width_2, is_leading_byte_width_3, is_leading_byte_width_4,
    is_continuation_byte, not_overlong_encoding, not_surrogate, valid_utf8_concat,
};

verus! {

broadcast use vstd::std_specs::vec::group_vec_axioms, vstd::seq::group_seq_axioms;

/// The mathematical value of a JSON tree.
#[verifier::ext_equal]
pub enum JsonV {
    Null,
    Bool(bool),
    Num(Decimal),
    Str(Seq<u8>),
    Arr(Seq<JsonV>),
    Obj(Seq<(Seq<u8>, JsonV)>),
}

/// A JSON tree as held at run time.
#[derive(Debug, PartialEq, Eq)]
pub enum Json {
    Null,
    Bool(bool),
    Num(Decimal),
    Str(Vec<u8>),
    Arr(Vec<Json>),
    Obj(Vec<(Vec<u8>, Json)>),
}

/// The value a runtime tree stands for.
pub open spec fn json_view(j: Json) -> JsonV
    decreases j, 1int,
{
    match j {
        Json::Null => JsonV::Null,
        Json::Bool(b) => JsonV::Bool(b),
        Json::Num(d) => JsonV::Num(d),
        Json::Str(s) => JsonV::Str(s@),
        Json::Arr(items) => JsonV::Arr(json_view_items(items, 0)),
        Json::Obj(fields) => JsonV::Obj(json_view_members(fields, 0)),
    }
}

pub open spec fn json_view_items(items: Vec<Json>, i: int) -> Seq<JsonV>
    decreases items, items@.len() - i, 0int,
{
    if i < 0 || i >= items@.len() {
        Seq::empty()
    } else {
        seq![json_view(items@[i])] + json_view_items(items, i + 1)
    }
}

pub open spec fn json_view_members(fields: Vec<(Vec<u8>, Json)>, i: int) -> Seq<(Seq<u8>, JsonV)>
    decreases fields, fields@.len() - i, 0int,
{
    if i < 0 || i >= fields@.len() {
        Seq::empty()
    } else {
        seq![(fields@[i].0@, json_view(fields@[i].1))] + json_view_members(fields, i + 1)
    }
}

impl View for Json {
    type V = JsonV;

    open spec fn view(&self) -> JsonV {
        json_view(*self)
    }
}

/// The list views read pointwise.
pub proof fn lemma_json_view_items(items: Vec<Json>, i: int)
    requires
        0 <= i <= items@.len(),
    ensures
        json_view_items(items, i).len() == items@.len() - i,
        forall|k: int|
            0 <= k < items@.len() - i ==> #[trigger] json_view_items(items, i)[k] == json_view(
                items@[i + k],
            ),
    decreases items@.len() - i,
{
    if i < items@.len() {
        lemma_json_view_items(items, i + 1);
    }
}

pub proof fn lemma_json_view_members(fields: Vec<(Vec<u8>, Json)>, i: int)
    requires
        0 <= i <= fields@.len(),
    ensures
        json_view_members(fields, i).len() == fields@.len() - i,
        forall|k: int|
            0 <= k < fields@.len() - i ==> #[trigger] json_view_members(fields, i)[k] == (
                fields@[i + k].0@,
                json_view(fields@[i + k].1),
            ),
    decreases fields@.len() - i,
{
    if i < fields@.len() {
        lemma_json_view_members(fields, i + 1);
    }
}

// Byte names used throughout the module.
pub open spec fn b_quote() -> u8 {
    0x22
}

pub open spec fn b_backslash() -> u8 {
    0x5c
}

pub open spec fn b_comma() -> u8 {
    0x2c
}

pub open spec fn b_colon() -> u8 {
    0x3a
}

pub open spec fn b_lbrace() -> u8 {
    0x7b
}

pub open spec fn b_rbrace() -> u8 {
    0x7d
}

pub open spec fn b_lbrack() -> u8 {
    0x5b
}

pub open spec fn b_rbrack() -> u8 {
    0x5d
}

/// The hex digit byte for a nibble, lower case.
pub open spec fn hex_digit_byte(d: nat) -> u8
    recommends
        d < 16,
{
    if d < 10 {
        (0x30 + d) as u8
    } else {
        (0x61 + d - 10) as u8
    }
}

/// How one string byte stands on the wire: quote, backslash and the named
/// control characters get a two-byte escape, other control bytes a
/// `\u00XX` escape, everything else stands as itself.
pub open spec fn spec_escape_byte(b: u8) -> Seq<u8> {
    if b == 0x22 {
        seq![0x5cu8, 0x22u8]
    } else if b == 0x5c {
        seq![0x5cu8, 0x5cu8]
    } else if b == 0x0a {
        seq![0x5cu8, 0x6eu8]
    } else if b == 0x0d {
        seq![0x5cu8, 0x72u8]
    } else if b == 0x09 {
        seq![0x5cu8, 0x74u8]
    } else if b < 0x20 {
        seq![0x5cu8, 0x75u8, 0x30u8, 0x30u8, hex_digit_byte((b / 16) as nat), hex_digit_byte(
            (b % 16) as nat,
        )]
    } else {
        seq![b]
    }
}

pub open spec fn spec_escape(s: Seq<u8>) -> Seq<u8>
    decreases s.len(),
{
    if s.len() == 0 {
        Seq::empty()
    } else {
        spec_escape_byte(s[0]) + spec_escape(s.drop_first())
    }
}

/// The canonical wire text of a value.
pub open spec fn spec_print_json(v: JsonV) -> Seq<u8>
    decreases v, 1int,
{
    match v {
        JsonV::Null => seq![0x6eu8, 0x75u8, 0x6cu8, 0x6cu8],
        JsonV::Bool(b) => if b {
            seq![0x74u8, 0x72u8, 0x75u8, 0x65u8]
        } else {
            seq![0x66u8, 0x61u8, 0x6cu8, 0x73u8, 0x65u8]
        },
        JsonV::Num(d) => spec_print_decimal(d),
        JsonV::Str(s) => seq![b_quote()] + spec_escape(s) + seq![b_quote()],
        JsonV::Arr(items) => seq![b_lbrack()] + spec_print_items(items, 0) + seq![b_rbrack()],
        JsonV::Obj(fields) => seq![b_lbrace()] + spec_print_members(fields, 0) + seq![b_rbrace()],
    }
}

/// The items of an array from index `i` on, comma separated.
pub open spec fn spec_print_items(items: Seq<JsonV>, i: int) -> Seq<u8>
    decreases items, items.len() - i, 0int,
{
    if i < 0 || i >= items.len() {
        Seq::empty()
    } else if i == items.len() - 1 {
        spec_print_json(items[i])
    } else {
        spec_print_json(items[i]) + seq![b_comma()] + spec_print_items(items, i + 1)
    }
}

/// The members of an object from index `i` on: quoted key, colon, value.
pub open spec fn spec_print_members(fields: Seq<(Seq<u8>, JsonV)>, i: int) -> Seq<u8>
    decreases fields, fields.len() - i, 0int,
{
    if i < 0 || i >= fields.len() {
        Seq::empty()
    } else {
        let one = seq![b_quote()] + spec_escape(fields[i].0) + seq![b_quote(), b_colon()]
            + spec_print_json(fields[i].1);
        if i == fields.len() - 1 {
            one
        } else {
            one + seq![b_comma()] + spec_print_members(fields, i + 1)
        }
    }
}

/// Appends the escape of one string byte.
fn push_escaped_byte(out: &mut Vec<u8>, b: u8)
    ensures
        final(out)@ == old(out)@ + spec_escape_byte(b),
{
    if b == 0x22 {
        out.push(0x5c);
        out.push(0x22);
    } else if b == 0x5c {
        out.push(0x5c);
        out.push(0x5c);
    } else if b == 0x0a {
        out.push(0x5c);
        out.push(0x6e);
    } else if b == 0x0d {
        out.push(0x5c);
        out.push(0x72);
    } else if b == 0x09 {
        out.push(0x5c);
        out.push(0x74);
    } else if b < 0x20 {
        out.push(0x5c);
        out.push(0x75);
        out.push(0x30);
        out.push(0x30);
        let hi = b / 16;
        let lo = b % 16;
        out.push(if hi < 10 { 0x30 + hi } else { 0x61 + hi - 10 });
        out.push(if lo < 10 { 0x30 + lo } else { 0x61 + lo - 10 });
    } else {
        out.push(b);
    }
    assert(out@ =~= old(out)@ + spec_escape_byte(b));
}

/// Appends a quoted, escaped string.
fn push_string(out: &mut Vec<u8>, s: &[u8])
    ensures
        final(out)@ == old(out)@ + seq![b_quote()] + spec_escape(s@) + seq![b_quote()],
{
    out.push(0x22);
    let mut i: usize = 0;
    while i < s.len()
        invariant
            i <= s@.len(),
            out@ =~= old(out)@ + seq![b_quote()] + spec_escape(s@.take(i as int)),
        decreases s@.len() - i,
    {
        push_escaped_byte(out, s[i]);
        proof {
            lemma_escape_snoc(s@, i as int);
        }
        i = i + 1;
    }
    assert(s@.take(s@.len() as int) =~= s@);
    out.push(0x22);
    assert(out@ =~= old(out)@ + seq![b_quote()] + spec_escape(s@) + seq![b_quote()]);
}

/// Escaping one more byte appends that byte's escape.
proof fn lemma_escape_snoc(s: Seq<u8>, i: int)
    requires
        0 <= i < s.len(),
    ensures
        spec_escape(s.take(i + 1)) == spec_escape(s.take(i)) + spec_escape_byte(s[i]),
    decreases i,
{
    if i == 0 {
        assert(spec_escape(s.take(1)) =~= spec_escape_byte(s[0])) by {
            reveal_with_fuel(spec_escape, 3);
            assert(s.take(1).drop_first() =~= Seq::<u8>::empty());
            assert(s.take(1)[0] == s[0]);
        }
        assert(spec_escape(s.take(0)) =~= Seq::<u8>::empty()) by {
            assert(s.take(0).len() == 0);
        }
        assert(spec_escape(s.take(0)) + spec_escape_byte(s[0]) =~= spec_escape_byte(s[0]));
    } else {
        assert(s.take(i + 1).drop_first() =~= s.drop_first().take(i));
        assert(s.take(i).drop_first() =~= s.drop_first().take(i - 1));
        lemma_escape_snoc(s.drop_first(), i - 1);
        assert(s.drop_first()[i - 1] == s[i]);
        assert(spec_escape(s.take(i + 1)) == spec_escape_byte(s[0]) + spec_escape(
            s.drop_first().take(i),
        ));
        assert(spec_escape(s.take(i)) == spec_escape_byte(s[0]) + spec_escape(
            s.drop_first().take(i - 1),
        ));
        assert(spec_escape_byte(s[0]) + (spec_escape(s.drop_first().take(i - 1))
            + spec_escape_byte(s.drop_first()[i - 1])) =~= (spec_escape_byte(s[0]) + spec_escape(
            s.drop_first().take(i - 1),
        )) + spec_escape_byte(s[i]));
    }
}

/// Appends the canonical wire text of `j`.
pub fn push_json(out: &mut Vec<u8>, j: &Json)
    ensures
        final(out)@ == old(out)@ + spec_print_json(j@),
    decreases *j,
{
    match j {
        Json::Null => {
            out.push(0x6e);
            out.push(0x75);
            out.push(0x6c);
            out.push(0x6c);
            assert(out@ =~= old(out)@ + spec_print_json(j@));
        },
        Json::Bool(b) => {
            if *b {
                out.push(0x74);
                out.push(0x72);
                out.push(0x75);
                out.push(0x65);
            } else {
                out.push(0x66);
                out.push(0x61);
                out.push(0x6c);
                out.push(0x73);
                out.push(0x65);
            }
            assert(out@ =~= old(out)@ + spec_print_json(j@));
        },
        Json::Num(d) => {
            push_decimal(out, d);
        },
        Json::Str(s) => {
            push_string(out, s.as_slice());
        },
        Json::Arr(items) => {
            out.push(0x5b);
            let ghost itemsv = j@->Arr_0;
            proof {
                lemma_json_view_items(*items, 0);
            }
            let mut i: usize = 0;
            while i < items.len()
                invariant
                    i <= items@.len(),
                    *j == Json::Arr(*items),
                    itemsv == j@->Arr_0,
                    itemsv == json_view_items(*items, 0),
                    itemsv.len() == items@.len(),
                    forall|k: int|
                        0 <= k < items@.len() ==> #[trigger] itemsv[k] == json_view(items@[k]),
                    out@ =~= old(out)@ + seq![b_lbrack()] + spec_items_prefix(itemsv, i as int),
                decreases items@.len() - i,
            {
                assert(json_view(items@[i as int]) == itemsv[i as int]);
                proof {
                    assert(*j == Json::Arr(*items));
                    assert(decreases_to!(*j => *items));
                    assert(decreases_to!(*items => items@[i as int]));
                }
                push_json(out, &items[i]);
                if i + 1 < items.len() {
                    out.push(0x2c);
                }
                assert(out@ =~= old(out)@ + seq![b_lbrack()] + spec_items_prefix(
                    itemsv,
                    i + 1 as int,
                ));
                i = i + 1;
            }
            out.push(0x5d);
            proof {
                lemma_items_prefix_full(itemsv, 0);
                assert(spec_items_prefix(itemsv, 0) =~= Seq::<u8>::empty());
            }
            assert(out@ =~= old(out)@ + spec_print_json(j@));
        },
        Json::Obj(fields) => {
            out.push(0x7b);
            let ghost fieldsv = j@->Obj_0;
            proof {
                lemma_json_view_members(*fields, 0);
            }
            let mut i: usize = 0;
            while i < fields.len()
                invariant
                    i <= fields@.len(),
                    *j == Json::Obj(*fields),
                    fieldsv == j@->Obj_0,
                    fieldsv == json_view_members(*fields, 0),
                    fieldsv.len() == fields@.len(),
                    forall|k: int|
                        0 <= k < fields@.len() ==> #[trigger] fieldsv[k] == (
                        fields@[k].0@,
                        json_view(fields@[k].1),
                        ),
                    out@ =~= old(out)@ + seq![b_lbrace()] + spec_members_prefix(fieldsv, i as int),
                decreases fields@.len() - i,
            {
                assert(fields@[i as int].0@ == fieldsv[i as int].0);
                assert(json_view(fields@[i as int].1) == fieldsv[i as int].1);
                push_string(out, fields[i].0.as_slice());
                out.push(0x3a);
                proof {
                    assert(*j == Json::Obj(*fields));
                    assert(decreases_to!(*j => *fields));
                    assert(decreases_to!(*fields => fields@[i as int]));
                    assert(decreases_to!(fields@[i as int] => fields@[i as int].1));
                }
                push_json(out, &fields[i].1);
                if i + 1 < fields.len() {
                    out.push(0x2c);
                }
                assert(out@ =~= old(out)@ + seq![b_lbrace()] + spec_members_prefix(
                    fieldsv,
                    i + 1 as int,
                ));
                i = i + 1;
            }
            out.push(0x7d);
            proof {
                lemma_members_prefix_full(fieldsv, 0);
                assert(spec_members_prefix(fieldsv, 0) =~= Seq::<u8>::empty());
            }
            assert(out@ =~= old(out)@ + spec_print_json(j@));
        },
    }
}

/// The text printed after the first `i` loop passes of the array printer:
/// each pass prints one item and the comma that follows it when more come.
spec fn spec_items_prefix(items: Seq<JsonV>, i: int) -> Seq<u8>
    decreases i,
{
    if i <= 0 {
        Seq::empty()
    } else {
        spec_items_prefix(items, i - 1) + spec_print_json(items[i - 1]) + (if i - 1
            < items.len() - 1 {
            seq![b_comma()]
        } else {
            Seq::<u8>::empty()
        })
    }
}

spec fn spec_members_prefix(fields: Seq<(Seq<u8>, JsonV)>, i: int) -> Seq<u8>
    decreases i,
{
    if i <= 0 {
        Seq::empty()
    } else {
        spec_members_prefix(fields, i - 1) + (seq![b_quote()] + spec_escape(fields[i - 1].0)
            + seq![b_quote(), b_colon()] + spec_print_json(fields[i - 1].1)) + (if i - 1
            < fields.len() - 1 {
            seq![b_comma()]
        } else {
            Seq::<u8>::empty()
        })
    }
}

/// Printing the items one by one gives the same text as printing the list.
proof fn lemma_items_prefix_full(items: Seq<JsonV>, j: int)
    requires
        0 <= j <= items.len(),
    ensures
        spec_items_prefix(items, items.len() as int) == spec_items_prefix(items, j)
            + spec_print_items(items, j),
    decreases items.len() - j,
{
    if j == items.len() {
        assert(spec_items_prefix(items, j) + spec_print_items(items, j) =~= spec_items_prefix(
            items,
            j,
        ));
    } else {
        lemma_items_prefix_full(items, j + 1);
        if j == items.len() - 1 {
            assert(spec_items_prefix(items, j + 1) =~= spec_items_prefix(items, j)
                + spec_print_items(items, j));
        } else {
            assert(spec_items_prefix(items, j + 1) + spec_print_items(items, j + 1)
                =~= spec_items_prefix(items, j) + spec_print_items(items, j));
        }
    }
}

proof fn lemma_members_prefix_full(fields: Seq<(Seq<u8>, JsonV)>, j: int)
    requires
        0 <= j <= fields.len(),
    ensures
        spec_members_prefix(fields, fields.len() as int) == spec_members_prefix(fields, j)
            + spec_print_members(fields, j),
    decreases fields.len() - j,
{
    if j == fields.len() {
        assert(spec_members_prefix(fields, j) + spec_print_members(fields, j)
            =~= spec_members_prefix(fields, j));
    } else {
        lemma_members_prefix_full(fields, j + 1);
        if j == fields.len() - 1 {
            assert(spec_members_prefix(fields, j + 1) =~= spec_members_prefix(fields, j)
                + spec_print_members(fields, j));
        } else {
            assert(spec_members_prefix(fields, j + 1) + spec_print_members(fields, j + 1)
                =~= spec_members_prefix(fields, j) + spec_print_members(fields, j));
        }
    }
}

// ---------------------------------------------------------------------------
// Parsing. The spec functions below define the grammar; the executable
// parser further down is proved to return exactly what they say. Consumed
// byte counts are carried so that a recursive call always stands on a
// strictly shorter suffix; the guards on those counts never fire on the
// values the functions actually return, they only make termination plain.
// ---------------------------------------------------------------------------

/// JSON whitespace.
pub open spec fn is_ws(b: u8) -> bool {
    b == 0x20 || b == 0x09 || b == 0x0a || b == 0x0d
}

/// Length of the whitespace prefix.
pub open spec fn ws_count(s: Seq<u8>) -> int
    decreases s.len(),
{
    if s.len() > 0 && is_ws(s[0]) {
        1 + ws_count(s.drop_first())
    } else {
        0
    }
}

pub proof fn lemma_ws_count_bounds(s: Seq<u8>)
    ensures
        0 <= ws_count(s) <= s.len(),
        forall|i: int| 0 <= i < ws_count(s) ==> is_ws(#[trigger] s[i]),
        ws_count(s) < s.len() ==> !is_ws(s[ws_count(s)]),
    decreases s.len(),
{
    if s.len() > 0 && is_ws(s[0]) {
        lemma_ws_count_bounds(s.drop_first());
        assert forall|i: int| 0 <= i < ws_count(s) implies is_ws(#[trigger] s[i]) by {
            if i > 0 {
                assert(s.drop_first()[i - 1] == s[i]);
            }
        }
    }
}

/// Length of the digit prefix.
pub open spec fn digits_count(s: Seq<u8>) -> int
    decreases s.len(),
{
    if s.len() > 0 && is_digit_byte(s[0]) {
        1 + digits_count(s.drop_first())
    } else {
        0
    }
}

pub proof fn lemma_digits_count_bounds(s: Seq<u8>)
    ensures
        0 <= digits_count(s) <= s.len(),
        forall|i: int| 0 <= i < digits_count(s) ==> is_digit_byte(#[trigger] s[i]),
        digits_count(s) < s.len() ==> !is_digit_byte(s[digits_count(s)]),
    decreases s.len(),
{
    if s.len() > 0 && is_digit_byte(s[0]) {
        lemma_digits_count_bounds(s.drop_first());
        assert forall|i: int| 0 <= i < digits_count(s) implies is_digit_byte(#[trigger] s[i]) by {
            if i > 0 {
                assert(s.drop_first()[i - 1] == s[i]);
            }
        }
    }
}

/// A number: optional minus, integer digits, optional fraction. Exponent
/// notation and magnitudes beyond `u64::MAX` are not part of the dialect.
pub open spec fn spec_parse_number(s: Seq<u8>) -> Option<(Decimal, int)> {
    let off: int = if s.len() > 0 && s[0] == 0x2d {
        1
    } else {
        0
    };
    let neg = off == 1;
    let t = s.skip(off);
    let k = digits_count(t);
    if k == 0 {
        None
    } else {
        let u = t.skip(k);
        if u.len() >= 2 && u[0] == 0x2e && is_digit_byte(u[1]) {
            let f = digits_count(u.skip(1));
            let digits = t.take(k) + u.skip(1).take(f);
            if digits_val(digits) > u64::MAX || f > u32::MAX {
                None
            } else {
                Some(
                    (
                        Decimal { neg, mag: digits_val(digits) as u64, scale: f as u32 },
                        off + k + 1 + f,
                    ),
                )
            }
        } else {
            if digits_val(t.take(k)) > u64::MAX {
                None
            } else {
                Some((Decimal { neg, mag: digits_val(t.take(k)) as u64, scale: 0 }, off + k))
            }
        }
    }
}

pub open spec fn is_hex_byte(b: u8) -> bool {
    is_digit_byte(b) || (0x61 <= b && b <= 0x66) || (0x41 <= b && b <= 0x46)
}

pub open spec fn hex_val(b: u8) -> nat
    recommends
        is_hex_byte(b),
{
    if is_digit_byte(b) {
        (b - 0x30) as nat
    } else if 0x61 <= b && b <= 0x66 {
        (b - 0x61 + 10) as nat
    } else {
        (b - 0x41 + 10) as nat
    }
}

/// What a two-byte escape stands for; the escapes of the JSON grammar.
pub open spec fn unescape_byte(e: u8) -> Option<u8> {
    if e == 0x22 {
        Some(0x22u8)
    } else if e == 0x5c {
        Some(0x5cu8)
    } else if e == 0x2f {
        Some(0x2fu8)
    } else if e == 0x62 {
        Some(0x08u8)
    } else if e == 0x66 {
        Some(0x0cu8)
    } else if e == 0x6e {
        Some(0x0au8)
    } else if e == 0x72 {
        Some(0x0du8)
    } else if e == 0x74 {
        Some(0x09u8)
    } else {
        None
    }
}

/// The rest of a string, after its opening quote: content bytes up to the
/// closing quote. `\u` escapes are taken in their one-byte form `\u00XX`;
/// raw control bytes are refused, everything else stands for itself.
pub open spec fn spec_parse_string_rest(s: Seq<u8>) -> Option<(Seq<u8>, int)>
    decreases s.len(),
{
    if s.len() == 0 {
        None
    } else if s[0] == b_quote() {
        Some((Seq::empty(), 1))
    } else if s[0] == b_backslash() {
        if s.len() < 2 {
            None
        } else if s[1] == 0x75 {
            if s.len() < 6 {
                None
            } else if s[2] == 0x30 && s[3] == 0x30 && is_hex_byte(s[4]) && is_hex_byte(s[5]) {
                match spec_parse_string_rest(s.skip(6)) {
                    None => None,
                    Some((r, n)) => Some(
                        (seq![(hex_val(s[4]) * 16 + hex_val(s[5])) as u8] + r, 6 + n),
                    ),
                }
            } else {
                None
            }
        } else {
            match unescape_byte(s[1]) {
                None => None,
                Some(b) => match spec_parse_string_rest(s.skip(2)) {
                    None => None,
                    Some((r, n)) => Some((seq![b] + r, 2 + n)),
                },
            }
        }
    } else if s[0] < 0x20 {
        None
    } else {
        match spec_parse_string_rest(s.skip(1)) {
            None => None,
            Some((r, n)) => Some((seq![s[0]] + r, 1 + n)),
        }
    }
}

/// A whole value, leading whitespace included. Returns the value and how
/// many bytes of `s` it took.
pub open spec fn spec_parse_value(s: Seq<u8>) -> Option<(JsonV, int)>
    decreases s.len(), 0int,
{
    let w = ws_count(s);
    if !(0 <= w && w <= s.len()) {
        None
    } else {
    let t = s.skip(w);
    if t.len() == 0 {
        None
    } else if t[0] == b_lbrace() {
        match spec_parse_members(t.skip(1)) {
            None => None,
            Some((fields, n)) => if n >= 0 {
                Some((JsonV::Obj(fields), w + 1 + n))
            } else {
                None
            },
        }
    } else if t[0] == b_lbrack() {
        match spec_parse_items(t.skip(1)) {
            None => None,
            Some((items, n)) => if n >= 0 {
                Some((JsonV::Arr(items), w + 1 + n))
            } else {
                None
            },
        }
    } else if t[0] == b_quote() {
        match spec_parse_string_rest(t.skip(1)) {
            None => None,
            Some((str_bytes, n)) => Some((JsonV::Str(str_bytes), w + 1 + n)),
        }
    } else if t.len() >= 4 && t[0] == 0x6e && t[1] == 0x75 && t[2] == 0x6c && t[3] == 0x6c {
        Some((JsonV::Null, w + 4))
    } else if t.len() >= 4 && t[0] == 0x74 && t[1] == 0x72 && t[2] == 0x75 && t[3] == 0x65 {
        Some((JsonV::Bool(true), w + 4))
    } else if t.len() >= 5 && t[0] == 0x66 && t[1] == 0x61 && t[2] == 0x6c && t[3] == 0x73 && t[4]
        == 0x65 {
        Some((JsonV::Bool(false), w + 5))
    } else {
        match spec_parse_number(t) {
            None => None,
            Some((d, n)) => Some((JsonV::Num(d), w + n)),
        }
    }
    }
}

/// What follows an object's `{`: either the closing brace or a member list.
pub open spec fn spec_parse_members(s: Seq<u8>) -> Option<(Seq<(Seq<u8>, JsonV)>, int)>
    decreases s.len(), 2int,
{
    let w = ws_count(s);
    if !(0 <= w && w <= s.len()) {
        None
    } else {
        let t = s.skip(w);
        if t.len() == 0 {
            None
        } else if t[0] == b_rbrace() {
            Some((Seq::empty(), w + 1))
        } else {
            spec_parse_member_list(s)
        }
    }
}

/// One or more `"key": value` members, ending at the closing brace.
pub open spec fn spec_parse_member_list(s: Seq<u8>) -> Option<(Seq<(Seq<u8>, JsonV)>, int)>
    decreases s.len(), 1int,
{
    let w = ws_count(s);
    if !(0 <= w && w <= s.len()) {
        None
    } else {
    let t = s.skip(w);
    if t.len() == 0 || t[0] != b_quote() {
        None
    } else {
        match spec_parse_string_rest(t.skip(1)) {
            None => None,
            Some((key, n1)) => {
                let key_end = w + 1 + n1;
                if !(1 <= n1 && key_end <= s.len()) {
                    None
                } else {
                    let u = s.skip(key_end);
                    let w2 = ws_count(u);
                    if !(0 <= w2 && key_end + w2 < s.len() && u[w2] == b_colon()) {
                        None
                    } else {
                        let val_at = key_end + w2 + 1;
                        match spec_parse_value(s.skip(val_at)) {
                            None => None,
                            Some((val, n2)) => {
                                let val_end = val_at + n2;
                                if !(0 <= n2 && val_end <= s.len()) {
                                    None
                                } else {
                                    let u2 = s.skip(val_end);
                                    let w3 = ws_count(u2);
                                    if !(0 <= w3 && val_end + w3 < s.len()) {
                                        None
                                    } else if u2[w3] == b_rbrace() {
                                        Some((seq![(key, val)], val_end + w3 + 1))
                                    } else if u2[w3] == b_comma() {
                                        match spec_parse_member_list(s.skip(val_end + w3 + 1)) {
                                            None => None,
                                            Some((rest, n3)) => Some(
                                                (seq![(key, val)] + rest, val_end + w3 + 1 + n3),
                                            ),
                                        }
                                    } else {
                                        None
                                    }
                                }
                            },
                        }
                    }
                }
            },
        }
    }
    }
}

/// What follows an array's `[`: either the closing bracket or an item list.
pub open spec fn spec_parse_items(s: Seq<u8>) -> Option<(Seq<JsonV>, int)>
    decreases s.len(), 2int,
{
    let w = ws_count(s);
    if !(0 <= w && w <= s.len()) {
        None
    } else {
        let t = s.skip(w);
        if t.len() == 0 {
            None
        } else if t[0] == b_rbrack() {
            Some((Seq::empty(), w + 1))
        } else {
            spec_parse_item_list(s)
        }
    }
}

/// One or more comma-separated items, ending at the closing bracket.
pub open spec fn spec_parse_item_list(s: Seq<u8>) -> Option<(Seq<JsonV>, int)>
    decreases s.len(), 1int,
{
    match spec_parse_value(s) {
        None => None,
        Some((val, n)) => {
            if !(1 <= n && n <= s.len()) {
                None
            } else {
                let u = s.skip(n);
                let w = ws_count(u);
                if !(0 <= w && n + w < s.len()) {
                    None
                } else if u[w] == b_rbrack() {
                    Some((seq![val], n + w + 1))
                } else if u[w] == b_comma() {
                    match spec_parse_item_list(s.skip(n + w + 1)) {
                        None => None,
                        Some((rest, n2)) => Some((seq![val] + rest, n + w + 1 + n2)),
                    }
                } else {
                    None
                }
            }
        },
    }
}

/// A whole message: well-formed UTF-8 holding one value, with nothing but
/// whitespace around it.
pub open spec fn spec_parse_json(s: Seq<u8>) -> Option<JsonV> {
    if !valid_utf8(s) {
        None
    } else {
        spec_parse_json_text(s)
    }
}

/// One value with nothing but whitespace around it, the text already known
/// to be UTF-8.
pub open spec fn spec_parse_json_text(s: Seq<u8>) -> Option<JsonV> {
    match spec_parse_value(s) {
        None => None,
        Some((v, n)) => if 0 <= n <= s.len() && n + ws_count(s.skip(n)) == s.len() {
            Some(v)
        } else {
            None
        },
    }
}

/// The canonical wire text of a value, as bytes.
pub fn encode_json(j: &Json) -> (out: Vec<u8>)
    ensures
        out@ == spec_print_json(j@),
{
    let mut out: Vec<u8> = Vec::new();
    push_json(&mut out, j);
    assert(out@ =~= spec_print_json(j@));
    out
}

// ---------------------------------------------------------------------------
// The executable parser. Each function walks the same branches as its spec
// twin and returns exactly what the spec says, as the `ensures` state.
// ---------------------------------------------------------------------------

proof fn lemma_skip_skip(s: Seq<u8>, a: int, b: int)
    requires
        0 <= a,
        0 <= b,
        a + b <= s.len(),
    ensures
        s.skip(a).skip(b) =~= s.skip(a + b),
{
}

/// Index just past the whitespace run at `pos`.
fn skip_ws_at(s: &[u8], pos: usize) -> (r: usize)
    requires
        pos <= s@.len(),
    ensures
        pos <= r <= s@.len(),
        r - pos == ws_count(s@.skip(pos as int)),
    decreases s@.len() - pos,
{
    proof {
        lemma_ws_count_bounds(s@.skip(pos as int));
    }
    if pos < s.len() {
        let b = s[pos];
        if b == 0x20 || b == 0x09 || b == 0x0a || b == 0x0d {
            assert(s@.skip(pos as int).drop_first() =~= s@.skip(pos as int + 1));
            let r = skip_ws_at(s, pos + 1);
            return r;
        }
    }
    pos
}

/// Number of digit bytes starting at `pos`.
fn digits_count_at(s: &[u8], pos: usize) -> (r: usize)
    requires
        pos <= s@.len(),
    ensures
        pos + r <= s@.len(),
        r == digits_count(s@.skip(pos as int)),
    decreases s@.len() - pos,
{
    proof {
        lemma_digits_count_bounds(s@.skip(pos as int));
    }
    if pos < s.len() {
        let b = s[pos];
        if 0x30 <= b && b <= 0x39 {
            assert(s@.skip(pos as int).drop_first() =~= s@.skip(pos as int + 1));
            let r = digits_count_at(s, pos + 1);
            return r + 1;
        }
    }
    0
}

/// The value of the `k` digit bytes at `pos`, unless it passes `u64::MAX`.
fn digits_value_at(s: &[u8], pos: usize, k: usize) -> (r: Option<u64>)
    requires
        pos + k <= s@.len(),
        all_digits(s@.subrange(pos as int, pos as int + k as int)),
    ensures
        ({
            let seg = s@.subrange(pos as int, pos as int + k as int);
            match r {
                Some(v) => v as nat == digits_val(seg),
                None => digits_val(seg) > u64::MAX,
            }
        }),
{
    let ghost seg = s@.subrange(pos as int, pos as int + k as int);
    let slen = s.len();
    let mut acc: u64 = 0;
    let mut i: usize = 0;
    assert(digits_val(seg.take(0)) == 0) by {
        assert(seg.take(0).len() == 0);
    }
    while i < k
        invariant
            i <= k,
            pos + k <= s@.len(),
            s@.len() == slen,
            seg == s@.subrange(pos as int, pos as int + k as int),
            all_digits(seg),
            acc as nat == digits_val(seg.take(i as int)),
        decreases k - i,
    {
        let byte: u8 = s[pos + i];
        assert(seg[i as int] == byte);
        let d: u8 = byte - 0x30;
        let wide: u128 = acc as u128 * 10 + d as u128;
        proof {
            assert(seg.take(i as int + 1).drop_last() =~= seg.take(i as int));
            assert(seg.take(i as int + 1).last() == seg[i as int]);
        }
        if wide > 0xffff_ffff_ffff_ffffu128 {
            proof {
                assert(digits_val(seg.take(i as int + 1)) > u64::MAX);
                lemma_digits_val_prefix_le(seg.take(i as int + 1), seg.skip(i as int + 1));
                assert(seg.take(i as int + 1) + seg.skip(i as int + 1) =~= seg);
            }
            return None;
        }
        acc = wide as u64;
        i = i + 1;
    }
    assert(seg.take(k as int) =~= seg);
    Some(acc)
}

/// A number at `pos`, as `spec_parse_number` reads it off `s` from `pos`.
#[verifier::rlimit(100)]
fn parse_number_at(s: &[u8], pos: usize) -> (r: Option<(Decimal, usize)>)
    requires
        pos <= s@.len(),
    ensures
        ({
            let t = s@.skip(pos as int);
            match spec_parse_number(t) {
                None => r is None,
                Some((d, n)) => r matches Some((rd, end)) && rd == d && end == pos + n && pos < end
                    <= s@.len(),
            }
        }),
{
    let ghost t = s@.skip(pos as int);
    let neg = pos < s.len() && s[pos] == 0x2d;
    let off: usize = if neg {
        1
    } else {
        0
    };
    assert(t.skip(off as int) =~= s@.skip(pos as int + off as int)) by {
        lemma_skip_skip(s@, pos as int, off as int);
    }
    let k = digits_count_at(s, pos + off);
    proof {
        lemma_digits_count_bounds(s@.skip(pos as int + off as int));
    }
    if k == 0 {
        return None;
    }
    let ipos = pos + off;
    let after_int = ipos + k;
    let ghost u = t.skip(off as int).skip(k as int);
    assert(u =~= s@.skip(after_int as int)) by {
        lemma_skip_skip(s@, pos as int + off as int, k as int);
    }
    let has_frac = after_int < s.len() && s[after_int] == 0x2e && after_int + 1 < s.len() && {
        let b = s[after_int + 1];
        0x30 <= b && b <= 0x39
    };
    if has_frac {
        assert(u.len() >= 2 && u[0] == 0x2e && is_digit_byte(u[1]));
        assert(u.skip(1) =~= s@.skip(after_int as int + 1)) by {
            lemma_skip_skip(s@, after_int as int, 1);
        }
        let f = digits_count_at(s, after_int + 1);
        proof {
            lemma_digits_count_bounds(s@.skip(after_int as int + 1));
        }
        assert(f >= 1) by {
            assert(s@.skip(after_int as int + 1)[0] == s@[after_int as int + 1]);
        }
        // The digits of both parts, as one string.
        let ghost digits = t.skip(off as int).take(k as int) + u.skip(1).take(f as int);
        proof {
            lemma_digits_count_bounds(t.skip(off as int));
            assert(t.skip(off as int).take(k as int) =~= s@.subrange(
                ipos as int,
                ipos as int + k as int,
            ));
            assert(u.skip(1).take(f as int) =~= s@.subrange(
                after_int as int + 1,
                after_int as int + 1 + f as int,
            ));
        }
        // Read the combined digit string in one pass over its two spans.
        let total = combined_digits_value(s, ipos, k, after_int + 1, f);
        proof {
            assert(s@.subrange(ipos as int, ipos as int + k as int) + s@.subrange(
                after_int as int + 1,
                after_int as int + 1 + f as int,
            ) =~= digits);
        }
        match total {
            None => {
                assert(digits_val(digits) > u64::MAX);
                None
            },
            Some(v) => {
                if f > 0xffff_ffffusize {
                    None
                } else {
                    Some((Decimal { neg, mag: v, scale: f as u32 }, after_int + 1 + f))
                }
            },
        }
    } else {
        assert(!(u.len() >= 2 && u[0] == 0x2e && is_digit_byte(u[1]))) by {
            if u.len() >= 2 {
                assert(u[0] == s@[after_int as int]);
                assert(u[1] == s@[after_int as int + 1]);
            }
        }
        proof {
            lemma_digits_count_bounds(t.skip(off as int));
            assert(t.skip(off as int).take(k as int) =~= s@.subrange(
                ipos as int,
                ipos as int + k as int,
            ));
        }
        match digits_value_at(s, ipos, k) {
            None => None,
            Some(v) => Some((Decimal { neg, mag: v, scale: 0 }, after_int)),
        }
    }
}

/// The value of the digit string made of the two digit spans, read together.
fn combined_digits_value(s: &[u8], p1: usize, k1: usize, p2: usize, k2: usize) -> (r: Option<u64>)
    requires
        p1 + k1 <= s@.len(),
        p2 + k2 <= s@.len(),
        k1 + k2 <= s@.len(),
        all_digits(s@.subrange(p1 as int, p1 as int + k1 as int)),
        all_digits(s@.subrange(p2 as int, p2 as int + k2 as int)),
    ensures
        ({
            let seg = s@.subrange(p1 as int, p1 as int + k1 as int) + s@.subrange(
                p2 as int,
                p2 as int + k2 as int,
            );
            match r {
                Some(v) => v as nat == digits_val(seg),
                None => digits_val(seg) > u64::MAX,
            }
        }),
{
    let ghost a = s@.subrange(p1 as int, p1 as int + k1 as int);
    let ghost b = s@.subrange(p2 as int, p2 as int + k2 as int);
    let ghost seg = a + b;
    let slen = s.len();
    let mut acc: u64 = 0;
    let mut i: usize = 0;
    assert(digits_val(seg.take(0)) == 0) by {
        assert(seg.take(0).len() == 0);
    }
    while i < k1 + k2
        invariant
            i <= k1 + k2,
            p1 + k1 <= s@.len(),
            p2 + k2 <= s@.len(),
            k1 + k2 <= s@.len(),
            s@.len() == slen,
            a == s@.subrange(p1 as int, p1 as int + k1 as int),
            b == s@.subrange(p2 as int, p2 as int + k2 as int),
            seg == a + b,
            all_digits(a),
            all_digits(b),
            acc as nat == digits_val(seg.take(i as int)),
        decreases k1 + k2 - i,
    {
        let byte: u8 = if i < k1 {
            s[p1 + i]
        } else {
            s[p2 + (i - k1)]
        };
        assert(seg[i as int] == byte);
        let d: u8 = byte - 0x30;
        let wide: u128 = acc as u128 * 10 + d as u128;
        proof {
            assert(seg.take(i as int + 1).drop_last() =~= seg.take(i as int));
            assert(seg.take(i as int + 1).last() == seg[i as int]);
        }
        if wide > 0xffff_ffff_ffff_ffffu128 {
            proof {
                assert(digits_val(seg.take(i as int + 1)) > u64::MAX);
                lemma_digits_val_prefix_le(seg.take(i as int + 1), seg.skip(i as int + 1));
                assert(seg.take(i as int + 1) + seg.skip(i as int + 1) =~= seg);
            }
            return None;
        }
        acc = wide as u64;
        i = i + 1;
    }
    assert(seg.take(k1 as int + k2 as int) =~= seg);
    Some(acc)
}

/// The rest of a string at `pos` (its opening quote already behind us).
fn parse_string_rest_at(s: &[u8], pos: usize) -> (r: Option<(Vec<u8>, usize)>)
    requires
        pos <= s@.len(),
    ensures
        ({
            let t = s@.skip(pos as int);
            match spec_parse_string_rest(t) {
                None => r is None,
                Some((content, n)) => r matches Some((rc, end)) && rc@ == content && end == pos + n
                    && pos < end <= s@.len(),
            }
        }),
    decreases s@.len() - pos,
{
    let ghost t = s@.skip(pos as int);
    if pos >= s.len() {
        return None;
    }
    let b = s[pos];
    assert(t[0] == b);
    if b == 0x22 {
        return Some((Vec::new(), pos + 1));
    }
    if b == 0x5c {
        if pos + 1 >= s.len() {
            return None;
        }
        let e = s[pos + 1];
        assert(t[1] == e);
        if e == 0x75 {
            if s.len() - pos < 6 {
                return None;
            }
            let h1 = s[pos + 2];
            let h2 = s[pos + 3];
            let h3 = s[pos + 4];
            let h4 = s[pos + 5];
            assert(t[2] == h1 && t[3] == h2 && t[4] == h3 && t[5] == h4);
            let ok3 = (0x30 <= h3 && h3 <= 0x39) || (0x61 <= h3 && h3 <= 0x66) || (0x41 <= h3 && h3
                <= 0x46);
            let ok4 = (0x30 <= h4 && h4 <= 0x39) || (0x61 <= h4 && h4 <= 0x66) || (0x41 <= h4 && h4
                <= 0x46);
            if h1 == 0x30 && h2 == 0x30 && ok3 && ok4 {
                let hi: u8 = if h3 <= 0x39 {
                    h3 - 0x30
                } else if h3 >= 0x61 {
                    h3 - 0x61 + 10
                } else {
                    h3 - 0x41 + 10
                };
                let lo: u8 = if h4 <= 0x39 {
                    h4 - 0x30
                } else if h4 >= 0x61 {
                    h4 - 0x61 + 10
                } else {
                    h4 - 0x41 + 10
                };
                assert(t.skip(6) =~= s@.skip(pos as int + 6)) by {
                    lemma_skip_skip(s@, pos as int, 6);
                }
                match parse_string_rest_at(s, pos + 6) {
                    None => None,
                    Some((mut rc, end)) => {
                        rc.insert(0, hi * 16 + lo);
                        assert(rc@ =~= seq![(hex_val(t[4]) * 16 + hex_val(t[5])) as u8]
                            + rc@.drop_first());
                        Some((rc, end))
                    },
                }
            } else {
                None
            }
        } else {
            let unescaped: Option<u8> = if e == 0x22 {
                Some(0x22)
            } else if e == 0x5c {
                Some(0x5c)
            } else if e == 0x2f {
                Some(0x2f)
            } else if e == 0x62 {
                Some(0x08)
            } else if e == 0x66 {
                Some(0x0c)
            } else if e == 0x6e {
                Some(0x0a)
            } else if e == 0x72 {
                Some(0x0d)
            } else if e == 0x74 {
                Some(0x09)
            } else {
                None
            };
            match unescaped {
                None => None,
                Some(ub) => {
                    assert(t.skip(2) =~= s@.skip(pos as int + 2)) by {
                        lemma_skip_skip(s@, pos as int, 2);
                    }
                    match parse_string_rest_at(s, pos + 2) {
                        None => None,
                        Some((mut rc, end)) => {
                            rc.insert(0, ub);
                            assert(rc@ =~= seq![ub] + rc@.drop_first());
                            Some((rc, end))
                        },
                    }
                },
            }
        }
    } else if b < 0x20 {
        None
    } else {
        assert(t.skip(1) =~= s@.skip(pos as int + 1)) by {
            lemma_skip_skip(s@, pos as int, 1);
        }
        match parse_string_rest_at(s, pos + 1) {
            None => None,
            Some((mut rc, end)) => {
                rc.insert(0, b);
                assert(rc@ =~= seq![b] + rc@.drop_first());
                Some((rc, end))
            },
        }
    }
}

pub proof fn lemma_view_items_cons(older: Vec<Json>, newer: Vec<Json>, x: Json)
    requires
        newer@ == older@.insert(0, x),
    ensures
        json_view_items(newer, 0) =~= seq![json_view(x)] + json_view_items(older, 0),
{
    lemma_json_view_items(older, 0);
    lemma_json_view_items(newer, 0);
    assert(newer@ =~= seq![x] + older@);
}

pub proof fn lemma_view_members_cons(
    older: Vec<(Vec<u8>, Json)>,
    newer: Vec<(Vec<u8>, Json)>,
    x: (Vec<u8>, Json),
)
    requires
        newer@ == older@.insert(0, x),
    ensures
        json_view_members(newer, 0) =~= seq![(x.0@, json_view(x.1))] + json_view_members(older, 0),
{
    lemma_json_view_members(older, 0);
    lemma_json_view_members(newer, 0);
    assert(newer@ =~= seq![x] + older@);
}

/// One value starting at `pos`, whitespace included, as `spec_parse_value`
/// reads it.
fn parse_value_at(s: &[u8], pos: usize) -> (r: Option<(Json, usize)>)
    requires
        pos <= s@.len(),
    ensures
        ({
            let t = s@.skip(pos as int);
            match spec_parse_value(t) {
                None => r is None,
                Some((v, n)) => r matches Some((j, end)) && j@ == v && end == pos + n && pos <= end
                    <= s@.len(),
            }
        }),
    decreases s@.len() - pos, 0int,
{
    let ghost t = s@.skip(pos as int);
    proof {
        lemma_ws_count_bounds(t);
    }
    let w = skip_ws_at(s, pos);
    assert(t.skip(w - pos as int) =~= s@.skip(w as int)) by {
        lemma_skip_skip(s@, pos as int, w - pos as int);
    }
    if w >= s.len() {
        return None;
    }
    let b = s[w];
    assert(s@.skip(w as int)[0] == b);
    if b == 0x7b {
        assert(s@.skip(w as int).skip(1) =~= s@.skip(w as int + 1)) by {
            lemma_skip_skip(s@, w as int, 1);
        }
        match parse_members_at(s, w + 1) {
            None => None,
            Some((fields, end)) => Some((Json::Obj(fields), end)),
        }
    } else if b == 0x5b {
        assert(s@.skip(w as int).skip(1) =~= s@.skip(w as int + 1)) by {
            lemma_skip_skip(s@, w as int, 1);
        }
        match parse_items_at(s, w + 1) {
            None => None,
            Some((items, end)) => Some((Json::Arr(items), end)),
        }
    } else if b == 0x22 {
        assert(s@.skip(w as int).skip(1) =~= s@.skip(w as int + 1)) by {
            lemma_skip_skip(s@, w as int, 1);
        }
        match parse_string_rest_at(s, w + 1) {
            None => None,
            Some((content, end)) => Some((Json::Str(content), end)),
        }
    } else if s.len() - w >= 4 && b == 0x6e && s[w + 1] == 0x75 && s[w + 2] == 0x6c && s[w + 3]
        == 0x6c {
        assert(s@.skip(w as int)[1] == s@[w as int + 1]);
        assert(s@.skip(w as int)[2] == s@[w as int + 2]);
        assert(s@.skip(w as int)[3] == s@[w as int + 3]);
        Some((Json::Null, w + 4))
    } else if s.len() - w >= 4 && b == 0x74 && s[w + 1] == 0x72 && s[w + 2] == 0x75 && s[w + 3]
        == 0x65 {
        assert(s@.skip(w as int)[1] == s@[w as int + 1]);
        assert(s@.skip(w as int)[2] == s@[w as int + 2]);
        assert(s@.skip(w as int)[3] == s@[w as int + 3]);
        Some((Json::Bool(true), w + 4))
    } else if s.len() - w >= 5 && b == 0x66 && s[w + 1] == 0x61 && s[w + 2] == 0x6c && s[w + 3]
        == 0x73 && s[w + 4] == 0x65 {
        assert(s@.skip(w as int)[1] == s@[w as int + 1]);
        assert(s@.skip(w as int)[2] == s@[w as int + 2]);
        assert(s@.skip(w as int)[3] == s@[w as int + 3]);
        assert(s@.skip(w as int)[4] == s@[w as int + 4]);
        Some((Json::Bool(false), w + 5))
    } else {
        proof {
            let tw = s@.skip(w as int);
            if tw.len() >= 4 {
                assert(tw[1] == s@[w as int + 1]);
                assert(tw[2] == s@[w as int + 2]);
                assert(tw[3] == s@[w as int + 3]);
            }
            if tw.len() >= 5 {
                assert(tw[4] == s@[w as int + 4]);
            }
        }
        match parse_number_at(s, w) {
            None => None,
            Some((d, end)) => Some((Json::Num(d), end)),
        }
    }
}

/// What follows an object's opening brace.
fn parse_members_at(s: &[u8], pos: usize) -> (r: Option<(Vec<(Vec<u8>, Json)>, usize)>)
    requires
        pos <= s@.len(),
    ensures
        ({
            let t = s@.skip(pos as int);
            match spec_parse_members(t) {
                None => r is None,
                Some((fields, n)) => r matches Some((vf, end)) && json_view_members(vf, 0)
                    == fields && end == pos + n && pos <= end <= s@.len(),
            }
        }),
    decreases s@.len() - pos, 2int,
{
    let ghost t = s@.skip(pos as int);
    proof {
        lemma_ws_count_bounds(t);
    }
    let w = skip_ws_at(s, pos);
    if w >= s.len() {
        return None;
    }
    let b = s[w];
    assert(t[w - pos as int] == b);
    if b == 0x7d {
        let vf: Vec<(Vec<u8>, Json)> = Vec::new();
        assert(json_view_members(vf, 0) =~= Seq::<(Seq<u8>, JsonV)>::empty());
        Some((vf, w + 1))
    } else {
        parse_member_list_at(s, pos)
    }
}

/// One or more members, up to and including the closing brace.
#[verifier::rlimit(100)]
fn parse_member_list_at(s: &[u8], pos: usize) -> (r: Option<(Vec<(Vec<u8>, Json)>, usize)>)
    requires
        pos <= s@.len(),
    ensures
        ({
            let t = s@.skip(pos as int);
            match spec_parse_member_list(t) {
                None => r is None,
                Some((fields, n)) => r matches Some((vf, end)) && json_view_members(vf, 0)
                    == fields && end == pos + n && pos <= end <= s@.len(),
            }
        }),
    decreases s@.len() - pos, 1int,
{
    let ghost t = s@.skip(pos as int);
    proof {
        lemma_ws_count_bounds(t);
    }
    let w = skip_ws_at(s, pos);
    if w >= s.len() {
        return None;
    }
    let b = s[w];
    assert(t[w - pos as int] == b);
    if b != 0x22 {
        return None;
    }
    assert(t.skip(w - pos as int).skip(1) =~= s@.skip(w as int + 1)) by {
        lemma_skip_skip(s@, pos as int, w - pos as int);
        lemma_skip_skip(s@, w as int, 1);
    }
    match parse_string_rest_at(s, w + 1) {
        None => None,
        Some((key, key_end)) => {
            let ghost u = s@.skip(key_end as int);
            assert(t.skip(key_end - pos as int) =~= u) by {
                lemma_skip_skip(s@, pos as int, key_end - pos as int);
            }
            proof {
                lemma_ws_count_bounds(u);
            }
            let w2 = skip_ws_at(s, key_end);
            if w2 >= s.len() {
                return None;
            }
            assert(u[w2 - key_end as int] == s@[w2 as int]);
            if s[w2] != 0x3a {
                return None;
            }
            let val_at = w2 + 1;
            assert(t.skip(val_at - pos as int) =~= s@.skip(val_at as int)) by {
                lemma_skip_skip(s@, pos as int, val_at - pos as int);
            }
            match parse_value_at(s, val_at) {
                None => None,
                Some((val, val_end)) => {
                    let ghost u2 = s@.skip(val_end as int);
                    assert(t.skip(val_end - pos as int) =~= u2) by {
                        lemma_skip_skip(s@, pos as int, val_end - pos as int);
                    }
                    proof {
                        lemma_ws_count_bounds(u2);
                    }
                    let w3 = skip_ws_at(s, val_end);
                    if w3 >= s.len() {
                        return None;
                    }
                    assert(u2[w3 - val_end as int] == s@[w3 as int]);
                    let c = s[w3];
                    if c == 0x7d {
                        let mut vf: Vec<(Vec<u8>, Json)> = Vec::new();
                        vf.insert(0, (key, val));
                        proof {
                            lemma_json_view_members(vf, 0);
                            assert(json_view_members(vf, 0) =~= seq![
                                (vf@[0].0@, json_view(vf@[0].1)),
                            ]);
                        }
                        Some((vf, w3 + 1))
                    } else if c == 0x2c {
                        assert(t.skip(w3 + 1 - pos as int) =~= s@.skip(w3 as int + 1)) by {
                            lemma_skip_skip(s@, pos as int, w3 + 1 - pos as int);
                        }
                        match parse_member_list_at(s, w3 + 1) {
                            None => None,
                            Some((mut rest, end)) => {
                                let ghost before = rest;
                                rest.insert(0, (key, val));
                                proof {
                                    lemma_view_members_cons(before, rest, (key, val));
                                }
                                Some((rest, end))
                            },
                        }
                    } else {
                        None
                    }
                },
            }
        },
    }
}

/// What follows an array's opening bracket.
fn parse_items_at(s: &[u8], pos: usize) -> (r: Option<(Vec<Json>, usize)>)
    requires
        pos <= s@.len(),
    ensures
        ({
            let t = s@.skip(pos as int);
            match spec_parse_items(t) {
                None => r is None,
                Some((items, n)) => r matches Some((vi, end)) && json_view_items(vi, 0) == items
                    && end == pos + n && pos <= end <= s@.len(),
            }
        }),
    decreases s@.len() - pos, 2int,
{
    let ghost t = s@.skip(pos as int);
    proof {
        lemma_ws_count_bounds(t);
    }
    let w = skip_ws_at(s, pos);
    if w >= s.len() {
        return None;
    }
    let b = s[w];
    assert(t[w - pos as int] == b);
    if b == 0x5d {
        let vi: Vec<Json> = Vec::new();
        assert(json_view_items(vi, 0) =~= Seq::<JsonV>::empty());
        Some((vi, w + 1))
    } else {
        parse_item_list_at(s, pos)
    }
}

/// One or more items, up to and including the closing bracket.
#[verifier::rlimit(100)]
#[verifier::spinoff_prover]
fn parse_item_list_at(s: &[u8], pos: usize) -> (r: Option<(Vec<Json>, usize)>)
    requires
        pos <= s@.len(),
    ensures
        ({
            let t = s@.skip(pos as int);
            match spec_parse_item_list(t) {
                None => r is None,
                Some((items, n)) => r matches Some((vi, end)) && json_view_items(vi, 0) == items
                    && end == pos + n && pos <= end <= s@.len(),
            }
        }),
    decreases s@.len() - pos, 1int,
{
    let ghost t = s@.skip(pos as int);
    match parse_value_at(s, pos) {
        None => None,
        Some((val, val_end)) => {
            let ghost u = s@.skip(val_end as int);
            assert(t.skip(val_end - pos as int) =~= u) by {
                lemma_skip_skip(s@, pos as int, val_end - pos as int);
            }
            proof {
                lemma_ws_count_bounds(u);
            }
            let w = skip_ws_at(s, val_end);
            if w >= s.len() {
                return None;
            }
            assert(u[w - val_end as int] == s@[w as int]);
            let c = s[w];
            if c == 0x5d {
                let mut vi: Vec<Json> = Vec::new();
                vi.insert(0, val);
                proof {
                    lemma_json_view_items(vi, 0);
                    assert(json_view_items(vi, 0) =~= seq![json_view(vi@[0])]);
                }
                Some((vi, w + 1))
            } else if c == 0x2c {
                assert(t.skip(w + 1 - pos as int) =~= s@.skip(w as int + 1)) by {
                    lemma_skip_skip(s@, pos as int, w + 1 - pos as int);
                }
                match parse_item_list_at(s, w + 1) {
                    None => None,
                    Some((mut rest, end)) => {
                        let ghost before = rest;
                        rest.insert(0, val);
                        proof {
                            lemma_view_items_cons(before, rest, val);
                        }
                        Some((rest, end))
                    },
                }
            } else {
                None
            }
        },
    }
}

// ---------------------------------------------------------------------------
// Reading fields out of a decoded object. Lookup takes the first member
// with the asked-for key, as the usual JSON decoders do.
// ---------------------------------------------------------------------------

pub open spec fn obj_get_from(fs: Seq<(Seq<u8>, JsonV)>, k: Seq<u8>, i: int) -> Option<JsonV>
    decreases fs.len() - i,
{
    if i < 0 || i >= fs.len() {
        None
    } else if fs[i].0 == k {
        Some(fs[i].1)
    } else {
        obj_get_from(fs, k, i + 1)
    }
}

/// The value under key `k`, at the first member carrying it.
pub open spec fn obj_get(fs: Seq<(Seq<u8>, JsonV)>, k: Seq<u8>) -> Option<JsonV> {
    obj_get_from(fs, k, 0)
}

/// Lookup lands on member `i` when no earlier member carries the key.
pub proof fn lemma_obj_get_at(fs: Seq<(Seq<u8>, JsonV)>, k: Seq<u8>, i: int)
    requires
        0 <= i < fs.len(),
        fs[i].0 == k,
        forall|j: int| 0 <= j < i ==> (#[trigger] fs[j]).0 != k,
    ensures
        obj_get(fs, k) == Some(fs[i].1),
{
    lemma_obj_get_skip(fs, k, 0, i);
}

proof fn lemma_obj_get_skip(fs: Seq<(Seq<u8>, JsonV)>, k: Seq<u8>, j: int, i: int)
    requires
        0 <= j <= i < fs.len(),
        fs[i].0 == k,
        forall|m: int| j <= m < i ==> (#[trigger] fs[m]).0 != k,
    ensures
        obj_get_from(fs, k, j) == Some(fs[i].1),
    decreases i - j,
{
    if j < i {
        lemma_obj_get_skip(fs, k, j + 1, i);
    }
}

/// No member carries the key.
pub proof fn lemma_obj_get_none(fs: Seq<(Seq<u8>, JsonV)>, k: Seq<u8>)
    requires
        forall|j: int| 0 <= j < fs.len() ==> (#[trigger] fs[j]).0 != k,
    ensures
        obj_get(fs, k) is None,
{
    lemma_obj_get_none_from(fs, k, 0);
}

proof fn lemma_obj_get_none_from(fs: Seq<(Seq<u8>, JsonV)>, k: Seq<u8>, j: int)
    requires
        forall|m: int| 0 <= m < fs.len() ==> (#[trigger] fs[m]).0 != k,
        j >= 0,
    ensures
        obj_get_from(fs, k, j) is None,
    decreases fs.len() - j,
{
    if j < fs.len() {
        lemma_obj_get_none_from(fs, k, j + 1);
    }
}

pub open spec fn jv_get(j: JsonV, k: Seq<u8>) -> Option<JsonV> {
    match j {
        JsonV::Obj(fs) => obj_get(fs, k),
        _ => None,
    }
}

pub open spec fn jv_get_str(j: JsonV, k: Seq<u8>) -> Option<Seq<u8>> {
    match jv_get(j, k) {
        Some(JsonV::Str(s)) => Some(s),
        _ => None,
    }
}

pub open spec fn jv_get_dec(j: JsonV, k: Seq<u8>) -> Option<Decimal> {
    match jv_get(j, k) {
        Some(JsonV::Num(d)) => Some(d),
        _ => None,
    }
}

pub open spec fn jv_get_bool(j: JsonV, k: Seq<u8>) -> Option<bool> {
    match jv_get(j, k) {
        Some(JsonV::Bool(b)) => Some(b),
        _ => None,
    }
}

pub open spec fn jv_get_i64(j: JsonV, k: Seq<u8>) -> Option<i64> {
    match jv_get_dec(j, k) {
        Some(d) => crate::decimal::spec_dec_to_i64(d),
        None => None,
    }
}

pub open spec fn jv_get_i32(j: JsonV, k: Seq<u8>) -> Option<i32> {
    match jv_get_dec(j, k) {
        Some(d) => crate::decimal::spec_dec_to_i32(d),
        None => None,
    }
}

pub open spec fn jv_get_u32(j: JsonV, k: Seq<u8>) -> Option<u32> {
    match jv_get_dec(j, k) {
        Some(d) => crate::decimal::spec_dec_to_u32(d),
        None => None,
    }
}

pub open spec fn jv_get_u16(j: JsonV, k: Seq<u8>) -> Option<u16> {
    match jv_get_dec(j, k) {
        Some(d) => crate::decimal::spec_dec_to_u16(d),
        None => None,
    }
}

// A missing or null member reads as an absent optional; a present member of
// the wrong shape fails the whole read, as the strict decoders do.
pub open spec fn jv_get_opt_str(j: JsonV, k: Seq<u8>) -> Option<Option<Seq<u8>>> {
    match jv_get(j, k) {
        None => Some(None),
        Some(JsonV::Null) => Some(None),
        Some(JsonV::Str(s)) => Some(Some(s)),
        Some(_) => None,
    }
}

pub open spec fn jv_get_opt_dec(j: JsonV, k: Seq<u8>) -> Option<Option<Decimal>> {
    match jv_get(j, k) {
        None => Some(None),
        Some(JsonV::Null) => Some(None),
        Some(JsonV::Num(d)) => Some(Some(d)),
        Some(_) => None,
    }
}

pub open spec fn jv_get_opt_i64(j: JsonV, k: Seq<u8>) -> Option<Option<i64>> {
    match jv_get_opt_dec(j, k) {
        None => None,
        Some(None) => Some(None),
        Some(Some(d)) => match crate::decimal::spec_dec_to_i64(d) {
            Some(v) => Some(Some(v)),
            None => None,
        },
    }
}

pub open spec fn jv_get_opt_i32(j: JsonV, k: Seq<u8>) -> Option<Option<i32>> {
    match jv_get_opt_dec(j, k) {
        None => None,
        Some(None) => Some(None),
        Some(Some(d)) => match crate::decimal::spec_dec_to_i32(d) {
            Some(v) => Some(Some(v)),
            None => None,
        },
    }
}

pub open spec fn jv_get_opt_u32(j: JsonV, k: Seq<u8>) -> Option<Option<u32>> {
    match jv_get_opt_dec(j, k) {
        None => None,
        Some(None) => Some(None),
        Some(Some(d)) => match crate::decimal::spec_dec_to_u32(d) {
            Some(v) => Some(Some(v)),
            None => None,
        },
    }
}

/// An owned copy of a byte string.
pub fn vec_of(s: &[u8]) -> (r: Vec<u8>)
    ensures
        r@ == s@,
{
    let mut r: Vec<u8> = Vec::new();
    let mut i: usize = 0;
    while i < s.len()
        invariant
            i <= s@.len(),
            r@ =~= s@.take(i as int),
        decreases s@.len() - i,
    {
        r.push(s[i]);
        assert(r@ =~= s@.take(i + 1 as int));
        i = i + 1;
    }
    assert(s@.take(s@.len() as int) =~= s@);
    r
}

/// Exact byte-for-byte equality of two byte strings.
pub fn bytes_eq(a: &[u8], b: &[u8]) -> (r: bool)
    ensures
        r == (a@ == b@),
{
    if a.len() != b.len() {
        assert(a@.len() != b@.len());
        return false;
    }
    let mut i: usize = 0;
    while i < a.len()
        invariant
            i <= a@.len(),
            a@.len() == b@.len(),
            forall|j: int| 0 <= j < i ==> a@[j] == b@[j],
        decreases a@.len() - i,
    {
        if a[i] != b[i] {
            return false;
        }
        i = i + 1;
    }
    assert(a@ =~= b@);
    true
}

impl Json {
    /// The member under `key`, where this is an object that carries one.
    pub fn get<'a>(&'a self, key: &[u8]) -> (r: Option<&'a Json>)
        ensures
            match jv_get(self@, key@) {
                None => r is None,
                Some(v) => r matches Some(j) && j@ == v,
            },
    {
        match self {
            Json::Obj(fields) => {
                let ghost fsv = self@->Obj_0;
                proof {
                    lemma_json_view_members(*fields, 0);
                }
                let mut i: usize = 0;
                while i < fields.len()
                    invariant
                        i <= fields@.len(),
                        *self == Json::Obj(*fields),
                        fsv == self@->Obj_0,
                        fsv == json_view_members(*fields, 0),
                        fsv.len() == fields@.len(),
                        forall|k: int|
                            0 <= k < fields@.len() ==> #[trigger] fsv[k] == (
                            fields@[k].0@,
                            json_view(fields@[k].1),
                            ),
                        obj_get_from(fsv, key@, 0) == obj_get_from(fsv, key@, i as int),
                    decreases fields@.len() - i,
                {
                    if bytes_eq(fields[i].0.as_slice(), key) {
                        assert(fsv[i as int].0 == key@);
                        return Some(&fields[i].1);
                    }
                    assert(fsv[i as int].0 != key@);
                    i = i + 1;
                }
                None
            },
            _ => None,
        }
    }

    /// Reads a string member, as the bytes between its quotes.
    pub fn get_str(&self, key: &[u8]) -> (r: Option<Vec<u8>>)
        ensures
            match jv_get_str(self@, key@) {
                None => r is None,
                Some(s) => r matches Some(v) && v@ == s,
            },
    {
        match self.get(key) {
            Some(Json::Str(s)) => Some(s.clone()),
            _ => None,
        }
    }

    pub fn get_dec(&self, key: &[u8]) -> (r: Option<Decimal>)
        ensures
            r == jv_get_dec(self@, key@),
    {
        match self.get(key) {
            Some(Json::Num(d)) => Some(*d),
            _ => None,
        }
    }

    pub fn get_bool(&self, key: &[u8]) -> (r: Option<bool>)
        ensures
            r == jv_get_bool(self@, key@),
    {
        match self.get(key) {
            Some(Json::Bool(b)) => Some(*b),
            _ => None,
        }
    }

    pub fn get_i64(&self, key: &[u8]) -> (r: Option<i64>)
        ensures
            r == jv_get_i64(self@, key@),
    {
        match self.get_dec(key) {
            Some(d) => d.to_i64(),
            None => None,
        }
    }

    pub fn get_i32(&self, key: &[u8]) -> (r: Option<i32>)
        ensures
            r == jv_get_i32(self@, key@),
    {
        match self.get_dec(key) {
            Some(d) => d.to_i32(),
            None => None,
        }
    }

    pub fn get_u32(&self, key: &[u8]) -> (r: Option<u32>)
        ensures
            r == jv_get_u32(self@, key@),
    {
        match self.get_dec(key) {
            Some(d) => d.to_u32(),
            None => None,
        }
    }

    pub fn get_u16(&self, key: &[u8]) -> (r: Option<u16>)
        ensures
            r == jv_get_u16(self@, key@),
    {
        match self.get_dec(key) {
            Some(d) => d.to_u16(),
            None => None,
        }
    }

    pub fn get_opt_str(&self, key: &[u8]) -> (r: Option<Option<Vec<u8>>>)
        ensures
            match jv_get_opt_str(self@, key@) {
                None => r is None,
                Some(None) => r == Some(Option::<Vec<u8>>::None),
                Some(Some(s)) => r matches Some(Some(v)) && v@ == s,
            },
    {
        match self.get(key) {
            None => Some(None),
            Some(Json::Null) => Some(None),
            Some(Json::Str(s)) => Some(Some(s.clone())),
            Some(_) => None,
        }
    }

    pub fn get_opt_dec(&self, key: &[u8]) -> (r: Option<Option<Decimal>>)
        ensures
            r == jv_get_opt_dec(self@, key@),
    {
        match self.get(key) {
            None => Some(None),
            Some(Json::Null) => Some(None),
            Some(Json::Num(d)) => Some(Some(*d)),
            Some(_) => None,
        }
    }

    pub fn get_opt_i64(&self, key: &[u8]) -> (r: Option<Option<i64>>)
        ensures
            r == jv_get_opt_i64(self@, key@),
    {
        match self.get_opt_dec(key) {
            None => None,
            Some(None) => Some(None),
            Some(Some(d)) => match d.to_i64() {
                Some(v) => Some(Some(v)),
                None => None,
            },
        }
    }

    pub fn get_opt_i32(&self, key: &[u8]) -> (r: Option<Option<i32>>)
        ensures
            r == jv_get_opt_i32(self@, key@),
    {
        match self.get_opt_dec(key) {
            None => None,
            Some(None) => Some(None),
            Some(Some(d)) => match d.to_i32() {
                Some(v) => Some(Some(v)),
                None => None,
            },
        }
    }

    pub fn get_opt_u32(&self, key: &[u8]) -> (r: Option<Option<u32>>)
        ensures
            r == jv_get_opt_u32(self@, key@),
    {
        match self.get_opt_dec(key) {
            None => None,
            Some(None) => Some(None),
            Some(Some(d)) => match d.to_u32() {
                Some(v) => Some(Some(v)),
                None => None,
            },
        }
    }
}

// ---------------------------------------------------------------------------
// Printing then parsing gives the value back. The lemmas run by induction
// over the tree; `delimits` rules out the one ambiguity, a number whose
// following text begins with more digits or a point.
// ---------------------------------------------------------------------------

/// What may follow a printed value without changing how it parses.
pub open spec fn delimits(v: JsonV, rest: Seq<u8>) -> bool {
    v is Num ==> (rest.len() == 0 || !(is_digit_byte(rest[0]) || rest[0] == 0x2e))
}

/// Every printed value begins with one of the value-opening bytes.
proof fn lemma_print_starts(v: JsonV)
    ensures
        spec_print_json(v).len() >= 1,
        ({
            let h = spec_print_json(v)[0];
            h == 0x6e || h == 0x74 || h == 0x66 || h == 0x22 || h == 0x5b || h == 0x7b || h == 0x2d
                || is_digit_byte(h)
        }),
        v is Num ==> (spec_print_json(v)[0] == 0x2d || is_digit_byte(spec_print_json(v)[0])),
{
    match v {
        JsonV::Num(d) => {
            crate::decimal::lemma_padded_digits_wf(d.mag as nat, d.scale as nat);
            let pad = crate::decimal::spec_padded_digits(d.mag as nat, d.scale as nat);
            if !d.neg {
                if d.scale == 0 {
                    assert(spec_print_decimal(d)[0] == pad[0]);
                } else {
                    assert(spec_print_decimal(d)[0] == pad.take(pad.len() - d.scale)[0]);
                }
            }
        },
        _ => {},
    }
}

/// A digit run followed by a non-digit is counted exactly.
proof fn lemma_digits_count_exact(a: Seq<u8>, b: Seq<u8>)
    requires
        all_digits(a),
        b.len() == 0 || !is_digit_byte(b[0]),
    ensures
        digits_count(a + b) == a.len(),
    decreases a.len(),
{
    if a.len() == 0 {
        assert(a + b =~= b);
    } else {
        assert((a + b)[0] == a[0]);
        assert((a + b).drop_first() =~= a.drop_first() + b);
        assert(all_digits(a.drop_first()));
        lemma_digits_count_exact(a.drop_first(), b);
    }
}

/// A printed decimal parses back to itself when what follows cannot be
/// mistaken for more of the number.
#[verifier::rlimit(100)]
#[verifier::spinoff_prover]
proof fn lemma_parse_print_decimal(d: Decimal, rest: Seq<u8>)
    requires
        rest.len() == 0 || !(is_digit_byte(rest[0]) || rest[0] == 0x2e),
    ensures
        spec_parse_number(spec_print_decimal(d) + rest) == Some(
            (d, spec_print_decimal(d).len() as int),
        ),
{
    let pd = spec_print_decimal(d);
    let s = pd + rest;
    crate::decimal::lemma_padded_digits_wf(d.mag as nat, d.scale as nat);
    let pad = crate::decimal::spec_padded_digits(d.mag as nat, d.scale as nat);
    let sign: Seq<u8> = if d.neg {
        seq![0x2du8]
    } else {
        Seq::<u8>::empty()
    };
    if d.scale == 0 {
        assert(pd =~= sign + pad);
        if d.neg {
            assert(s[0] == 0x2d);
        } else {
            assert(s[0] == pad[0]);
            assert(is_digit_byte(s[0]));
            assert(s[0] != 0x2d);
        }
        let off: int = if d.neg {
            1
        } else {
            0
        };
        let t = s.skip(off);
        assert(t =~= pad + rest);
        lemma_digits_count_exact(pad, rest);
        let k = digits_count(t);
        assert(k == pad.len());
        assert(t.take(k) =~= pad);
        let u = t.skip(k);
        assert(u =~= rest);
        assert(!(u.len() >= 2 && u[0] == 0x2e && is_digit_byte(u[1])));
        assert(digits_val(pad) == d.mag);
        assert(spec_parse_number(s) == Some((Decimal { neg: d.neg, mag: d.mag, scale: 0 }, off + k)));
        assert(off + k == pd.len());
    } else {
        let cut = pad.len() - d.scale;
        let whole = pad.take(cut);
        let frac = pad.skip(cut);
        assert(pd =~= sign + whole + seq![0x2eu8] + frac);
        assert(whole.len() >= 1);
        assert(frac.len() == d.scale);
        assert(all_digits(whole)) by {
            assert(forall|i: int| 0 <= i < whole.len() ==> whole[i] == pad[i]);
        }
        assert(all_digits(frac)) by {
            assert(forall|i: int| 0 <= i < frac.len() ==> frac[i] == pad[cut + i]);
        }
        if d.neg {
            assert(s[0] == 0x2d);
        } else {
            assert(s[0] == whole[0]);
            assert(is_digit_byte(s[0]));
            assert(s[0] != 0x2d);
        }
        let off: int = if d.neg {
            1
        } else {
            0
        };
        let t = s.skip(off);
        assert(t =~= whole + (seq![0x2eu8] + frac + rest));
        lemma_digits_count_exact(whole, seq![0x2eu8] + frac + rest);
        let k = digits_count(t);
        assert(k == whole.len());
        assert(t.take(k) =~= whole);
        let u = t.skip(k);
        assert(u =~= seq![0x2eu8] + frac + rest);
        assert(u.len() >= 2);
        assert(u[0] == 0x2e);
        assert(u[1] == frac[0]);
        assert(is_digit_byte(u[1]));
        assert(u.skip(1) =~= frac + rest);
        lemma_digits_count_exact(frac, rest);
        let f = digits_count(u.skip(1));
        assert(f == frac.len());
        assert(u.skip(1).take(f) =~= frac);
        let digits = t.take(k) + u.skip(1).take(f);
        assert(digits =~= pad);
        assert(digits_val(digits) == d.mag);
        assert(f == d.scale);
        assert(spec_parse_number(s) == Some(
            (Decimal { neg: d.neg, mag: d.mag, scale: d.scale }, off + k + 1 + f),
        ));
        assert(off + k + 1 + f == pd.len());
    }
}

/// The nibble bytes the escaper writes read back as the same nibble.
proof fn lemma_hex_round(x: u8)
    requires
        x < 16,
    ensures
        is_hex_byte(hex_digit_byte(x as nat)),
        hex_val(hex_digit_byte(x as nat)) == x,
{
}

/// An escaped string followed by its closing quote parses back to itself.
proof fn lemma_parse_print_string(content: Seq<u8>, rest: Seq<u8>)
    ensures
        spec_parse_string_rest(spec_escape(content) + seq![b_quote()] + rest) == Some(
            (content, spec_escape(content).len() + 1 as int),
        ),
    decreases content.len(),
{
    let esc = spec_escape(content);
    let s = esc + seq![b_quote()] + rest;
    if content.len() == 0 {
        assert(s =~= seq![b_quote()] + rest);
        assert(s[0] == b_quote());
        assert(spec_parse_string_rest(s) == Some((Seq::<u8>::empty(), 1int)));
        assert(content =~= Seq::<u8>::empty());
    } else {
        let b = content[0];
        let eb = spec_escape_byte(b);
        let tail = content.drop_first();
        let esct = spec_escape(tail);
        assert(esc == eb + esct);
        lemma_parse_print_string(tail, rest);
        let srec = esct + seq![b_quote()] + rest;
        assert(s =~= eb + srec);
        assert(forall|i: int| 0 <= i < eb.len() ==> s[i] == #[trigger] eb[i]);
        assert(s.len() == eb.len() + srec.len());
        if b == 0x22 || b == 0x5c || b == 0x0a || b == 0x0d || b == 0x09 {
            assert(eb.len() == 2);
            assert(s[0] == 0x5c);
            assert(unescape_byte(s[1]) == Some(b));
            assert(s.skip(2) =~= srec);
            assert(spec_parse_string_rest(s) == Some((seq![b] + tail, 2 + (esct.len() + 1 as int))));
            assert(seq![b] + tail =~= content);
        } else if b < 0x20 {
            assert(eb.len() == 6);
            assert(s[0] == 0x5c);
            assert(s[1] == 0x75);
            assert(s[2] == 0x30);
            assert(s[3] == 0x30);
            lemma_hex_round(b / 16);
            lemma_hex_round(b % 16);
            assert(s[4] == hex_digit_byte((b / 16) as nat));
            assert(s[5] == hex_digit_byte((b % 16) as nat));
            assert(is_hex_byte(s[4]) && is_hex_byte(s[5]));
            assert(hex_val(s[4]) * 16 + hex_val(s[5]) == b);
            assert(s.skip(6) =~= srec);
            assert(spec_parse_string_rest(s) == Some((seq![b] + tail, 6 + (esct.len() + 1 as int))));
            assert(seq![b] + tail =~= content);
        } else {
            assert(eb =~= seq![b]);
            assert(s[0] == b);
            assert(b != b_quote() && b != b_backslash() && b >= 0x20);
            assert(s.skip(1) =~= srec);
            assert(spec_parse_string_rest(s) == Some((seq![b] + tail, 1 + (esct.len() + 1 as int))));
            assert(seq![b] + tail =~= content);
        }
    }
}

/// A printed value parses back to itself, whatever delimiting text follows.
#[verifier::rlimit(100)]
pub proof fn lemma_parse_print_value(v: JsonV, rest: Seq<u8>)
    requires
        delimits(v, rest),
    ensures
        spec_parse_value(spec_print_json(v) + rest) == Some(
            (v, spec_print_json(v).len() as int),
        ),
    decreases v, 0int,
{
    let pd = spec_print_json(v);
    let s = pd + rest;
    lemma_print_starts(v);
    assert(s[0] == pd[0]);
    assert(!is_ws(s[0]));
    assert(ws_count(s) == 0);
    assert(s.skip(0) =~= s);
    match v {
        JsonV::Null => {
            assert(s[1] == pd[1] && s[2] == pd[2] && s[3] == pd[3]);
            assert(spec_parse_value(s) == Some((JsonV::Null, 4int)));
        },
        JsonV::Bool(b) => {
            if b {
                assert(s[1] == pd[1] && s[2] == pd[2] && s[3] == pd[3]);
                assert(spec_parse_value(s) == Some((JsonV::Bool(true), 4int)));
            } else {
                assert(s[1] == pd[1] && s[2] == pd[2] && s[3] == pd[3] && s[4] == pd[4]);
                assert(spec_parse_value(s) == Some((JsonV::Bool(false), 5int)));
            }
        },
        JsonV::Num(d) => {
            assert(pd[0] == 0x2d || is_digit_byte(pd[0]));
            assert(s[0] == 0x2d || is_digit_byte(s[0]));
            assert(s[0] != b_lbrace() && s[0] != b_lbrack() && s[0] != b_quote());
            assert(s[0] != 0x6e && s[0] != 0x74 && s[0] != 0x66);
            lemma_parse_print_decimal(d, rest);
            assert(spec_print_decimal(d) + rest =~= s);
            assert(spec_parse_value(s) == Some((JsonV::Num(d), pd.len() as int)));
        },
        JsonV::Str(content) => {
            assert(s[0] == b_quote());
            assert(s.skip(1) =~= spec_escape(content) + seq![b_quote()] + rest);
            lemma_parse_print_string(content, rest);
            assert(spec_parse_value(s) == Some(
                (JsonV::Str(content), 1 + (spec_escape(content).len() + 1 as int)),
            ));
        },
        JsonV::Arr(items) => {
            assert(decreases_to!(v => items));
            lemma_parse_print_arr(items, rest);
        },
        JsonV::Obj(fields) => {
            assert(decreases_to!(v => fields));
            lemma_parse_print_obj(fields, rest);
        },
    }
}

/// The array case of the round trip.
#[verifier::rlimit(100)]
#[verifier::spinoff_prover]
proof fn lemma_parse_print_arr(items: Seq<JsonV>, rest: Seq<u8>)
    ensures
        spec_parse_value(spec_print_json(JsonV::Arr(items)) + rest) == Some(
            (JsonV::Arr(items), spec_print_json(JsonV::Arr(items)).len() as int),
        ),
    decreases items, items.len() + 1, 2int,
{
    let v = JsonV::Arr(items);
    let pd = spec_print_json(v);
    let s = pd + rest;
    assert(s[0] == pd[0]);
    assert(s[0] == b_lbrack());
    assert(!is_ws(s[0]));
    assert(ws_count(s) == 0);
    assert(s.skip(0) =~= s);
    assert(s[0] != b_lbrace() && s[0] != b_quote());
    assert(s.skip(1) =~= spec_print_items(items, 0) + seq![b_rbrack()] + rest);
    if items.len() == 0 {
        assert(spec_print_items(items, 0) =~= Seq::<u8>::empty());
        let inner = spec_print_items(items, 0) + seq![b_rbrack()] + rest;
        assert(inner =~= seq![b_rbrack()] + rest);
        assert(inner[0] == b_rbrack());
        assert(!is_ws(inner[0]));
        assert(ws_count(inner) == 0);
        assert(inner.skip(0) =~= inner);
        assert(spec_parse_items(inner) == Some((Seq::<JsonV>::empty(), 1int)));
        assert(items =~= Seq::<JsonV>::empty());
        assert(spec_parse_value(s) == Some((JsonV::Arr(items), 2int)));
        assert(pd.len() == 2);
    } else {
        lemma_parse_print_item_list(items, 0, rest);
        let inner = spec_print_items(items, 0) + seq![b_rbrack()] + rest;
        lemma_print_starts(items[0]);
        assert(inner[0] == spec_print_json(items[0])[0]) by {
            assert(spec_print_items(items, 0).len() > 0 ==> inner[0] == spec_print_items(
                items,
                0,
            )[0]);
            if items.len() == 1 {
                assert(spec_print_items(items, 0) == spec_print_json(items[0]));
            } else {
                assert(spec_print_items(items, 0)[0] == spec_print_json(items[0])[0]);
            }
        }
        assert(!is_ws(inner[0]));
        assert(ws_count(inner) == 0);
        assert(inner.skip(0) =~= inner);
        assert(inner[0] != b_rbrack());
        assert(items.skip(0) =~= items);
        assert(spec_parse_items(inner) == Some(
            (items, spec_print_items(items, 0).len() + 1 as int),
        ));
        assert(spec_parse_value(s) == Some((JsonV::Arr(items), pd.len() as int)));
    }
}

/// The object case of the round trip.
#[verifier::rlimit(100)]
#[verifier::spinoff_prover]
proof fn lemma_parse_print_obj(fields: Seq<(Seq<u8>, JsonV)>, rest: Seq<u8>)
    ensures
        spec_parse_value(spec_print_json(JsonV::Obj(fields)) + rest) == Some(
            (JsonV::Obj(fields), spec_print_json(JsonV::Obj(fields)).len() as int),
        ),
    decreases fields, fields.len() + 1, 2int,
{
    let v = JsonV::Obj(fields);
    let pd = spec_print_json(v);
    let s = pd + rest;
    assert(s[0] == pd[0]);
    assert(s[0] == b_lbrace());
    assert(!is_ws(s[0]));
    assert(ws_count(s) == 0);
    assert(s.skip(0) =~= s);
    assert(s.skip(1) =~= spec_print_members(fields, 0) + seq![b_rbrace()] + rest);
    if fields.len() == 0 {
        assert(spec_print_members(fields, 0) =~= Seq::<u8>::empty());
        let inner = spec_print_members(fields, 0) + seq![b_rbrace()] + rest;
        assert(inner =~= seq![b_rbrace()] + rest);
        assert(inner[0] == b_rbrace());
        assert(!is_ws(inner[0]));
        assert(ws_count(inner) == 0);
        assert(inner.skip(0) =~= inner);
        assert(spec_parse_members(inner) == Some((Seq::<(Seq<u8>, JsonV)>::empty(), 1int)));
        assert(fields =~= Seq::<(Seq<u8>, JsonV)>::empty());
        assert(spec_parse_value(s) == Some((JsonV::Obj(fields), 2int)));
        assert(pd.len() == 2);
    } else {
        lemma_parse_print_member_list(fields, 0, rest);
        let inner = spec_print_members(fields, 0) + seq![b_rbrace()] + rest;
        assert(inner[0] == b_quote()) by {
            assert(spec_print_members(fields, 0)[0] == b_quote());
        }
        assert(!is_ws(inner[0]));
        assert(ws_count(inner) == 0);
        assert(inner.skip(0) =~= inner);
        assert(inner[0] != b_rbrace());
        assert(fields.skip(0) =~= fields);
        assert(spec_parse_members(inner) == Some(
            (fields, spec_print_members(fields, 0).len() + 1 as int),
        ));
        assert(spec_parse_value(s) == Some((JsonV::Obj(fields), pd.len() as int)));
    }
}

/// The printed items from index `i` on, a closing bracket and anything
/// after, parse back as the item list from `i` on.
#[verifier::rlimit(100)]
#[verifier::spinoff_prover]
proof fn lemma_parse_print_item_list(items: Seq<JsonV>, i: int, rest: Seq<u8>)
    requires
        0 <= i < items.len(),
    ensures
        spec_parse_item_list(spec_print_items(items, i) + seq![b_rbrack()] + rest) == Some(
            (items.skip(i), spec_print_items(items, i).len() + 1 as int),
        ),
    decreases items, items.len() - i, 1int,
{
    let body = spec_print_items(items, i);
    let s = body + seq![b_rbrack()] + rest;
    let pv = spec_print_json(items[i]);
    if i == items.len() - 1 {
        let tail = seq![b_rbrack()] + rest;
        assert(body == pv);
        assert(s =~= pv + tail);
        assert(delimits(items[i], tail)) by {
            assert(tail[0] == b_rbrack());
        }
        lemma_parse_print_value(items[i], tail);
        let u = s.skip(pv.len() as int);
        assert(u =~= tail);
        assert(!is_ws(u[0]));
        assert(ws_count(u) == 0);
        assert(u[0] == b_rbrack());
        assert(spec_parse_item_list(s) == Some((seq![items[i]], pv.len() + 1 as int)));
        assert(seq![items[i]] =~= items.skip(i));
    } else {
        let more = spec_print_items(items, i + 1);
        let tail = seq![b_comma()] + more + seq![b_rbrack()] + rest;
        assert(body == pv + seq![b_comma()] + more);
        assert(s =~= pv + tail);
        assert(delimits(items[i], tail)) by {
            assert(tail[0] == b_comma());
        }
        lemma_parse_print_value(items[i], tail);
        let u = s.skip(pv.len() as int);
        assert(u =~= tail);
        assert(!is_ws(u[0]));
        assert(ws_count(u) == 0);
        assert(u[0] == b_comma());
        assert(u[0] != b_rbrack());
        lemma_parse_print_item_list(items, i + 1, rest);
        assert(u.skip(1) =~= more + seq![b_rbrack()] + rest);
        assert(s.skip(pv.len() + 1 as int) =~= more + seq![b_rbrack()] + rest);
        assert(spec_parse_item_list(s.skip(pv.len() + 1 as int)) == Some(
            (items.skip(i + 1), more.len() + 1 as int),
        ));
        assert(spec_parse_item_list(s) == Some(
            (seq![items[i]] + items.skip(i + 1), pv.len() + 1 + (more.len() + 1 as int)),
        ));
        assert(seq![items[i]] + items.skip(i + 1) =~= items.skip(i));
        assert(pv.len() + 1 + more.len() == body.len());
    }
}

/// The printed members from index `i` on, a closing brace and anything
/// after, parse back as the member list from `i` on.
/// One printed member at the head of a member list: how the list parse
/// proceeds past it, whichever closer follows.
#[verifier::rlimit(100)]
#[verifier::spinoff_prover]
proof fn lemma_parse_print_member_front(key: Seq<u8>, value: JsonV, after_val: Seq<u8>)
    requires
        delimits(value, after_val),
        after_val.len() >= 1,
        !is_ws(after_val[0]),
    ensures
        ({
            let one = seq![b_quote()] + spec_escape(key) + seq![b_quote(), b_colon()]
                + spec_print_json(value);
            let s = one + after_val;
            &&& (after_val[0] == b_rbrace() ==> spec_parse_member_list(s) == Some(
                (seq![(key, value)], one.len() + 1 as int),
            ))
            &&& (after_val[0] == b_comma() ==> spec_parse_member_list(s) == (
            match spec_parse_member_list(s.skip(one.len() + 1 as int)) {
                None => None,
                Some((restf, n3)) => Some(
                    (seq![(key, value)] + restf, one.len() + 1 + n3 as int),
                ),
            }))
        }),
    decreases value, 1int,
{
    let esck = spec_escape(key);
    let pv = spec_print_json(value);
    let one = seq![b_quote()] + esck + seq![b_quote(), b_colon()] + pv;
    let s = one + after_val;
    assert(s[0] == b_quote());
    assert(!is_ws(s[0]));
    assert(ws_count(s) == 0);
    assert(s.skip(0) =~= s);
    assert(s.skip(1) =~= esck + seq![b_quote()] + (seq![b_colon()] + pv + after_val));
    lemma_parse_print_string(key, seq![b_colon()] + pv + after_val);
    let key_end = 1 + esck.len() + 1 as int;
    let u = s.skip(key_end);
    assert(u =~= seq![b_colon()] + pv + after_val);
    assert(!is_ws(u[0]));
    assert(ws_count(u) == 0);
    assert(u[0] == b_colon());
    let val_at = key_end + 1;
    assert(s.skip(val_at) =~= pv + after_val);
    lemma_parse_print_value(value, after_val);
    let val_end = val_at + pv.len() as int;
    let u2 = s.skip(val_end);
    assert(u2 =~= after_val);
    assert(!is_ws(u2[0]));
    assert(ws_count(u2) == 0);
    assert(val_end == one.len());
    if after_val[0] == b_rbrace() {
        assert(spec_parse_member_list(s) == Some((seq![(key, value)], val_end + 1)));
    } else if after_val[0] == b_comma() {
        assert(u2[0] == b_comma() && u2[0] != b_rbrace());
    }
}

/// The printed members from index `i` on, a closing brace and anything
/// after, parse back as the member list from `i` on.
#[verifier::rlimit(100)]
#[verifier::spinoff_prover]
proof fn lemma_parse_print_member_list(fields: Seq<(Seq<u8>, JsonV)>, i: int, rest: Seq<u8>)
    requires
        0 <= i < fields.len(),
    ensures
        spec_parse_member_list(spec_print_members(fields, i) + seq![b_rbrace()] + rest) == Some(
            (fields.skip(i), spec_print_members(fields, i).len() + 1 as int),
        ),
    decreases fields, fields.len() - i, 1int,
{
    let body = spec_print_members(fields, i);
    let s = body + seq![b_rbrace()] + rest;
    let key = fields[i].0;
    let value = fields[i].1;
    let esck = spec_escape(key);
    let pv = spec_print_json(value);
    let one = seq![b_quote()] + esck + seq![b_quote(), b_colon()] + pv;
    if i == fields.len() - 1 {
        let after_val = seq![b_rbrace()] + rest;
        assert(delimits(value, after_val)) by {
            assert(after_val[0] == b_rbrace());
        }
        assert(decreases_to!(fields => fields[i]));
        assert(decreases_to!(fields[i] => fields[i].1));
        lemma_parse_print_member_front(key, value, after_val);
        assert(s =~= one + after_val);
        assert(spec_parse_member_list(s) == Some((seq![(key, value)], one.len() + 1 as int)));
        assert(seq![(key, value)] =~= fields.skip(i));
        assert(one.len() == body.len());
    } else {
        let more = spec_print_members(fields, i + 1);
        let after_val = seq![b_comma()] + more + seq![b_rbrace()] + rest;
        assert(delimits(value, after_val)) by {
            assert(after_val[0] == b_comma());
        }
        assert(decreases_to!(fields => fields[i]));
        assert(decreases_to!(fields[i] => fields[i].1));
        lemma_parse_print_member_front(key, value, after_val);
        assert(s =~= one + after_val);
        lemma_parse_print_member_list(fields, i + 1, rest);
        assert(s.skip(one.len() + 1 as int) =~= more + seq![b_rbrace()] + rest);
        assert(spec_parse_member_list(s.skip(one.len() + 1 as int)) == Some(
            (fields.skip(i + 1), more.len() + 1 as int),
        ));
        assert(spec_parse_member_list(s) == Some(
            (seq![(key, value)] + fields.skip(i + 1), one.len() + 1 + (more.len() + 1 as int)),
        ));
        assert(seq![(key, value)] + fields.skip(i + 1) =~= fields.skip(i));
        assert(one.len() + 1 + more.len() == body.len());
    }
}

/// Free of raw newline bytes.
pub open spec fn no_newline(s: Seq<u8>) -> bool {
    forall|i: int| 0 <= i < s.len() ==> #[trigger] s[i] != 0x0a
}

proof fn lemma_escape_no_newline(s: Seq<u8>)
    ensures
        no_newline(spec_escape(s)),
    decreases s.len(),
{
    if s.len() > 0 {
        lemma_escape_no_newline(s.drop_first());
        let eb = spec_escape_byte(s[0]);
        assert forall|i: int| 0 <= i < spec_escape(s).len() implies #[trigger] spec_escape(s)[i]
            != 0x0a by {
            if i < eb.len() {
                assert(spec_escape(s)[i] == eb[i]);
            } else {
                assert(spec_escape(s)[i] == spec_escape(s.drop_first())[i - eb.len()]);
            }
        }
    }
}

proof fn lemma_print_decimal_no_newline(d: Decimal)
    ensures
        no_newline(spec_print_decimal(d)),
{
    crate::decimal::lemma_padded_digits_wf(d.mag as nat, d.scale as nat);
    let pad = crate::decimal::spec_padded_digits(d.mag as nat, d.scale as nat);
    assert forall|i: int|
        0 <= i < spec_print_decimal(d).len() implies #[trigger] spec_print_decimal(d)[i]
        != 0x0a by {
        let pd = spec_print_decimal(d);
        let off: int = if d.neg {
            1
        } else {
            0
        };
        if d.scale == 0 {
            if i >= off {
                assert(pd[i] == pad[i - off]);
                assert(crate::decimal::is_digit_byte(pad[i - off]));
            }
        } else {
            let cut = pad.len() - d.scale;
            if off <= i < off + cut {
                assert(pd[i] == pad.take(cut)[i - off]);
                assert(crate::decimal::is_digit_byte(pad[i - off]));
            } else if i > off + cut {
                assert(pd[i] == pad.skip(cut)[i - off - cut - 1]);
                assert(crate::decimal::is_digit_byte(pad[cut + (i - off - cut - 1)]));
            }
        }
    }
}

/// The printed wire text never holds a raw newline byte: a line break in
/// a string leaves as its escape, and no other token can produce one.
pub proof fn lemma_print_json_no_newline(v: JsonV)
    ensures
        no_newline(spec_print_json(v)),
    decreases v, 1int,
{
    match v {
        JsonV::Null => {},
        JsonV::Bool(b) => {},
        JsonV::Num(d) => {
            lemma_print_decimal_no_newline(d);
        },
        JsonV::Str(content) => {
            lemma_escape_no_newline(content);
            let pd = spec_print_json(v);
            assert forall|i: int| 0 <= i < pd.len() implies #[trigger] pd[i] != 0x0a by {
                if 1 <= i < pd.len() - 1 {
                    assert(pd[i] == spec_escape(content)[i - 1]);
                }
            }
        },
        JsonV::Arr(items) => {
            lemma_print_items_no_newline(items, 0);
            let pd = spec_print_json(v);
            assert forall|i: int| 0 <= i < pd.len() implies #[trigger] pd[i] != 0x0a by {
                if 1 <= i < pd.len() - 1 {
                    assert(pd[i] == spec_print_items(items, 0)[i - 1]);
                }
            }
        },
        JsonV::Obj(fields) => {
            lemma_print_members_no_newline(fields, 0);
            let pd = spec_print_json(v);
            assert forall|i: int| 0 <= i < pd.len() implies #[trigger] pd[i] != 0x0a by {
                if 1 <= i < pd.len() - 1 {
                    assert(pd[i] == spec_print_members(fields, 0)[i - 1]);
                }
            }
        },
    }
}

proof fn lemma_print_items_no_newline(items: Seq<JsonV>, i: int)
    ensures
        no_newline(spec_print_items(items, i)),
    decreases items, items.len() - i, 0int,
{
    if 0 <= i < items.len() {
        lemma_print_json_no_newline(items[i]);
        if i < items.len() - 1 {
            lemma_print_items_no_newline(items, i + 1);
            let body = spec_print_items(items, i);
            let pv = spec_print_json(items[i]);
            let more = spec_print_items(items, i + 1);
            assert forall|k: int| 0 <= k < body.len() implies #[trigger] body[k] != 0x0a by {
                if k < pv.len() {
                    assert(body[k] == pv[k]);
                } else if k > pv.len() {
                    assert(body[k] == more[k - pv.len() - 1]);
                } else {
                    assert(body[k] == b_comma());
                }
            }
        }
    }
}

proof fn lemma_print_members_no_newline(fields: Seq<(Seq<u8>, JsonV)>, i: int)
    ensures
        no_newline(spec_print_members(fields, i)),
    decreases fields, fields.len() - i, 0int,
{
    if 0 <= i < fields.len() {
        lemma_print_json_no_newline(fields[i].1);
        lemma_escape_no_newline(fields[i].0);
        let one = seq![b_quote()] + spec_escape(fields[i].0) + seq![b_quote(), b_colon()]
            + spec_print_json(fields[i].1);
        let esck = spec_escape(fields[i].0);
        let pv = spec_print_json(fields[i].1);
        assert forall|k: int| 0 <= k < one.len() implies #[trigger] one[k] != 0x0a by {
            if 1 <= k < 1 + esck.len() {
                assert(one[k] == esck[k - 1]);
            } else if k >= 3 + esck.len() {
                assert(one[k] == pv[k - 3 - esck.len()]);
            }
        }
        if i < fields.len() - 1 {
            lemma_print_members_no_newline(fields, i + 1);
            let body = spec_print_members(fields, i);
            let more = spec_print_members(fields, i + 1);
            assert forall|k: int| 0 <= k < body.len() implies #[trigger] body[k] != 0x0a by {
                if k < one.len() {
                    assert(body[k] == one[k]);
                } else if k > one.len() {
                    assert(body[k] == more[k - one.len() - 1]);
                } else {
                    assert(body[k] == b_comma());
                }
            }
        }
    }
}


// ---------------------------------------------------------------------------
// Well-formed UTF-8. The wire carries UTF-8 JSON text, so a message whose
// bytes are not well-formed UTF-8 is refused before the grammar is tried.
// The checker below is verified against vstd's definition of validity.
// ---------------------------------------------------------------------------

/// How many bytes the scalar encoding starting at `i` takes, where one
/// starts there at all.
fn first_scalar_width(s: &[u8], i: usize) -> (r: Option<usize>)
    requires
        i < s@.len(),
    ensures
        match r {
            Some(w) => valid_first_scalar(s@.skip(i as int)) && w == length_of_first_scalar(
                s@.skip(i as int),
            ) && 1 <= w && i + w <= s@.len(),
            None => !valid_first_scalar(s@.skip(i as int)),
        },
{
    let ghost t = s@.skip(i as int);
    let b0 = s[i];
    assert(t[0] == b0);
    if b0 <= 0x7f {
        proof {
            assert((b0 & 0x7f) <= 0x7f) by (bit_vector);
            assert(codepoint_width_1(b0) < 0xd800);
        }
        Some(1)
    } else if 0xc0 <= b0 && b0 <= 0xdf {
        if i + 1 >= s.len() {
            return None;
        }
        let b1 = s[i + 1];
        assert(t.len() >= 2 && t[1] == b1);
        if !(0x80 <= b1 && b1 <= 0xbf) {
            return None;
        }
        let cp: u32 = (((b0 & 0x1f) as u32) << 6u32) | ((b1 & 0x3f) as u32);
        proof {
            assert(cp == codepoint_width_2(b0, b1));
            assert((((b0 & 0x1f) as u32) << 6u32) | ((b1 & 0x3f) as u32) <= 0x7ff) by (bit_vector);
        }
        if cp < 0x80 {
            None
        } else {
            Some(2)
        }
    } else if 0xe0 <= b0 && b0 <= 0xef {
        if s.len() - i < 3 {
            return None;
        }
        let b1 = s[i + 1];
        let b2 = s[i + 2];
        assert(t.len() >= 3 && t[1] == b1 && t[2] == b2);
        if !(0x80 <= b1 && b1 <= 0xbf) || !(0x80 <= b2 && b2 <= 0xbf) {
            return None;
        }
        let cp: u32 = (((b0 & 0x0f) as u32) << 12u32) | (((b1 & 0x3f) as u32) << 6u32) | ((b2
            & 0x3f) as u32);
        proof {
            assert(cp == codepoint_width_3(b0, b1, b2));
        }
        if cp < 0x800 {
            None
        } else if 0xd800 <= cp && cp <= 0xdfff {
            None
        } else {
            proof {
                assert((((b0 & 0x0f) as u32) << 12u32) | (((b1 & 0x3f) as u32) << 6u32) | ((b2
                    & 0x3f) as u32) <= 0xffff) by (bit_vector);
            }
            Some(3)
        }
    } else if 0xf0 <= b0 && b0 <= 0xf7 {
        if s.len() - i < 4 {
            return None;
        }
        let b1 = s[i + 1];
        let b2 = s[i + 2];
        let b3 = s[i + 3];
        assert(t.len() >= 4 && t[1] == b1 && t[2] == b2 && t[3] == b3);
        if !(0x80 <= b1 && b1 <= 0xbf) || !(0x80 <= b2 && b2 <= 0xbf) || !(0x80 <= b3 && b3
            <= 0xbf) {
            return None;
        }
        let cp: u32 = (((b0 & 0x07) as u32) << 18u32) | (((b1 & 0x3f) as u32) << 12u32) | (((b2
            & 0x3f) as u32) << 6u32) | ((b3 & 0x3f) as u32);
        proof {
            assert(cp == codepoint_width_4(b0, b1, b2, b3));
        }
        if cp < 0x10000 || cp > 0x10ffff {
            None
        } else {
            Some(4)
        }
    } else {
        // A stray continuation byte, or a byte no encoding begins with.
        None
    }
}

/// Whether the bytes are a well-formed UTF-8 encoding.
pub fn is_valid_utf8(s: &[u8]) -> (r: bool)
    ensures
        r == valid_utf8(s@),
{
    assert(s@.skip(0) =~= s@);
    let mut i: usize = 0;
    loop
        invariant
            i <= s@.len(),
            valid_utf8(s@) == valid_utf8(s@.skip(i as int)),
        decreases s@.len() - i,
    {
        if i == s.len() {
            assert(s@.skip(i as int).len() == 0);
            return true;
        }
        match first_scalar_width(s, i) {
            None => {
                return false;
            },
            Some(w) => {
                proof {
                    assert(pop_first_scalar(s@.skip(i as int)) =~= s@.skip(i as int + w as int));
                }
                i = i + w;
            },
        }
    }
}

// ---------------------------------------------------------------------------
// Printed text is well-formed UTF-8 whenever the value's own strings are.
// That is the condition under which printing and parsing round-trip, now
// that parsing refuses text that is not UTF-8.
// ---------------------------------------------------------------------------

/// Every string and every key inside the tree is well-formed UTF-8.
pub open spec fn wf_json_text(v: JsonV) -> bool
    decreases v, 1int,
{
    match v {
        JsonV::Null => true,
        JsonV::Bool(_) => true,
        JsonV::Num(_) => true,
        JsonV::Str(s) => valid_utf8(s),
        JsonV::Arr(items) => wf_items_text(items, 0),
        JsonV::Obj(fields) => wf_members_text(fields, 0),
    }
}

pub open spec fn wf_items_text(items: Seq<JsonV>, i: int) -> bool
    decreases items, items.len() - i, 0int,
{
    if i < 0 || i >= items.len() {
        true
    } else {
        wf_json_text(items[i]) && wf_items_text(items, i + 1)
    }
}

pub open spec fn wf_members_text(fields: Seq<(Seq<u8>, JsonV)>, i: int) -> bool
    decreases fields, fields.len() - i, 0int,
{
    if i < 0 || i >= fields.len() {
        true
    } else {
        valid_utf8(fields[i].0) && wf_json_text(fields[i].1) && wf_members_text(fields, i + 1)
    }
}

proof fn lemma_escape_app(a: Seq<u8>, b: Seq<u8>)
    ensures
        spec_escape(a + b) == spec_escape(a) + spec_escape(b),
    decreases a.len(),
{
    if a.len() == 0 {
        assert(a + b =~= b);
        assert(spec_escape(a) + spec_escape(b) =~= spec_escape(b));
    } else {
        assert((a + b)[0] == a[0]);
        assert((a + b).drop_first() =~= a.drop_first() + b);
        lemma_escape_app(a.drop_first(), b);
        assert(spec_escape_byte(a[0]) + (spec_escape(a.drop_first()) + spec_escape(b)) =~= (
        spec_escape_byte(a[0]) + spec_escape(a.drop_first())) + spec_escape(b));
    }
}

/// A run of bytes below 0x80 is well-formed UTF-8, each byte one scalar.
proof fn lemma_ascii_valid_utf8(s: Seq<u8>)
    requires
        forall|i: int| 0 <= i < s.len() ==> #[trigger] s[i] < 0x80,
    ensures
        valid_utf8(s),
    decreases s.len(),
{
    if s.len() > 0 {
        let b = s[0];
        assert(is_leading_byte_width_1(b));
        assert((b & 0x7f) <= 0x7f) by (bit_vector);
        assert(codepoint_width_1(b) < 0xd800);
        assert(pop_first_scalar(s) =~= s.drop_first());
        lemma_ascii_valid_utf8(s.drop_first());
    }
}

/// The escape of a byte below 0x80 consists of bytes below 0x80.
proof fn lemma_escape_byte_ascii(b: u8)
    requires
        b < 0x80,
    ensures
        forall|i: int|
            0 <= i < spec_escape_byte(b).len() ==> #[trigger] spec_escape_byte(b)[i] < 0x80,
{
}

/// Escaping leaves bytes of 0x80 and above exactly as they stand.
proof fn lemma_escape_raw_identity(s: Seq<u8>)
    requires
        forall|i: int| 0 <= i < s.len() ==> #[trigger] s[i] >= 0x80,
    ensures
        spec_escape(s) == s,
    decreases s.len(),
{
    if s.len() > 0 {
        assert(spec_escape_byte(s[0]) =~= seq![s[0]]);
        lemma_escape_raw_identity(s.drop_first());
        assert(seq![s[0]] + s.drop_first() =~= s);
    }
}

/// Escaping well-formed UTF-8 yields well-formed UTF-8: escapes touch only
/// one-byte scalars and replace them with plain ASCII, while the bytes of
/// every longer scalar pass through whole.
proof fn lemma_escape_valid_utf8(content: Seq<u8>)
    requires
        valid_utf8(content),
    ensures
        valid_utf8(spec_escape(content)),
    decreases content.len(),
{
    broadcast use valid_utf8_concat;

    if content.len() > 0 {
        let w = length_of_first_scalar(content);
        let head = take_first_scalar(content);
        let tail = pop_first_scalar(content);
        assert(1 <= w <= 4 && w <= content.len());
        assert(content =~= head + tail);
        lemma_escape_app(head, tail);
        lemma_escape_valid_utf8(tail);
        if w == 1 {
            assert(head =~= seq![content[0]]);
            assert(content[0] < 0x80);
            assert(spec_escape(head) =~= spec_escape_byte(content[0]) + spec_escape(
                head.drop_first(),
            ));
            assert(head.drop_first().len() == 0);
            assert(spec_escape(head) =~= spec_escape_byte(content[0]));
            lemma_escape_byte_ascii(content[0]);
            lemma_ascii_valid_utf8(spec_escape(head));
        } else {
            assert forall|i: int| 0 <= i < head.len() implies #[trigger] head[i] >= 0x80 by {
                assert(head[i] == content[i]);
                if i == 0 {
                    assert(!is_leading_byte_width_1(content[0]));
                } else {
                    assert(is_continuation_byte(content[i]));
                }
            }
            lemma_escape_raw_identity(head);
            assert(valid_first_scalar(head)) by {
                assert(head.len() == w);
                assert(head[0] == content[0]);
                if w >= 2 {
                    assert(head[1] == content[1]);
                }
                if w >= 3 {
                    assert(head[2] == content[2]);
                }
                if w >= 4 {
                    assert(head[3] == content[3]);
                }
            }
            assert(head[0] == content[0]);
            assert(length_of_first_scalar(head) == w);
            assert(pop_first_scalar(head) =~= Seq::<u8>::empty());
            assert(valid_utf8(Seq::<u8>::empty()));
            assert(valid_utf8(head));
        }
        assert(valid_utf8(spec_escape(head) + spec_escape(tail)));
    }
}

/// Every printed decimal byte is plain ASCII.
proof fn lemma_print_decimal_ascii(d: Decimal)
    ensures
        forall|i: int|
            0 <= i < spec_print_decimal(d).len() ==> #[trigger] spec_print_decimal(d)[i] < 0x80,
{
    crate::decimal::lemma_padded_digits_wf(d.mag as nat, d.scale as nat);
    let pad = crate::decimal::spec_padded_digits(d.mag as nat, d.scale as nat);
    assert forall|i: int|
        0 <= i < spec_print_decimal(d).len() implies #[trigger] spec_print_decimal(d)[i]
        < 0x80 by {
        let pd = spec_print_decimal(d);
        let off: int = if d.neg {
            1
        } else {
            0
        };
        if d.scale == 0 {
            if i >= off {
                assert(pd[i] == pad[i - off]);
                assert(is_digit_byte(pad[i - off]));
            }
        } else {
            let cut = pad.len() - d.scale;
            if off <= i < off + cut {
                assert(pd[i] == pad.take(cut)[i - off]);
                assert(is_digit_byte(pad[i - off]));
            } else if i > off + cut {
                assert(pd[i] == pad.skip(cut)[i - off - cut - 1]);
                assert(is_digit_byte(pad[cut + (i - off - cut - 1)]));
            }
        }
    }
}

/// Printed wire text is well-formed UTF-8 whenever the value's strings are.
pub proof fn lemma_print_json_valid_utf8(v: JsonV)
    requires
        wf_json_text(v),
    ensures
        valid_utf8(spec_print_json(v)),
    decreases v, 1int,
{
    broadcast use valid_utf8_concat;

    match v {
        JsonV::Null => {
            lemma_ascii_valid_utf8(spec_print_json(v));
        },
        JsonV::Bool(_) => {
            lemma_ascii_valid_utf8(spec_print_json(v));
        },
        JsonV::Num(d) => {
            lemma_print_decimal_ascii(d);
            lemma_ascii_valid_utf8(spec_print_json(v));
        },
        JsonV::Str(content) => {
            lemma_escape_valid_utf8(content);
            lemma_ascii_valid_utf8(seq![b_quote()]);
            assert(valid_utf8(seq![b_quote()] + spec_escape(content)));
            assert(valid_utf8((seq![b_quote()] + spec_escape(content)) + seq![b_quote()]));
        },
        JsonV::Arr(items) => {
            lemma_print_items_valid_utf8(items, 0);
            lemma_ascii_valid_utf8(seq![b_lbrack()]);
            lemma_ascii_valid_utf8(seq![b_rbrack()]);
            assert(valid_utf8(seq![b_lbrack()] + spec_print_items(items, 0)));
            assert(valid_utf8((seq![b_lbrack()] + spec_print_items(items, 0)) + seq![b_rbrack()]));
        },
        JsonV::Obj(fields) => {
            lemma_print_members_valid_utf8(fields, 0);
            lemma_ascii_valid_utf8(seq![b_lbrace()]);
            lemma_ascii_valid_utf8(seq![b_rbrace()]);
            assert(valid_utf8(seq![b_lbrace()] + spec_print_members(fields, 0)));
            assert(valid_utf8((seq![b_lbrace()] + spec_print_members(fields, 0)) + seq![
                b_rbrace(),
            ]));
        },
    }
}

proof fn lemma_print_items_valid_utf8(items: Seq<JsonV>, i: int)
    requires
        wf_items_text(items, i),
    ensures
        valid_utf8(spec_print_items(items, i)),
    decreases items, items.len() - i, 0int,
{
    broadcast use valid_utf8_concat;

    if 0 <= i < items.len() {
        lemma_print_json_valid_utf8(items[i]);
        if i < items.len() - 1 {
            lemma_print_items_valid_utf8(items, i + 1);
            lemma_ascii_valid_utf8(seq![b_comma()]);
            assert(valid_utf8(spec_print_json(items[i]) + seq![b_comma()]));
            assert(valid_utf8((spec_print_json(items[i]) + seq![b_comma()]) + spec_print_items(
                items,
                i + 1,
            )));
        }
    } else {
        lemma_ascii_valid_utf8(spec_print_items(items, i));
    }
}

proof fn lemma_print_members_valid_utf8(fields: Seq<(Seq<u8>, JsonV)>, i: int)
    requires
        wf_members_text(fields, i),
    ensures
        valid_utf8(spec_print_members(fields, i)),
    decreases fields, fields.len() - i, 0int,
{
    broadcast use valid_utf8_concat;

    if 0 <= i < fields.len() {
        lemma_print_json_valid_utf8(fields[i].1);
        lemma_escape_valid_utf8(fields[i].0);
        lemma_ascii_valid_utf8(seq![b_quote()]);
        lemma_ascii_valid_utf8(seq![b_quote(), b_colon()]);
        let one = seq![b_quote()] + spec_escape(fields[i].0) + seq![b_quote(), b_colon()]
            + spec_print_json(fields[i].1);
        assert(valid_utf8(seq![b_quote()] + spec_escape(fields[i].0)));
        assert(valid_utf8((seq![b_quote()] + spec_escape(fields[i].0)) + seq![
            b_quote(),
            b_colon(),
        ]));
        assert(valid_utf8(one));
        if i < fields.len() - 1 {
            lemma_print_members_valid_utf8(fields, i + 1);
            lemma_ascii_valid_utf8(seq![b_comma()]);
            assert(valid_utf8(one + seq![b_comma()]));
            assert(valid_utf8((one + seq![b_comma()]) + spec_print_members(fields, i + 1)));
        }
    } else {
        lemma_ascii_valid_utf8(spec_print_members(fields, i));
    }
}

/// Printing a value and parsing the text back gives exactly that value,
/// for every value whose strings are themselves well-formed UTF-8. One
/// whose strings are not - say a name holding the lone byte 0xff - prints
/// to text that is not UTF-8, which the parser rightly refuses.
pub proof fn lemma_print_parse_json(v: JsonV)
    requires
        wf_json_text(v),
    ensures
        spec_parse_json(spec_print_json(v)) == Some(v),
{
    lemma_print_json_valid_utf8(v);
    lemma_parse_print_value(v, Seq::empty());
    let pd = spec_print_json(v);
    assert(pd + Seq::<u8>::empty() =~= pd);
    let n = pd.len() as int;
    assert(pd.skip(n) =~= Seq::<u8>::empty());
    assert(ws_count(pd.skip(n)) == 0);
}

/// One whole message: well-formed UTF-8 holding a value with nothing but
/// whitespace around it.
pub fn decode_json(s: &[u8]) -> (r: Option<Json>)
    ensures
        match spec_parse_json(s@) {
            None => r is None,
            Some(v) => r matches Some(j) && j@ == v,
        },
{
    if !is_valid_utf8(s) {
        return None;
    }
    assert(s@.skip(0) =~= s@);
    match parse_value_at(s, 0) {
        None => None,
        Some((j, end)) => {
            proof {
                lemma_ws_count_bounds(s@.skip(end as int));
            }
            let after = skip_ws_at(s, end);
            if after == s.len() {
                Some(j)
            } else {
                None
            }
        },
    }
}

} // verus!
