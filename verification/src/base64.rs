//! The base64 text of a key blob, as a known-hosts line carries it.

use vstd::prelude::*;
use crate::text::{is_space, push_char};

verus! {

/// The character that stands for the six-bit value `v` in the standard
/// alphabet.
pub open spec fn sextet_char(v: int) -> char
    recommends
        0 <= v < 64,
{
    if v < 26 {
        ((v + 65) as u8) as char
    } else if v < 52 {
        ((v + 71) as u8) as char
    } else if v < 62 {
        ((v - 4) as u8) as char
    } else if v == 62 {
        '+'
    } else {
        '/'
    }
}

/// The four characters that encode up to three bytes; `n` is the number of
/// bytes that are really there, and the missing ones count as zero.
pub open spec fn encode_group(b0: u8, b1: u8, b2: u8, n: int) -> Seq<char>
    recommends
        1 <= n <= 3,
{
    let c0 = sextet_char(b0 as int / 4);
    let c1 = sextet_char((b0 as int % 4) * 16 + b1 as int / 16);
    let c2 = sextet_char((b1 as int % 16) * 4 + b2 as int / 64);
    let c3 = sextet_char(b2 as int % 64);
    if n == 1 {
        seq![c0, c1, '=', '=']
    } else if n == 2 {
        seq![c0, c1, c2, '=']
    } else {
        seq![c0, c1, c2, c3]
    }
}

/// The base64 text of `bytes`: standard alphabet, padded with `=` to a
/// multiple of four characters.
pub open spec fn encode_spec(bytes: Seq<u8>) -> Seq<char>
    decreases bytes.len(),
{
    if bytes.len() == 0 {
        Seq::empty()
    } else if bytes.len() == 1 {
        encode_group(bytes[0], 0, 0, 1)
    } else if bytes.len() == 2 {
        encode_group(bytes[0], bytes[1], 0, 2)
    } else {
        encode_group(bytes[0], bytes[1], bytes[2], 3) + encode_spec(bytes.skip(3))
    }
}

/// The six-bit value that `c` stands for, if it is of the alphabet.
pub open spec fn sextet_value(c: char) -> Option<int> {
    let u = c as u32 as int;
    if 65 <= u <= 90 {
        Some(u - 65)
    } else if 97 <= u <= 122 {
        Some(u - 71)
    } else if 48 <= u <= 57 {
        Some(u + 4)
    } else if u == 43 {
        Some(62)
    } else if u == 47 {
        Some(63)
    } else {
        None
    }
}

/// The number of `=` at the end of `text`.
pub open spec fn padding_len(text: Seq<char>) -> nat
    decreases text.len(),
{
    if text.len() > 0 && text.last() == '=' {
        1 + padding_len(text.drop_last())
    } else {
        0
    }
}

/// The value of the character at `i`, nothing where it is not of the
/// alphabet.
pub open spec fn value_at(body: Seq<char>, i: int) -> int {
    match sextet_value(body[i]) {
        Some(v) => v,
        None => 0,
    }
}

/// The bytes that the characters of `body` encode, four characters for
/// three bytes; two characters at the end give one byte and three give two.
pub open spec fn decode_body(body: Seq<char>) -> Seq<u8>
    decreases body.len(),
{
    if body.len() < 2 {
        Seq::empty()
    } else {
        let b0 = (value_at(body, 0) * 4 + value_at(body, 1) / 16) as u8;
        if body.len() == 2 {
            seq![b0]
        } else {
            let b1 = ((value_at(body, 1) % 16) * 16 + value_at(body, 2) / 4) as u8;
            if body.len() == 3 {
                seq![b0, b1]
            } else {
                let b2 = ((value_at(body, 2) % 4) * 64 + value_at(body, 3)) as u8;
                seq![b0, b1, b2] + decode_body(body.skip(4))
            }
        }
    }
}

/// The text without the `=` at its end.
pub open spec fn unpadded(text: Seq<char>) -> Seq<char> {
    text.take(text.len() - padding_len(text))
}

/// The bytes that `text` encodes, if it is base64. The `=` at the end are
/// not counted, every other character has to be of the alphabet, and a
/// single character may not be left over behind the groups of four.
pub open spec fn decode_spec(text: Seq<char>) -> Option<Seq<u8>> {
    let body = unpadded(text);
    if body.len() % 4 != 1 && forall|i: int|
        0 <= i < body.len() ==> sextet_value(#[trigger] body[i]) is Some {
        Some(decode_body(body))
    } else {
        None
    }
}

fn sextet_of(c: char) -> (v: Option<u8>)
    ensures
        match v {
            Some(x) => sextet_value(c) == Some(x as int) && x < 64,
            None => sextet_value(c) is None,
        },
{
    let u = c as u32;
    if 65 <= u && u <= 90 {
        Some((u - 65) as u8)
    } else if 97 <= u && u <= 122 {
        Some((u - 71) as u8)
    } else if 48 <= u && u <= 57 {
        Some((u + 4) as u8)
    } else if u == 43 {
        Some(62)
    } else if u == 47 {
        Some(63)
    } else {
        None
    }
}

/// The `=` at the end are no more than the text, only `=` stand among them,
/// and none stands right before them.
pub proof fn lemma_padding_len_bound(text: Seq<char>)
    ensures
        padding_len(text) <= text.len(),
        padding_len(text) < text.len() ==> text[text.len() - padding_len(text) - 1] != '=',
        forall|k: int| text.len() - padding_len(text) <= k < text.len() ==> #[trigger] text[k] == '=',
    decreases text.len(),
{
    if text.len() > 0 && text.last() == '=' {
        let front = text.drop_last();
        lemma_padding_len_bound(front);
        assert forall|k: int| text.len() - padding_len(text) <= k < text.len() implies #[trigger] text[k]
            == '=' by {
            if k < front.len() {
                assert(text[k] == front[k]);
            }
        }
        if padding_len(text) < text.len() {
            assert(text[text.len() - padding_len(text) - 1] == front[front.len() - padding_len(
                front,
            ) - 1]);
        }
    }
}

/// Decodes base64 text.
pub fn decode(text: &Vec<char>) -> (r: Option<Vec<u8>>)
    ensures
        match r {
            Some(bytes) => decode_spec(text@) == Some(bytes@),
            None => decode_spec(text@) is None,
        },
{
    let mut end: usize = text.len();
    assert(text@.take(end as int) =~= text@);
    while end > 0 && text[end - 1] == '='
        invariant
            end <= text.len(),
            padding_len(text@) == (text.len() - end) + padding_len(text@.take(end as int)),
        decreases end,
    {
        assert(text@.take(end as int).drop_last() =~= text@.take(end as int - 1));
        end -= 1;
    }
    proof {
        if end > 0 {
            assert(text@.take(end as int).last() == text@[end as int - 1]);
        }
    }
    let ghost body = unpadded(text@);
    assert(body =~= text@.take(end as int));
    let mut values: Vec<u8> = Vec::new();
    let mut i: usize = 0;
    while i < end
        invariant
            i <= end <= text.len(),
            body == text@.take(end as int),
            body == unpadded(text@),
            values@.len() == i,
            forall|k: int| 0 <= k < i ==> sextet_value(#[trigger] body[k]) == Some(values@[k] as int),
            forall|k: int| 0 <= k < i ==> values@[k] < 64,
        decreases end - i,
    {
        match sextet_of(text[i]) {
            Some(v) => {
                values.push(v);
            },
            None => {
                assert(sextet_value(body[i as int]) is None);
                return None;
            },
        }
        i += 1;
    }
    if end % 4 == 1 {
        return None;
    }
    let mut out: Vec<u8> = Vec::new();
    let mut j: usize = 0;
    assert(body.skip(0) =~= body);
    while end - j >= 4
        invariant
            j <= end == body.len(),
            body == unpadded(text@),
            values@.len() == end,
            forall|k: int| 0 <= k < end ==> sextet_value(#[trigger] body[k]) == Some(values@[k] as int),
            forall|k: int| 0 <= k < end ==> values@[k] < 64,
            out@ + decode_body(body.skip(j as int)) == decode_body(body),
        decreases end - j,
    {
        let v0 = values[j];
        let v1 = values[j + 1];
        let v2 = values[j + 2];
        let v3 = values[j + 3];
        let ghost rest = body.skip(j as int);
        let ghost before = out@;
        proof {
            assert(rest[0] == body[j as int] && rest[1] == body[j as int + 1] && rest[2] == body[j as int
                + 2] && rest[3] == body[j as int + 3]);
            assert(rest.skip(4) =~= body.skip(j as int + 4));
        }
        out.push((v0 % 64) * 4 + v1 / 16);
        out.push((v1 % 16) * 16 + v2 / 4);
        out.push((v2 % 4) * 64 + v3);
        proof {
            assert(out@ =~= before + seq![
                (value_at(rest, 0) * 4 + value_at(rest, 1) / 16) as u8,
                ((value_at(rest, 1) % 16) * 16 + value_at(rest, 2) / 4) as u8,
                ((value_at(rest, 2) % 4) * 64 + value_at(rest, 3)) as u8,
            ]);
            assert(before + decode_body(rest) =~= out@ + decode_body(rest.skip(4)));
        }
        j += 4;
    }
    let ghost rest = body.skip(j as int);
    let ghost before = out@;
    if end - j == 2 {
        let v0 = values[j];
        let v1 = values[j + 1];
        assert(rest[0] == body[j as int] && rest[1] == body[j as int + 1]);
        out.push((v0 % 64) * 4 + v1 / 16);
        assert(out@ =~= before + decode_body(rest));
    } else if end - j == 3 {
        let v0 = values[j];
        let v1 = values[j + 1];
        let v2 = values[j + 2];
        assert(rest[0] == body[j as int] && rest[1] == body[j as int + 1] && rest[2] == body[j as int
            + 2]);
        out.push((v0 % 64) * 4 + v1 / 16);
        out.push((v1 % 16) * 16 + v2 / 4);
        assert(out@ =~= before + decode_body(rest));
    } else {
        assert(out@ =~= before + decode_body(rest));
    }
    Some(out)
}

fn sextet(v: u8) -> (c: char)
    requires
        v < 64,
    ensures
        c == sextet_char(v as int),
{
    if v < 26 {
        (v + 65) as char
    } else if v < 52 {
        (v + 71) as char
    } else if v < 62 {
        (v - 4) as char
    } else if v == 62 {
        '+'
    } else {
        '/'
    }
}

/// Encodes `bytes` as base64 text.
pub fn encode(bytes: &[u8]) -> (text: String)
    ensures
        text@ == encode_spec(bytes@),
{
    let mut text = String::new();
    let mut i: usize = 0;
    let n = bytes.len();
    assert(bytes@.skip(0) =~= bytes@);
    while n - i >= 3
        invariant
            i <= n == bytes@.len(),
            text@ + encode_spec(bytes@.skip(i as int)) == encode_spec(bytes@),
        decreases n - i,
    {
        let b0 = bytes[i];
        let b1 = bytes[i + 1];
        let b2 = bytes[i + 2];
        let ghost before = text@;
        let ghost rest = bytes@.skip(i as int);
        push_char(&mut text, sextet(b0 / 4));
        push_char(&mut text, sextet((b0 % 4) * 16 + b1 / 16));
        push_char(&mut text, sextet((b1 % 16) * 4 + b2 / 64));
        push_char(&mut text, sextet(b2 % 64));
        proof {
            assert(rest.skip(3) =~= bytes@.skip(i as int + 3));
            assert(text@ =~= before + encode_group(rest[0], rest[1], rest[2], 3));
            assert(before + encode_spec(rest) =~= text@ + encode_spec(rest.skip(3)));
        }
        i += 3;
    }
    let ghost before = text@;
    let ghost rest = bytes@.skip(i as int);
    if n - i == 1 {
        let b0 = bytes[i];
        push_char(&mut text, sextet(b0 / 4));
        push_char(&mut text, sextet((b0 % 4) * 16));
        push_char(&mut text, '=');
        push_char(&mut text, '=');
        assert(text@ =~= before + encode_spec(rest));
    } else if n - i == 2 {
        let b0 = bytes[i];
        let b1 = bytes[i + 1];
        push_char(&mut text, sextet(b0 / 4));
        push_char(&mut text, sextet((b0 % 4) * 16 + b1 / 16));
        push_char(&mut text, sextet((b1 % 16) * 4));
        push_char(&mut text, '=');
        assert(text@ =~= before + encode_spec(rest));
    } else {
        assert(text@ =~= before + encode_spec(rest));
    }
    text
}

/// A character of the alphabet stands for one six-bit value only, and none
/// of them is the padding character.
pub proof fn lemma_sextet_char_distinct(u: int, v: int)
    requires
        0 <= u < 64,
        0 <= v < 64,
    ensures
        sextet_char(u) != '=',
        sextet_char(u) == sextet_char(v) ==> u == v,
{
    let cu = sextet_char(u) as u32;
    let cv = sextet_char(v) as u32;
    assert(cu == if u < 26 {
        u + 65
    } else if u < 52 {
        u + 71
    } else if u < 62 {
        u - 4
    } else if u == 62 {
        43
    } else {
        47
    });
    assert(cv == if v < 26 {
        v + 65
    } else if v < 52 {
        v + 71
    } else if v < 62 {
        v - 4
    } else if v == 62 {
        43
    } else {
        47
    });
    assert('=' as u32 == 61);
}

/// The value of the character of a six-bit value is that value.
pub proof fn lemma_sextet_value_of_char(v: int)
    requires
        0 <= v < 64,
    ensures
        sextet_value(sextet_char(v)) == Some(v),
{
    let c = sextet_char(v) as u32;
    assert(c == if v < 26 {
        v + 65
    } else if v < 52 {
        v + 71
    } else if v < 62 {
        v - 4
    } else if v == 62 {
        43
    } else {
        47
    });
}

proof fn lemma_padding_of_concat(a: Seq<char>, b: Seq<char>)
    requires
        padding_len(b) < b.len(),
    ensures
        padding_len(a + b) == padding_len(b),
    decreases b.len(),
{
    if b.last() == '=' {
        assert((a + b).last() == '=');
        assert((a + b).drop_last() =~= a + b.drop_last());
        lemma_padding_of_concat(a, b.drop_last());
    } else {
        assert((a + b).last() == b.last());
    }
}

/// The six-bit values of three bytes give the bytes again.
proof fn lemma_sextets_give_bytes(b0: u8, b1: u8, b2: u8)
    ensures
        ({
            let v0 = b0 as int / 4;
            let v1 = (b0 as int % 4) * 16 + b1 as int / 16;
            let v2 = (b1 as int % 16) * 4 + b2 as int / 64;
            let v3 = b2 as int % 64;
            &&& 0 <= v0 < 64 && 0 <= v1 < 64 && 0 <= v2 < 64 && 0 <= v3 < 64
            &&& v0 * 4 + v1 / 16 == b0
            &&& (v1 % 16) * 16 + v2 / 4 == b1
            &&& (v2 % 4) * 64 + v3 == b2
        }),
{
}

/// The characters of a group are of the alphabet and stand for the values
/// that they were made of.
proof fn lemma_group_chars(b0: u8, b1: u8, b2: u8, n: int)
    requires
        1 <= n <= 3,
    ensures
        ({
            let g = encode_group(b0, b1, b2, n);
            &&& g.len() == 4
            &&& sextet_value(g[0]) == Some(b0 as int / 4)
            &&& sextet_value(g[1]) == Some((b0 as int % 4) * 16 + b1 as int / 16)
            &&& n >= 2 ==> sextet_value(g[2]) == Some((b1 as int % 16) * 4 + b2 as int / 64)
            &&& n >= 3 ==> sextet_value(g[3]) == Some(b2 as int % 64)
            &&& g[0] != '=' && g[1] != '='
            &&& (g[2] == '=') == (n < 2)
            &&& (g[3] == '=') == (n < 3)
        }),
{
    lemma_sextets_give_bytes(b0, b1, b2);
    let v0 = b0 as int / 4;
    let v1 = (b0 as int % 4) * 16 + b1 as int / 16;
    let v2 = (b1 as int % 16) * 4 + b2 as int / 64;
    let v3 = b2 as int % 64;
    lemma_sextet_value_of_char(v0);
    lemma_sextet_value_of_char(v1);
    lemma_sextet_value_of_char(v2);
    lemma_sextet_value_of_char(v3);
    lemma_sextet_char_distinct(v0, 0);
    lemma_sextet_char_distinct(v1, 0);
    lemma_sextet_char_distinct(v2, 0);
    lemma_sextet_char_distinct(v3, 0);
}

/// One or two bytes are decoded again from their padded group.
proof fn lemma_decode_short(bytes: Seq<u8>)
    requires
        1 <= bytes.len() <= 2,
    ensures
        decode_spec(encode_spec(bytes)) == Some(bytes),
{
    let text = encode_spec(bytes);
    let b0 = bytes[0];
    let b1: u8 = if bytes.len() >= 2 { bytes[1] } else { 0 };
    lemma_group_chars(b0, b1, 0, bytes.len() as int);
    lemma_sextets_give_bytes(b0, b1, 0);
    if bytes.len() == 1 {
        let body = text.take(2);
        assert(text.drop_last().drop_last() =~= body);
        assert(padding_len(body) == 0);
        assert(padding_len(text.drop_last()) == 1);
        assert(padding_len(text) == 2);
        assert(unpadded(text) =~= body);
        assert(decode_body(body) =~= bytes);
    } else {
        let body = text.take(3);
        assert(text.drop_last() =~= body);
        assert(padding_len(body) == 0);
        assert(padding_len(text) == 1);
        assert(unpadded(text) =~= body);
        assert(decode_body(body) =~= bytes);
    }
}

/// A full group before a body gives its three bytes before those of the
/// body.
proof fn lemma_decode_group(b0: u8, b1: u8, b2: u8, rest: Seq<char>)
    ensures
        decode_body(encode_group(b0, b1, b2, 3) + rest) == seq![b0, b1, b2] + decode_body(rest),
{
    let group = encode_group(b0, b1, b2, 3);
    let body = group + rest;
    lemma_group_chars(b0, b1, b2, 3);
    lemma_sextets_give_bytes(b0, b1, b2);
    assert(body[0] == group[0] && body[1] == group[1] && body[2] == group[2] && body[3]
        == group[3]);
    assert(body.skip(4) =~= rest);
}

/// What was encoded is decoded again: the bytes that the text of `bytes`
/// encodes are `bytes`.
pub proof fn lemma_decode_inverts_encode(bytes: Seq<u8>)
    ensures
        decode_spec(encode_spec(bytes)) == Some(bytes),
    decreases bytes.len(),
{
    let text = encode_spec(bytes);
    if bytes.len() == 0 {
        assert(unpadded(text) =~= Seq::<char>::empty());
        assert(decode_body(unpadded(text)) =~= bytes);
    } else if bytes.len() <= 2 {
        lemma_decode_short(bytes);
    } else {
        let group = encode_group(bytes[0], bytes[1], bytes[2], 3);
        let rest = bytes.skip(3);
        let tail = encode_spec(rest);
        lemma_decode_inverts_encode(rest);
        lemma_group_chars(bytes[0], bytes[1], bytes[2], 3);
        assert(text =~= group + tail);
        assert(bytes =~= seq![bytes[0], bytes[1], bytes[2]] + rest);
        let body_tail = unpadded(tail);
        if rest.len() == 0 {
            assert(tail =~= Seq::<char>::empty());
            assert(text =~= group);
            assert(padding_len(text) == 0);
            assert(unpadded(text) =~= group + body_tail);
        } else {
            lemma_padding_len_bound(tail);
            lemma_tail_begins_with_alphabet(rest);
            if padding_len(tail) >= tail.len() {
                assert(tail[0] == '=');
            }
            lemma_padding_of_concat(group, tail);
            assert(unpadded(text) =~= group + body_tail);
        }
        let body = unpadded(text);
        lemma_decode_group(bytes[0], bytes[1], bytes[2], body_tail);
        assert forall|i: int| 0 <= i < body.len() implies sextet_value(#[trigger] body[i])
            is Some by {
            if i >= 4 {
                assert(body[i] == body_tail[i - 4]);
            } else {
                assert(body[i] == group[i]);
            }
        }
    }
}

proof fn lemma_tail_begins_with_alphabet(bytes: Seq<u8>)
    requires
        bytes.len() > 0,
    ensures
        encode_spec(bytes).len() > 0,
        encode_spec(bytes)[0] != '=',
{
    lemma_sextet_char_distinct(bytes[0] as int / 4, 0);
}

/// The text of a key blob is one word: it holds no white space, and is
/// empty only where the blob is.
pub proof fn lemma_encode_is_word(bytes: Seq<u8>)
    ensures
        forall|k: int| 0 <= k < encode_spec(bytes).len() ==> !is_space(#[trigger] encode_spec(bytes)[k]),
        bytes.len() > 0 ==> encode_spec(bytes).len() > 0,
    decreases bytes.len(),
{
    let text = encode_spec(bytes);
    if bytes.len() > 0 {
        let b1: u8 = if bytes.len() >= 2 { bytes[1] } else { 0 };
        let b2: u8 = if bytes.len() >= 3 { bytes[2] } else { 0 };
        let n: int = if bytes.len() >= 3 { 3 } else { bytes.len() as int };
        let group = encode_group(bytes[0], b1, b2, n);
        lemma_sextet_char_no_space(bytes[0] as int / 4);
        lemma_sextet_char_no_space((bytes[0] as int % 4) * 16 + b1 as int / 16);
        lemma_sextet_char_no_space((b1 as int % 16) * 4 + b2 as int / 64);
        lemma_sextet_char_no_space(b2 as int % 64);
        assert(!is_space('='));
        assert(forall|k: int| 0 <= k < 4 ==> !is_space(#[trigger] group[k]));
        if bytes.len() >= 3 {
            lemma_encode_is_word(bytes.skip(3));
            let tail = encode_spec(bytes.skip(3));
            assert(text =~= group + tail);
            assert forall|k: int| 0 <= k < text.len() implies !is_space(#[trigger] text[k]) by {
                if k < 4 {
                    assert(text[k] == group[k]);
                } else {
                    assert(text[k] == tail[k - 4]);
                }
            }
        } else {
            assert(text =~= group);
        }
    }
}

proof fn lemma_sextet_char_no_space(v: int)
    requires
        0 <= v < 64,
    ensures
        !is_space(sextet_char(v)),
{
    let c = sextet_char(v) as u32;
    assert(c == if v < 26 {
        v + 65
    } else if v < 52 {
        v + 71
    } else if v < 62 {
        v - 4
    } else if v == 62 {
        43
    } else {
        47
    });
}

/// Two groups with the same four characters encode the same bytes.
pub proof fn lemma_group_injective(a0: u8, a1: u8, a2: u8, n: int, b0: u8, b1: u8, b2: u8, m: int)
    requires
        1 <= n <= 3,
        1 <= m <= 3,
        n < 3 ==> a2 == 0,
        n < 2 ==> a1 == 0,
        m < 3 ==> b2 == 0,
        m < 2 ==> b1 == 0,
        encode_group(a0, a1, a2, n) == encode_group(b0, b1, b2, m),
    ensures
        n == m,
        a0 == b0,
        a1 == b1,
        a2 == b2,
{
    let x = encode_group(a0, a1, a2, n);
    let y = encode_group(b0, b1, b2, m);
    assert(x[0] == y[0] && x[1] == y[1] && x[2] == y[2] && x[3] == y[3]);
    lemma_sextet_char_distinct(a0 as int / 4, b0 as int / 4);
    lemma_sextet_char_distinct(
        (a0 as int % 4) * 16 + a1 as int / 16,
        (b0 as int % 4) * 16 + b1 as int / 16,
    );
    lemma_sextet_char_distinct(
        (a1 as int % 16) * 4 + a2 as int / 64,
        (b1 as int % 16) * 4 + b2 as int / 64,
    );
    lemma_sextet_char_distinct(a2 as int % 64, b2 as int % 64);
    lemma_sextet_char_distinct(
        (b1 as int % 16) * 4 + b2 as int / 64,
        (a1 as int % 16) * 4 + a2 as int / 64,
    );
    lemma_sextet_char_distinct(b2 as int % 64, a2 as int % 64);
}

/// The text of `bytes` has four characters for every three bytes begun.
pub proof fn lemma_encode_len(bytes: Seq<u8>)
    ensures
        encode_spec(bytes).len() == 4 * ((bytes.len() + 2) / 3),
    decreases bytes.len(),
{
    if bytes.len() >= 3 {
        lemma_encode_len(bytes.skip(3));
    }
}

/// Encoding loses nothing: two byte strings with the same text are equal.
pub proof fn lemma_encode_injective(a: Seq<u8>, b: Seq<u8>)
    requires
        encode_spec(a) == encode_spec(b),
    ensures
        a == b,
    decreases a.len(),
{
    lemma_encode_len(a);
    lemma_encode_len(b);
    if a.len() == 0 || b.len() == 0 {
        assert(a =~= b);
    } else {
        let na: int = if a.len() >= 3 { 3 } else { a.len() as int };
        let nb: int = if b.len() >= 3 { 3 } else { b.len() as int };
        let a1: u8 = if a.len() >= 2 { a[1] } else { 0 };
        let a2: u8 = if a.len() >= 3 { a[2] } else { 0 };
        let b1: u8 = if b.len() >= 2 { b[1] } else { 0 };
        let b2: u8 = if b.len() >= 3 { b[2] } else { 0 };
        let ga = encode_group(a[0], a1, a2, na);
        let gb = encode_group(b[0], b1, b2, nb);
        let ta = if a.len() >= 3 { encode_spec(a.skip(3)) } else { Seq::empty() };
        let tb = if b.len() >= 3 { encode_spec(b.skip(3)) } else { Seq::empty() };
        assert(encode_spec(a) =~= ga + ta);
        assert(encode_spec(b) =~= gb + tb);
        assert(ga =~= encode_spec(a).take(4));
        assert(gb =~= encode_spec(b).take(4));
        assert(ta =~= encode_spec(a).skip(4));
        assert(tb =~= encode_spec(b).skip(4));
        lemma_group_injective(a[0], a1, a2, na, b[0], b1, b2, nb);
        if a.len() >= 3 {
            lemma_encode_injective(a.skip(3), b.skip(3));
            assert(a =~= seq![a[0], a[1], a[2]] + a.skip(3));
            assert(b =~= seq![b[0], b[1], b[2]] + b.skip(3));
        } else {
            assert(a =~= b);
        }
    }
}

} // verus!
