//! The form encoding of query parameters, and how a query reads back.

use vstd::prelude::*;
use vstd::utf8::encode_utf8;

verus! {

/// The bytes that the form encoding leaves as they are: ASCII letters and
/// digits, `*`, `-`, `.` and `_`.
pub open spec fn kept_as_is(b: u8) -> bool {
    ||| b == 0x2a
    ||| b == 0x2d
    ||| b == 0x2e
    ||| 0x30 <= b <= 0x39
    ||| 0x41 <= b <= 0x5a
    ||| b == 0x5f
    ||| 0x61 <= b <= 0x7a
}

/// The upper-case hexadecimal digit for a value below sixteen.
pub open spec fn hex_digit(n: u8) -> char {
    if n < 10 {
        (0x30 + n) as u8 as char
    } else {
        (0x37 + n) as u8 as char
    }
}

/// The form encoding of one byte: itself where it is kept, `+` for a space,
/// else `%` and its two hexadecimal digits.
pub open spec fn encode_byte(b: u8) -> Seq<char> {
    if kept_as_is(b) {
        seq![b as char]
    } else if b == 0x20 {
        seq!['+']
    } else {
        seq!['%', hex_digit(b / 16), hex_digit(b % 16)]
    }
}

/// The `application/x-www-form-urlencoded` encoding of a byte string.
pub open spec fn form_encode(bytes: Seq<u8>) -> Seq<char>
    decreases bytes.len(),
{
    if bytes.len() == 0 {
        Seq::empty()
    } else {
        encode_byte(bytes[0]) + form_encode(bytes.drop_first())
    }
}

/// One query parameter: name and value, each form-encoded from its UTF-8
/// bytes, with `=` between them.
pub open spec fn query_pair(name: Seq<char>, value: Seq<char>) -> Seq<char> {
    form_encode(encode_utf8(name)) + seq!['='] + form_encode(encode_utf8(value))
}

/// The value of an upper-case hexadecimal digit.
pub open spec fn hex_value(c: char) -> Option<u8> {
    if '0' <= c <= '9' {
        Some((c as u8 - 0x30) as u8)
    } else if 'A' <= c <= 'F' {
        Some((c as u8 - 0x37) as u8)
    } else {
        None
    }
}

/// The bytes that a form-encoded text stands for: `+` is a space, `%` with
/// two hexadecimal digits is the byte they give, and any other character is
/// its own byte.
pub open spec fn form_decode(text: Seq<char>) -> Seq<u8>
    decreases text.len(),
{
    if text.len() == 0 {
        Seq::empty()
    } else if text[0] == '%' && text.len() >= 3 && hex_value(text[1]) is Some && hex_value(
        text[2],
    ) is Some {
        seq![(16 * hex_value(text[1]).unwrap() + hex_value(text[2]).unwrap()) as u8] + form_decode(
            text.skip(3),
        )
    } else if text[0] == '+' {
        seq![0x20u8] + form_decode(text.skip(1))
    } else {
        seq![text[0] as u8] + form_decode(text.skip(1))
    }
}

/// Decoding undoes encoding: the receiver of a form-encoded value reads the
/// bytes that were encoded, whatever they are.
pub proof fn lemma_decode_encode(bytes: Seq<u8>)
    ensures
        form_decode(form_encode(bytes)) == bytes,
    decreases bytes.len(),
{
    if bytes.len() > 0 {
        let b: u8 = bytes[0];
        let rest = bytes.drop_first();
        let text = form_encode(bytes);
        lemma_decode_encode(rest);
        if kept_as_is(b) {
            assert(text[0] == b as char);
            assert(text.skip(1) =~= form_encode(rest));
            assert(text[0] as u8 == b);
        } else if b == 0x20 {
            assert(text[0] == '+');
            assert(text.skip(1) =~= form_encode(rest));
        } else {
            let hi: u8 = b / 16;
            let lo: u8 = b % 16;
            assert(text[0] == '%');
            assert(text[1] == hex_digit(hi));
            assert(text[2] == hex_digit(lo));
            assert(hex_value(hex_digit(hi)) == Some(hi));
            assert(hex_value(hex_digit(lo)) == Some(lo));
            assert(text.skip(3) =~= form_encode(rest));
            assert(16 * hi + lo == b);
        }
        assert(form_decode(text) =~= seq![b] + form_decode(form_encode(rest)));
        assert(bytes =~= seq![b] + rest);
    }
}

/// The characters that a form-encoded text is made of: ASCII letters and
/// digits, `*`, `-`, `.`, `_`, and `+` and `%`. None of them is `&`, `=`, `?`
/// or `#`.
pub open spec fn in_encoded_alphabet(c: char) -> bool {
    ||| c == '*'
    ||| c == '-'
    ||| c == '.'
    ||| c == '_'
    ||| c == '+'
    ||| c == '%'
    ||| '0' <= c <= '9'
    ||| 'A' <= c <= 'Z'
    ||| 'a' <= c <= 'z'
}

/// The characters of a text whose bytes the form encoding keeps.
pub open spec fn plain_text(text: Seq<char>) -> bool {
    &&& vstd::utf8::is_ascii_chars(text)
    &&& forall|i: int| 0 <= i < text.len() ==> kept_as_is(#[trigger] text[i] as u8)
}

/// A form-encoded text holds no character beyond the encoded alphabet, so no
/// `&`, `=`, `?` or `#`: in a query, every `&` separates two parameters and
/// the first `=` of a parameter ends its name.
pub proof fn lemma_encoded_alphabet(bytes: Seq<u8>)
    ensures
        forall|i: int|
            0 <= i < form_encode(bytes).len() ==> in_encoded_alphabet(
                #[trigger] form_encode(bytes)[i],
            ),
    decreases bytes.len(),
{
    if bytes.len() > 0 {
        let head = encode_byte(bytes[0]);
        let b: u8 = bytes[0];
        lemma_encoded_alphabet(bytes.drop_first());
        assert(forall|k: int| 0 <= k < head.len() ==> in_encoded_alphabet(#[trigger] head[k]));
        assert forall|i: int| 0 <= i < form_encode(bytes).len() implies in_encoded_alphabet(
            #[trigger] form_encode(bytes)[i],
        ) by {
            if i < head.len() {
                assert(form_encode(bytes)[i] == head[i]);
            } else {
                assert(form_encode(bytes)[i] == form_encode(bytes.drop_first())[i - head.len()]);
            }
        }
    }
}

/// The form encoding of kept bytes is the same bytes, read as characters.
pub proof fn lemma_kept_bytes_unchanged(bytes: Seq<u8>)
    requires
        forall|i: int| 0 <= i < bytes.len() ==> kept_as_is(#[trigger] bytes[i]),
    ensures
        form_encode(bytes) == bytes.map_values(|b: u8| b as char),
    decreases bytes.len(),
{
    let same = bytes.map_values(|b: u8| b as char);
    if bytes.len() == 0 {
        assert(form_encode(bytes) =~= same);
    } else {
        let rest = bytes.drop_first();
        assert forall|i: int| 0 <= i < rest.len() implies kept_as_is(#[trigger] rest[i]) by {
            assert(rest[i] == bytes[i + 1]);
        }
        lemma_kept_bytes_unchanged(rest);
        assert(form_encode(bytes) =~= same);
    }
}

/// A text of ASCII letters, digits, `*`, `-`, `.` and `_` stands in the query
/// as it is written: its form encoding is the text itself.
pub proof fn lemma_plain_text_unchanged(text: Seq<char>)
    requires
        plain_text(text),
    ensures
        form_encode(encode_utf8(text)) == text,
{
    let bytes = encode_utf8(text);
    vstd::utf8::is_ascii_chars_encode_utf8(text);
    assert forall|i: int| 0 <= i < bytes.len() implies kept_as_is(#[trigger] bytes[i]) by {
        assert(bytes[i] == text[i] as u8);
    }
    lemma_kept_bytes_unchanged(bytes);
    assert forall|i: int| 0 <= i < text.len() implies (bytes[i] as char) == text[i] by {
        assert(bytes[i] == text[i] as u8);
    }
    assert(form_encode(bytes) =~= text);
}

/// The position of the first `c` in `text`; the length of `text` where it
/// holds none.
pub open spec fn first_index_of(text: Seq<char>, c: char) -> int
    decreases text.len(),
{
    if text.len() == 0 {
        0
    } else if text[0] == c {
        0
    } else {
        1 + first_index_of(text.drop_first(), c)
    }
}

/// A query of three parameters, with `&` between them.
pub open spec fn query_text(
    first: (Seq<char>, Seq<char>),
    second: (Seq<char>, Seq<char>),
    third: (Seq<char>, Seq<char>),
) -> Seq<char> {
    query_pair(first.0, first.1) + seq!['&'] + query_pair(second.0, second.1) + seq!['&']
        + query_pair(third.0, third.1)
}

/// One parameter as its receiver reads it: the name before the first `=`
/// and the value after it, both decoded to bytes.
pub open spec fn read_pair(text: Seq<char>) -> (Seq<u8>, Seq<u8>) {
    let i = first_index_of(text, '=');
    if 0 <= i < text.len() {
        (form_decode(text.subrange(0, i)), form_decode(text.subrange(i + 1, text.len() as int)))
    } else {
        (form_decode(text), Seq::empty())
    }
}

/// A query as its receiver reads it: the pieces between `&`, each read as
/// one parameter.
pub open spec fn read_query(text: Seq<char>) -> Seq<(Seq<u8>, Seq<u8>)>
    decreases text.len(),
{
    let i = first_index_of(text, '&');
    if 0 <= i < text.len() {
        seq![read_pair(text.subrange(0, i))] + read_query(
            text.subrange(i + 1, text.len() as int),
        )
    } else {
        seq![read_pair(text)]
    }
}

/// The text holds no `c`.
pub open spec fn free_of(text: Seq<char>, c: char) -> bool {
    forall|i: int| 0 <= i < text.len() ==> text[i] != c
}

/// A text without `c` has no first `c`; a text that goes on with `c` after
/// a part without it has its first `c` right there.
pub proof fn lemma_first_index_of(before: Seq<char>, c: char, after: Seq<char>)
    requires
        free_of(before, c),
    ensures
        first_index_of(before, c) == before.len(),
        first_index_of(before + seq![c] + after, c) == before.len(),
    decreases before.len(),
{
    let whole = before + seq![c] + after;
    if before.len() == 0 {
        assert(whole[0] == c);
    } else {
        assert(whole[0] == before[0]);
        assert(whole.drop_first() =~= before.drop_first() + seq![c] + after);
        assert forall|i: int| 0 <= i < before.drop_first().len() implies before.drop_first()[i]
            != c by {
            assert(before.drop_first()[i] == before[i + 1]);
        }
        lemma_first_index_of(before.drop_first(), c, after);
    }
}

/// A parameter reads back as the name and the value that were encoded.
pub proof fn lemma_read_pair(name: Seq<char>, value: Seq<char>)
    ensures
        read_pair(query_pair(name, value)) == (encode_utf8(name), encode_utf8(value)),
        free_of(query_pair(name, value), '&'),
{
    let n = form_encode(encode_utf8(name));
    let v = form_encode(encode_utf8(value));
    let text = query_pair(name, value);
    lemma_encoded_alphabet(encode_utf8(name));
    lemma_encoded_alphabet(encode_utf8(value));
    lemma_decode_encode(encode_utf8(name));
    lemma_decode_encode(encode_utf8(value));
    assert forall|i: int| 0 <= i < n.len() implies n[i] != '=' by {
        assert(in_encoded_alphabet(n[i]));
    }
    lemma_first_index_of(n, '=', v);
    assert(text.subrange(0, n.len() as int) =~= n);
    assert(text.subrange(n.len() as int + 1, text.len() as int) =~= v);
    assert forall|i: int| 0 <= i < text.len() implies text[i] != '&' by {
        if i < n.len() {
            assert(in_encoded_alphabet(n[i]));
        } else if i > n.len() {
            assert(text[i] == v[i - n.len() - 1]);
            assert(in_encoded_alphabet(v[i - n.len() - 1]));
        }
    }
}

/// A query reads back piece by piece: a piece without `&` is one parameter,
/// and what follows the first `&` is read as the rest of the query.
pub proof fn lemma_read_query_step(piece: Seq<char>, rest: Seq<char>)
    requires
        free_of(piece, '&'),
    ensures
        read_query(piece) == seq![read_pair(piece)],
        read_query(piece + seq!['&'] + rest) == seq![read_pair(piece)] + read_query(rest),
{
    let whole = piece + seq!['&'] + rest;
    lemma_first_index_of(piece, '&', rest);
    assert(whole.subrange(0, piece.len() as int) =~= piece);
    assert(whole.subrange(piece.len() as int + 1, whole.len() as int) =~= rest);
}

/// Three pieces without `&`, joined by `&`, read back as three parameters.
pub proof fn lemma_read_three(p1: Seq<char>, p2: Seq<char>, p3: Seq<char>)
    requires
        free_of(p1, '&'),
        free_of(p2, '&'),
        free_of(p3, '&'),
    ensures
        read_query(p1 + seq!['&'] + p2 + seq!['&'] + p3) == seq![
            read_pair(p1),
            read_pair(p2),
            read_pair(p3),
        ],
{
    lemma_read_query_step(p3, Seq::empty());
    lemma_read_query_step(p2, p3);
    lemma_read_query_step(p1, p2 + seq!['&'] + p3);
    assert(p1 + seq!['&'] + p2 + seq!['&'] + p3 =~= p1 + seq!['&'] + (p2 + seq!['&'] + p3));
    assert(seq![read_pair(p1)] + (seq![read_pair(p2)] + seq![read_pair(p3)]) =~= seq![
        read_pair(p1),
        read_pair(p2),
        read_pair(p3),
    ]);
}

/// A query of three parameters reads back as exactly these three, in their
/// order, with the names and values that were encoded, whatever characters
/// they hold.
pub proof fn lemma_read_query(
    first: (Seq<char>, Seq<char>),
    second: (Seq<char>, Seq<char>),
    third: (Seq<char>, Seq<char>),
)
    ensures
        read_query(query_text(first, second, third)) == seq![
            (encode_utf8(first.0), encode_utf8(first.1)),
            (encode_utf8(second.0), encode_utf8(second.1)),
            (encode_utf8(third.0), encode_utf8(third.1)),
        ],
{
    lemma_read_pair(first.0, first.1);
    lemma_read_pair(second.0, second.1);
    lemma_read_pair(third.0, third.1);
    lemma_read_three(
        query_pair(first.0, first.1),
        query_pair(second.0, second.1),
        query_pair(third.0, third.1),
    );
}

} // verus!
