//! Base64, as the event stream carries binary frames.

use vstd::prelude::*;

verus! {

/// The symbol of a six-bit value.
pub open spec fn symbol(v: int) -> char {
    if v < 26 {
        (65 + v) as u8 as char
    } else if v < 52 {
        (97 + v - 26) as u8 as char
    } else if v < 62 {
        (48 + v - 52) as u8 as char
    } else if v == 62 {
        '+'
    } else {
        '/'
    }
}

/// The six-bit value of a symbol.
pub open spec fn value(c: char) -> int {
    if 'A' <= c <= 'Z' {
        c as int - 65
    } else if 'a' <= c <= 'z' {
        c as int - 97 + 26
    } else if '0' <= c <= '9' {
        c as int - 48 + 52
    } else if c == '+' {
        62
    } else {
        63
    }
}

/// The base64 text of some bytes: four symbols for each three bytes, padded at the end.
pub open spec fn encoded(data: Seq<u8>) -> Seq<char>
    decreases data.len(),
{
    if data.len() == 0 {
        Seq::empty()
    } else if data.len() == 1 {
        seq![symbol(data[0] as int / 4), symbol(data[0] % 4 * 16), '=', '=']
    } else if data.len() == 2 {
        seq![
            symbol(data[0] as int / 4),
            symbol(data[0] % 4 * 16 + data[1] / 16),
            symbol(data[1] % 16 * 4),
            '=',
        ]
    } else {
        seq![
            symbol(data[0] as int / 4),
            symbol(data[0] % 4 * 16 + data[1] / 16),
            symbol(data[1] % 16 * 4 + data[2] / 64),
            symbol(data[2] as int % 64),
        ] + encoded(data.skip(3))
    }
}

/// The bytes of a base64 text.
pub open spec fn decoded(text: Seq<char>) -> Seq<u8>
    decreases text.len(),
{
    if text.len() < 4 {
        Seq::empty()
    } else {
        let b0 = (value(text[0]) * 4 + value(text[1]) / 16) as u8;
        let b1 = (value(text[1]) % 16 * 16 + value(text[2]) / 4) as u8;
        let b2 = (value(text[2]) % 4 * 64 + value(text[3])) as u8;
        if text[2] == '=' {
            seq![b0]
        } else if text[3] == '=' {
            seq![b0, b1]
        } else {
            seq![b0, b1, b2] + decoded(text.skip(4))
        }
    }
}

/// The symbol of a six-bit value.
fn symbol_of(v: u8) -> (r: char)
    requires
        v < 64,
    ensures
        r == symbol(v as int),
{
    if v < 26 {
        (65 + v) as char
    } else if v < 52 {
        (97 + (v - 26)) as char
    } else if v < 62 {
        (48 + (v - 52)) as char
    } else if v == 62 {
        '+'
    } else {
        '/'
    }
}

/// Encodes bytes as base64.
pub fn base64_encode(data: &[u8]) -> (r: String)
    ensures
        r@ == encoded(data@),
{
    let mut result = String::new();
    let mut i: usize = 0;
    assert(data@.skip(0) =~= data@);
    while data.len() - i >= 3
        invariant
            i <= data.len(),
            encoded(data@) == result@ + encoded(data@.skip(i as int)),
        decreases data.len() - i,
    {
        let ghost before = result@;
        let ghost rest = data@.skip(i as int);
        let b0 = data[i];
        let b1 = data[i + 1];
        let b2 = data[i + 2];
        result.push(symbol_of(b0 / 4));
        result.push(symbol_of(b0 % 4 * 16 + b1 / 16));
        result.push(symbol_of(b1 % 16 * 4 + b2 / 64));
        result.push(symbol_of(b2 % 64));
        proof {
            assert(rest.skip(3) =~= data@.skip(i + 3));
            assert(before + encoded(rest) =~= result@ + encoded(data@.skip(i + 3)));
        }
        i = i + 3;
    }
    let ghost before = result@;
    let ghost rest = data@.skip(i as int);
    if data.len() - i == 1 {
        let b0 = data[i];
        result.push(symbol_of(b0 / 4));
        result.push(symbol_of(b0 % 4 * 16));
        result.push('=');
        result.push('=');
    } else if data.len() - i == 2 {
        let b0 = data[i];
        let b1 = data[i + 1];
        result.push(symbol_of(b0 / 4));
        result.push(symbol_of(b0 % 4 * 16 + b1 / 16));
        result.push(symbol_of(b1 % 16 * 4));
        result.push('=');
    }
    assert(result@ =~= before + encoded(rest));
    result
}

proof fn lemma_symbol(v: int)
    requires
        0 <= v < 64,
    ensures
        value(symbol(v)) == v,
        symbol(v) != '=',
{
}

/// Decoding the text of some bytes gives the bytes.
pub proof fn law_decoding_undoes_encoding(data: Seq<u8>)
    ensures
        decoded(encoded(data)) == data,
        encoded(data).len() == (data.len() + 2) / 3 * 4,
    decreases data.len(),
{
    let text = encoded(data);
    if data.len() == 1 {
        lemma_symbol((data[0] / 4) as int);
        lemma_symbol(data[0] % 4 * 16);
        assert(decoded(text) =~= data);
    } else if data.len() == 2 {
        lemma_symbol((data[0] / 4) as int);
        lemma_symbol(data[0] % 4 * 16 + data[1] / 16);
        lemma_symbol(data[1] % 16 * 4);
        assert(decoded(text) =~= data);
    } else if data.len() >= 3 {
        law_decoding_undoes_encoding(data.skip(3));
        lemma_symbol((data[0] / 4) as int);
        lemma_symbol(data[0] % 4 * 16 + data[1] / 16);
        lemma_symbol(data[1] % 16 * 4 + data[2] / 64);
        lemma_symbol((data[2] % 64) as int);
        assert(text.skip(4) =~= encoded(data.skip(3)));
        assert(decoded(text) =~= data);
    } else {
        assert(decoded(text) =~= data);
    }
}

/// The alphabet: upper case, lower case, digits, plus and slash.
pub open spec fn alphabet() -> Seq<char> {
    "ABCDEFGHIJKLMNOPQRSTUVWXYZabcdefghijklmnopqrstuvwxyz0123456789+/"@
}

proof fn lemma_alphabet(v: int)
    requires
        0 <= v < 64,
    ensures
        alphabet().len() == 64,
        alphabet()[v] == symbol(v),
{
    reveal_strlit("ABCDEFGHIJKLMNOPQRSTUVWXYZabcdefghijklmnopqrstuvwxyz0123456789+/");
}

#[verifier::rlimit(40)]
#[verifier::spinoff_prover]
proof fn lemma_first_group(data: Seq<u8>) -> (v: (int, int, int, int))
    requires
        data.len() >= 3,
    ensures
        0 <= v.0 < 64 && 0 <= v.1 < 64 && 0 <= v.2 < 64 && 0 <= v.3 < 64,
        encoded(data)[0] == alphabet()[v.0],
        encoded(data)[1] == alphabet()[v.1],
        encoded(data)[2] == alphabet()[v.2],
        encoded(data)[3] == alphabet()[v.3],
        0x4_0000 * v.0 + 0x1000 * v.1 + 0x40 * v.2 + v.3 == 0x1_0000 * data[0] + 0x100 * data[1]
            + data[2],
{
    let v0 = data[0] as int / 4;
    let v1 = data[0] % 4 * 16 + data[1] / 16;
    let v2 = data[1] % 16 * 4 + data[2] / 64;
    let v3 = data[2] as int % 64;
    lemma_alphabet(v0);
    lemma_alphabet(v1);
    lemma_alphabet(v2);
    lemma_alphabet(v3);
    (v0, v1, v2, v3)
}

/// Each three bytes become four symbols of the alphabet whose places, six bits
/// each, are the bits of the bytes, the first byte first.
#[verifier::rlimit(40)]
#[verifier::spinoff_prover]
pub proof fn law_symbols_carry_the_bits(data: Seq<u8>, g: int) -> (v: (int, int, int, int))
    requires
        0 <= g,
        3 * g + 3 <= data.len(),
    ensures
        0 <= v.0 < 64 && 0 <= v.1 < 64 && 0 <= v.2 < 64 && 0 <= v.3 < 64,
        encoded(data).len() >= 4 * g + 4,
        encoded(data)[4 * g] == alphabet()[v.0],
        encoded(data)[4 * g + 1] == alphabet()[v.1],
        encoded(data)[4 * g + 2] == alphabet()[v.2],
        encoded(data)[4 * g + 3] == alphabet()[v.3],
        0x4_0000 * v.0 + 0x1000 * v.1 + 0x40 * v.2 + v.3 == 0x1_0000 * data[3 * g] + 0x100 * data[3
            * g + 1] + data[3 * g + 2],
    decreases data.len(),
{
    lemma_encoded_len(data);
    if g == 0 {
        lemma_first_group(data)
    } else {
        let rest = data.skip(3);
        let v = law_symbols_carry_the_bits(rest, g - 1);
        let text = encoded(rest);
        assert(encoded(data).skip(4) =~= text);
        assert(encoded(data)[4 * g] == text[4 * (g - 1)]);
        assert(encoded(data)[4 * g + 1] == text[4 * (g - 1) + 1]);
        assert(encoded(data)[4 * g + 2] == text[4 * (g - 1) + 2]);
        assert(encoded(data)[4 * g + 3] == text[4 * (g - 1) + 3]);
        assert(rest[3 * (g - 1)] == data[3 * g]);
        assert(rest[3 * (g - 1) + 1] == data[3 * g + 1]);
        assert(rest[3 * (g - 1) + 2] == data[3 * g + 2]);
        v
    }
}

/// The last four symbols of a text, with the places of three of them in the
/// alphabet, are those of the one or two bytes that are left over: their bits,
/// filled up with zeros, and equals signs to fill the four.
pub open spec fn is_padded(text: Seq<char>, data: Seq<u8>, v: (int, int, int)) -> bool {
    &&& 0 <= v.0 < 64 && 0 <= v.1 < 64 && 0 <= v.2 < 64
    &&& data.len() % 3 == 1 ==> {
        &&& text == seq![alphabet()[v.0], alphabet()[v.1], '=', '=']
        &&& 0x40 * v.0 + v.1 == 16 * data.last()
    }
    &&& data.len() % 3 == 2 ==> {
        &&& text == seq![alphabet()[v.0], alphabet()[v.1], alphabet()[v.2], '=']
        &&& 0x1000 * v.0 + 0x40 * v.1 + v.2 == 4 * (0x100 * data[data.len() - 2] + data.last())
    }
}

proof fn lemma_encoded_len(data: Seq<u8>)
    ensures
        encoded(data).len() == (data.len() + 2) / 3 * 4,
    decreases data.len(),
{
    if data.len() >= 3 {
        lemma_encoded_len(data.skip(3));
    }
}

proof fn lemma_one_left(data: Seq<u8>) -> (v: (int, int, int))
    requires
        data.len() == 1,
    ensures
        is_padded(encoded(data), data, v),
{
    let v0 = data[0] as int / 4;
    let v1 = data[0] % 4 * 16;
    lemma_alphabet(v0);
    lemma_alphabet(v1);
    (v0, v1, 0)
}

#[verifier::rlimit(40)]
#[verifier::spinoff_prover]
proof fn lemma_two_left(data: Seq<u8>) -> (v: (int, int, int))
    requires
        data.len() == 2,
    ensures
        is_padded(encoded(data), data, v),
{
    let v0 = data[0] as int / 4;
    let v1 = data[0] % 4 * 16 + data[1] / 16;
    let v2 = data[1] % 16 * 4;
    lemma_alphabet(v0);
    lemma_alphabet(v1);
    lemma_alphabet(v2);
    (v0, v1, v2)
}

/// One or two bytes that are left over are padded: their bits, filled up with
/// zeros, become two or three symbols, and equals signs fill the four.
#[verifier::rlimit(40)]
#[verifier::spinoff_prover]
pub proof fn law_rest_is_padded(data: Seq<u8>) -> (v: (int, int, int))
    ensures
        encoded(data).len() == (data.len() + 2) / 3 * 4,
        data.len() % 3 != 0 ==> is_padded(
            encoded(data).skip(encoded(data).len() - 4),
            data,
            v,
        ),
    decreases data.len(),
{
    lemma_encoded_len(data);
    if data.len() == 1 {
        assert(encoded(data).skip(encoded(data).len() - 4) =~= encoded(data));
        lemma_one_left(data)
    } else if data.len() == 2 {
        assert(encoded(data).skip(encoded(data).len() - 4) =~= encoded(data));
        lemma_two_left(data)
    } else if data.len() >= 3 {
        let rest = data.skip(3);
        let v = law_rest_is_padded(rest);
        lemma_encoded_len(rest);
        if data.len() % 3 != 0 {
            assert(encoded(data).skip(4) =~= encoded(rest));
            assert(encoded(data).skip(encoded(data).len() - 4) =~= encoded(rest).skip(
                encoded(rest).len() - 4,
            ));
            assert(rest.last() == data.last());
            if data.len() % 3 == 2 {
                assert(rest[rest.len() - 2] == data[data.len() - 2]);
            }
        }
        v
    } else {
        (0, 0, 0)
    }
}

} // verus!
