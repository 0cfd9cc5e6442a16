//! Base64 with the standard alphabet and padding.
use base64::Engine;
use vstd::prelude::*;

verus! {

/// The symbol for a value below 64: upper case letters, lower case letters, digits, `+` and `/`.
pub open spec fn symbol(value: int) -> char {
    if value < 26 {
        ('A' as int + value) as char
    } else if value < 52 {
        ('a' as int + value - 26) as char
    } else if value < 62 {
        ('0' as int + value - 52) as char
    } else if value == 62 {
        '+'
    } else {
        '/'
    }
}

/// The byte at `i`, or zero past the end.
pub open spec fn byte_at(bytes: Seq<u8>, i: int) -> int {
    if 0 <= i < bytes.len() {
        bytes[i] as int
    } else {
        0
    }
}

/// The `k`-th of the four six bit values into which the three bytes from `i` on are cut.
pub open spec fn sextet(bytes: Seq<u8>, i: int, k: int) -> int {
    if k == 0 {
        byte_at(bytes, i) / 4
    } else if k == 1 {
        byte_at(bytes, i) % 4 * 16 + byte_at(bytes, i + 1) / 16
    } else if k == 2 {
        byte_at(bytes, i + 1) % 16 * 4 + byte_at(bytes, i + 2) / 64
    } else {
        byte_at(bytes, i + 2) % 64
    }
}

/// How many symbols and padding signs stand for `count` bytes.
pub open spec fn base64_len(count: nat) -> nat {
    (count + 2) / 3 * 4
}

/// The Base64 text of `bytes`: each group of up to three bytes becomes four signs, and a sign
/// for which the group has no byte left is `=`.
pub open spec fn base64_text(bytes: Seq<u8>) -> Seq<char> {
    Seq::new(
        base64_len(bytes.len()),
        |j: int|
            if j % 4 > bytes.len() - j / 4 * 3 {
                '='
            } else {
                symbol(sextet(bytes, j / 4 * 3, j % 4))
            },
    )
}

/// Whether the Base64 text of so many bytes fits in memory.
pub open spec fn encodable(count: nat) -> bool {
    base64_len(count) <= isize::MAX
}

/// Whether the Base64 text of so many bytes fits in memory.
pub fn is_encodable(count: usize) -> (fits: bool)
    ensures
        fits == encodable(count as nat),
{
    let groups: usize = if count % 3 == 0 {
        count / 3
    } else {
        count / 3 + 1
    };
    assert(groups == (count + 2) / 3);
    groups <= isize::MAX as usize / 4
}

/// What `Display` shows of the error with which `decode` of the `STANDARD` engine refuses `text`.
pub uninterp spec fn refusal(text: Seq<char>) -> Seq<char>;

/// Calls `Engine::encode` of `base64` with the `STANDARD` engine. The contract claims that the
/// result is the text which RFC 4648 assigns to the bytes. Input whose text cannot be allocated,
/// on which the call panics, is left out.
#[verifier::external_body]
pub(crate) fn encode(bytes: &Vec<u8>) -> (text: String)
    requires
        encodable(bytes@.len()),
    ensures
        text@ == base64_text(bytes@),
{
    base64::engine::general_purpose::STANDARD.encode(bytes)
}

/// Calls `Engine::decode` of `base64` with the `STANDARD` engine. The contract claims that a text
/// is accepted exactly if it is the Base64 text of some bytes, and that those bytes come back:
/// the engine asks for canonical padding and allows no stray bits. The message of the error is
/// only named.
#[verifier::external_body]
pub(crate) fn decode(text: &str) -> (bytes: Result<Vec<u8>, String>)
    ensures
        match bytes {
            Ok(bytes) => base64_text(bytes@) == text@,
            Err(message) => {
                &&& forall|b: Seq<u8>| base64_text(b) != text@
                &&& message@ == refusal(text@)
            },
        },
{
    base64::engine::general_purpose::STANDARD.decode(text).map_err(|e| e.to_string())
}

/// The bytes of which `text` is the Base64 text, if there are any.
pub open spec fn decoded(text: Seq<char>) -> Option<Seq<u8>> {
    if exists|b: Seq<u8>| base64_text(b) == text {
        Some(choose|b: Seq<u8>| base64_text(b) == text)
    } else {
        None
    }
}

proof fn lemma_symbol(v: int, w: int)
    requires
        0 <= v < 64,
        0 <= w < 64,
    ensures
        symbol(v) != '=',
        symbol(v) == symbol(w) ==> v == w,
{
}

proof fn lemma_sextet_range(bytes: Seq<u8>, i: int, k: int)
    requires
        0 <= k < 4,
    ensures
        0 <= sextet(bytes, i, k) < 64,
{
}

/// Equal texts agree in each six bit value, and in which signs are padding.
proof fn lemma_same_sign(a: Seq<u8>, b: Seq<u8>, i: int, k: int)
    requires
        base64_text(a) == base64_text(b),
        0 <= i < base64_len(a.len()) / 4,
        0 <= k < 4,
    ensures
        (k > a.len() - i * 3) == (k > b.len() - i * 3),
        k <= a.len() - i * 3 ==> sextet(a, i * 3, k) == sextet(b, i * 3, k),
{
    assert(base64_text(a).len() == base64_len(a.len()));
    assert(base64_text(b).len() == base64_len(b.len()));
    let j = i * 4 + k;
    assert(j / 4 == i && j % 4 == k);
    assert(0 <= j < base64_len(a.len()));
    assert(base64_text(a)[j] == if k > a.len() - i * 3 {
        '='
    } else {
        symbol(sextet(a, i * 3, k))
    });
    assert(base64_text(b)[j] == if k > b.len() - i * 3 {
        '='
    } else {
        symbol(sextet(b, i * 3, k))
    });
    lemma_sextet_range(a, i * 3, k);
    lemma_sextet_range(b, i * 3, k);
    lemma_symbol(sextet(a, i * 3, k), sextet(b, i * 3, k));
    lemma_symbol(sextet(b, i * 3, k), sextet(a, i * 3, k));
}

/// Different byte strings have different Base64 texts.
pub proof fn lemma_base64_injective(a: Seq<u8>, b: Seq<u8>)
    requires
        base64_text(a) == base64_text(b),
    ensures
        a == b,
{
    assert(base64_text(a).len() == base64_len(a.len()));
    assert(base64_text(b).len() == base64_len(b.len()));
    if a.len() > 0 {
        let last = base64_len(a.len()) / 4 - 1;
        lemma_same_sign(a, b, last, 2);
        lemma_same_sign(a, b, last, 3);
    }
    assert(a.len() == b.len());
    assert forall|p: int| 0 <= p < a.len() implies a[p] == b[p] by {
        let i = p / 3;
        lemma_same_sign(a, b, i, 0);
        lemma_same_sign(a, b, i, 1);
        lemma_same_sign(a, b, i, 2);
        lemma_same_sign(a, b, i, 3);
        assert(byte_at(a, p) == byte_at(b, p));
    }
    assert(a =~= b);
}

/// Decoding undoes encoding.
pub proof fn law_base64_round_trip(bytes: Seq<u8>)
    ensures
        decoded(base64_text(bytes)) == Some(bytes),
{
    let b = choose|b: Seq<u8>| base64_text(b) == base64_text(bytes);
    assert(base64_text(bytes) == base64_text(bytes));
    lemma_base64_injective(b, bytes);
}

} // verus!
