//! UUIDs.
use vstd::prelude::*;

verus! {

/// The identifier of a Signal account.
#[derive(Clone, Copy, Debug)]
pub struct Uuid {
    pub bytes: [u8; 16],
}

/// The lower case digit for a value below 16.
pub open spec fn hex_digit(value: int) -> char {
    if value < 10 {
        ('0' as int + value) as char
    } else {
        ('a' as int + value - 10) as char
    }
}

/// The 32 digits of a UUID without hyphens.
pub open spec fn simple(bytes: Seq<u8>) -> Seq<char> {
    Seq::new(
        32,
        |i: int| hex_digit(if i % 2 == 0 { bytes[i / 2] as int / 16 } else { bytes[i / 2] as int % 16 }),
    )
}

/// A UUID in five groups of digits with hyphens between them.
pub open spec fn hyphenated(bytes: Seq<u8>) -> Seq<char> {
    let digits = simple(bytes);
    digits.subrange(0, 8) + seq!['-'] + digits.subrange(8, 12) + seq!['-'] + digits.subrange(12, 16)
        + seq!['-'] + digits.subrange(16, 20) + seq!['-'] + digits.subrange(20, 32)
}

/// `text` with the ASCII letters A to Z in lower case.
pub open spec fn ascii_lower(text: Seq<char>) -> Seq<char> {
    text.map_values(
        |c: char|
            if 'A' <= c <= 'Z' {
                (c as int + 32) as char
            } else {
                c
            },
    )
}

/// Whether `text` writes the UUID with these bytes: as digits alone, with hyphens, in braces, or
/// as a URN, in letters of either case.
pub open spec fn denotes(text: Seq<char>, bytes: Seq<u8>) -> bool {
    let lower = ascii_lower(text);
    &&& bytes.len() == 16
    &&& {
        ||| lower == simple(bytes)
        ||| lower == hyphenated(bytes)
        ||| lower == seq!['{'] + hyphenated(bytes) + seq!['}']
        ||| lower == seq!['u', 'r', 'n', ':', 'u', 'u', 'i', 'd', ':'] + hyphenated(bytes)
    }
}

/// The UUID that `text` writes, if it writes one.
pub open spec fn parsed(text: Seq<char>) -> Option<Seq<u8>> {
    if exists|b: Seq<u8>| denotes(text, b) {
        Some(choose|b: Seq<u8>| denotes(text, b))
    } else {
        None
    }
}

/// Calls `Uuid::parse_str` of `uuid`. The contract claims which texts it accepts, and that the
/// bytes which such a text writes come back.
#[verifier::external_body]
fn parse_str(text: &str) -> (bytes: Option<[u8; 16]>)
    ensures
        match bytes {
            Some(bytes) => denotes(text@, bytes@),
            None => forall|b: Seq<u8>| !denotes(text@, b),
        },
{
    uuid::Uuid::parse_str(text).ok().map(|u| u.into_bytes())
}

/// Calls `to_string` on a `Uuid` of `uuid`. The contract claims that `Display` writes the UUID in
/// lower case with hyphens.
#[verifier::external_body]
fn format(bytes: [u8; 16]) -> (text: String)
    ensures
        text@ == hyphenated(bytes@),
{
    uuid::Uuid::from_bytes(bytes).to_string()
}

proof fn lemma_hex_digit(v: int, w: int)
    requires
        0 <= v < 16,
        0 <= w < 16,
    ensures
        hex_digit(v) == hex_digit(w) ==> v == w,
        !('A' <= hex_digit(v) <= 'Z'),
{
}

proof fn lemma_simple_injective(a: Seq<u8>, b: Seq<u8>)
    requires
        a.len() == 16,
        b.len() == 16,
        simple(a) == simple(b),
    ensures
        a == b,
{
    assert forall|i: int| 0 <= i < 16 implies a[i] == b[i] by {
        assert(simple(a)[2 * i] == simple(b)[2 * i]);
        assert(simple(a)[2 * i + 1] == simple(b)[2 * i + 1]);
        assert((2 * i) / 2 == i && (2 * i) % 2 == 0);
        assert((2 * i + 1) / 2 == i && (2 * i + 1) % 2 == 1);
        lemma_hex_digit(a[i] as int / 16, b[i] as int / 16);
        lemma_hex_digit(a[i] as int % 16, b[i] as int % 16);
        assert(simple(a)[2 * i] == hex_digit(a[i] as int / 16));
        assert(simple(a)[2 * i + 1] == hex_digit(a[i] as int % 16));
        assert(simple(b)[2 * i] == hex_digit(b[i] as int / 16));
        assert(simple(b)[2 * i + 1] == hex_digit(b[i] as int % 16));
    }
    assert(a =~= b);
}

proof fn lemma_hyphenated_injective(a: Seq<u8>, b: Seq<u8>)
    requires
        a.len() == 16,
        b.len() == 16,
        hyphenated(a) == hyphenated(b),
    ensures
        a == b,
{
    let s = simple(a);
    let t = simple(b);
    let h = hyphenated(a);
    assert(s.subrange(0, 8) =~= h.subrange(0, 8) && t.subrange(0, 8) =~= h.subrange(0, 8));
    assert(s.subrange(8, 12) =~= h.subrange(9, 13) && t.subrange(8, 12) =~= h.subrange(9, 13));
    assert(s.subrange(12, 16) =~= h.subrange(14, 18) && t.subrange(12, 16) =~= h.subrange(14, 18));
    assert(s.subrange(16, 20) =~= h.subrange(19, 23) && t.subrange(16, 20) =~= h.subrange(19, 23));
    assert(s.subrange(20, 32) =~= h.subrange(24, 36) && t.subrange(20, 32) =~= h.subrange(24, 36));
    assert(s =~= s.subrange(0, 8) + s.subrange(8, 12) + s.subrange(12, 16) + s.subrange(16, 20)
        + s.subrange(20, 32));
    assert(t =~= t.subrange(0, 8) + t.subrange(8, 12) + t.subrange(12, 16) + t.subrange(16, 20)
        + t.subrange(20, 32));
    lemma_simple_injective(a, b);
}

/// A text writes at most one UUID.
pub proof fn lemma_denotes_one(text: Seq<char>, a: Seq<u8>, b: Seq<u8>)
    requires
        denotes(text, a),
        denotes(text, b),
    ensures
        a == b,
{
    let lower = ascii_lower(text);
    if lower.len() == 32 {
        lemma_simple_injective(a, b);
    } else if lower.len() == 36 {
        lemma_hyphenated_injective(a, b);
    } else if lower.len() == 38 {
        assert(hyphenated(a) =~= lower.subrange(1, 37));
        assert(hyphenated(b) =~= lower.subrange(1, 37));
        lemma_hyphenated_injective(a, b);
    } else {
        assert(hyphenated(a) =~= lower.subrange(9, 45));
        assert(hyphenated(b) =~= lower.subrange(9, 45));
        lemma_hyphenated_injective(a, b);
    }
}

/// A UUID that is written out and read again is the same.
pub proof fn law_uuid_round_trip(bytes: Seq<u8>)
    requires
        bytes.len() == 16,
    ensures
        parsed(hyphenated(bytes)) == Some(bytes),
{
    let text = hyphenated(bytes);
    assert forall|i: int| 0 <= i < text.len() implies ascii_lower(text)[i] == text[i] by {
        assert forall|k: int| 0 <= k < 32 implies !('A' <= #[trigger] simple(bytes)[k] && simple(bytes)[k]
            <= 'Z') by {
            let v = if k % 2 == 0 { bytes[k / 2] as int / 16 } else { bytes[k / 2] as int % 16 };
            lemma_hex_digit(v, v);
        }
    }
    assert(ascii_lower(text) =~= text);
    assert(denotes(text, bytes));
    lemma_denotes_one(text, choose|b: Seq<u8>| denotes(text, b), bytes);
}

/// A UUID is not written with a plus sign at its start.
pub proof fn lemma_no_plus(bytes: Seq<u8>)
    requires
        bytes.len() == 16,
    ensures
        hyphenated(bytes).len() == 36,
        hyphenated(bytes)[0] != '+',
{
    assert(hyphenated(bytes)[0] == simple(bytes)[0]);
    assert(simple(bytes)[0] == hex_digit(bytes[0] as int / 16));
}

impl View for Uuid {
    type V = Seq<u8>;

    open spec fn view(&self) -> Seq<u8> {
        self.bytes@
    }
}

impl Uuid {
    /// Reads a UUID in any of its written forms.
    pub fn parse(text: &str) -> (uuid: Option<Uuid>)
        ensures
            match uuid {
                Some(uuid) => parsed(text@) == Some(uuid@),
                None => parsed(text@) is None,
            },
    {
        match parse_str(text) {
            Some(bytes) => {
                proof {
                    lemma_denotes_one(text@, choose|b: Seq<u8>| denotes(text@, b), bytes@);
                }
                Some(Uuid { bytes })
            },
            None => None,
        }
    }

    /// Writes the UUID in lower case with hyphens.
    pub fn to_text(&self) -> (text: String)
        ensures
            text@ == hyphenated(self@),
    {
        format(self.bytes)
    }

    /// The sixteen bytes.
    pub fn to_vec(&self) -> (bytes: Vec<u8>)
        ensures
            bytes@ == self@,
    {
        let mut bytes: Vec<u8> = Vec::new();
        let mut i: usize = 0;
        while i < 16
            invariant
                i <= 16,
                bytes@ == self@.take(i as int),
            decreases 16 - i,
        {
            bytes.push(self.bytes[i]);
            i = i + 1;
        }
        assert(self@.take(16) == self@);
        bytes
    }

    /// Whether two UUIDs are the same.
    pub fn same(&self, other: &Uuid) -> (same: bool)
        ensures
            same == (self@ == other@),
    {
        let mut i: usize = 0;
        while i < 16
            invariant
                i <= 16,
                forall|k: int| 0 <= k < i ==> self@[k] == other@[k],
            decreases 16 - i,
        {
            if self.bytes[i] != other.bytes[i] {
                return false;
            }
            i = i + 1;
        }
        assert(self@ =~= other@);
        true
    }
}

} // verus!
