//! Identifiers of notes: UUID-v4-shaped text built from sixteen random bytes.
//!
//! The text has the form `xxxxxxxx-xxxx-4xxx-Vxxx-xxxxxxxxxxxx` in lowercase
//! hexadecimal, where `V` is one of `8`, `9`, `a`, `b`.
use vstd::prelude::*;

verus! {

/// Number of characters in a note identifier.
pub const NOTE_ID_LEN: usize = 36;

/// Lowercase hexadecimal digit of a nibble.
pub open spec fn hex_char(n: int) -> char {
    if n < 10 {
        ((n + 48) as u32) as char
    } else {
        ((n + 87) as u32) as char
    }
}

pub open spec fn is_lower_hex(c: char) -> bool {
    ('0' <= c && c <= '9') || ('a' <= c && c <= 'f')
}

pub open spec fn is_variant_char(c: char) -> bool {
    c == '8' || c == '9' || c == 'a' || c == 'b'
}

/// Positions of the four hyphens.
pub open spec fn is_dash_pos(i: int) -> bool {
    i == 8 || i == 13 || i == 18 || i == 23
}

/// How many hyphens stand before position `i`.
pub open spec fn dashes_before(i: int) -> int {
    if i <= 8 {
        0
    } else if i <= 13 {
        1
    } else if i <= 18 {
        2
    } else if i <= 23 {
        3
    } else {
        4
    }
}

/// The text shape of a note identifier: `8-4-4-4-12` lowercase hex groups,
/// version digit `4`, variant digit among `8`, `9`, `a`, `b`.
pub open spec fn is_uuid_v4_shaped(s: Seq<char>) -> bool {
    &&& s.len() == 36
    &&& forall|i: int|
        0 <= i < 36 ==> {
            let c = #[trigger] s[i];
            if is_dash_pos(i) {
                c == '-'
            } else if i == 14 {
                c == '4'
            } else if i == 19 {
                is_variant_char(c)
            } else {
                is_lower_hex(c)
            }
        }
}

/// The random bytes with the version (`0100`) and variant (`10`) bits set.
pub open spec fn stamped(b: Seq<u8>) -> Seq<u8> {
    b.update(6, (64 + b[6] % 16) as u8).update(8, (128 + b[8] % 64) as u8)
}

/// Character at position `i` of the hyphenated hex rendering of `b`.
pub open spec fn rendered_char(b: Seq<u8>, i: int) -> char {
    if is_dash_pos(i) {
        '-'
    } else {
        let k = i - dashes_before(i);
        let byte = b[k / 2];
        if k % 2 == 0 {
            hex_char(byte as int / 16)
        } else {
            hex_char(byte as int % 16)
        }
    }
}

/// Length of the rendering once `i` bytes have been written.
pub open spec fn written_len(i: int) -> int {
    let dashes: int = if i <= 4 {
        0
    } else if i <= 6 {
        1
    } else if i <= 8 {
        2
    } else if i <= 10 {
        3
    } else {
        4
    };
    2 * i + dashes
}

/// The identifier made from sixteen random bytes.
pub open spec fn note_id_text(b: Seq<u8>) -> Seq<char> {
    Seq::new(36, |i: int| rendered_char(stamped(b), i))
}

proof fn lemma_hex_char(n: int)
    requires
        0 <= n < 16,
    ensures
        is_lower_hex(hex_char(n)),
        n == 4 ==> hex_char(n) == '4',
        8 <= n < 12 ==> is_variant_char(hex_char(n)),
{
}

/// Every identifier made from random bytes has the identifier shape.
pub proof fn lemma_note_id_shaped(b: Seq<u8>)
    requires
        b.len() == 16,
    ensures
        is_uuid_v4_shaped(note_id_text(b)),
{
    let s = note_id_text(b);
    let t = stamped(b);
    assert forall|i: int| 0 <= i < 36 implies {
        let c = #[trigger] s[i];
        if is_dash_pos(i) {
            c == '-'
        } else if i == 14 {
            c == '4'
        } else if i == 19 {
            is_variant_char(c)
        } else {
            is_lower_hex(c)
        }
    } by {
        if !is_dash_pos(i) {
            let k = i - dashes_before(i);
            assert(0 <= k < 32);
            let byte = t[k / 2];
            lemma_hex_char(byte as int / 16);
            lemma_hex_char(byte as int % 16);
            if i == 14 {
                assert(k == 12);
                assert(byte == 64 + b[6] % 16);
            }
            if i == 19 {
                assert(k == 16);
                assert(byte == 128 + b[8] % 64);
            }
        }
    }
}

fn hex_digit(n: u8) -> (c: char)
    requires
        n < 16,
    ensures
        c == hex_char(n as int),
{
    if n < 10 {
        (n + 48) as char
    } else {
        (n + 87) as char
    }
}

/// Relies on std's `String::push`: appends one character.
#[verifier::external_body]
fn push_char(s: &mut String, c: char)
    ensures
        final(s)@ == old(s)@.push(c),
{
    s.push(c);
}

/// Formats sixteen random bytes as a note identifier, setting the version
/// and variant bits.
pub fn note_id_from_bytes(bytes: &[u8; 16]) -> (r: String)
    ensures
        r@ == note_id_text(bytes@),
        is_uuid_v4_shaped(r@),
{
    let ghost t = stamped(bytes@);
    let mut s = String::new();
    let mut i: usize = 0;
    while i < 16
        invariant
            i <= 16,
            t == stamped(bytes@),
            s@.len() == written_len(i as int),
            forall|j: int| 0 <= j < s@.len() ==> #[trigger] s@[j] == rendered_char(t, j),
        decreases 16 - i,
    {
        let raw = bytes[i];
        let byte: u8 = if i == 6 {
            64 + raw % 16
        } else if i == 8 {
            128 + raw % 64
        } else {
            raw
        };
        assert(byte == t[i as int]);
        if i == 4 || i == 6 || i == 8 || i == 10 {
            push_char(&mut s, '-');
        }
        push_char(&mut s, hex_digit(byte / 16));
        push_char(&mut s, hex_digit(byte % 16));
        i = i + 1;
    }
    proof {
        assert(s@ =~= note_id_text(bytes@));
        lemma_note_id_shaped(bytes@);
    }
    s
}

/// Whether `s` has the shape of a note identifier.
pub fn is_note_id(s: &str) -> (r: bool)
    ensures
        r == is_uuid_v4_shaped(s@),
{
    let n = s.unicode_len();
    if n != NOTE_ID_LEN {
        return false;
    }
    let mut i: usize = 0;
    while i < NOTE_ID_LEN
        invariant
            s@.len() == 36,
            i <= 36,
            forall|j: int|
                0 <= j < i ==> {
                    let c = #[trigger] s@[j];
                    if is_dash_pos(j) {
                        c == '-'
                    } else if j == 14 {
                        c == '4'
                    } else if j == 19 {
                        is_variant_char(c)
                    } else {
                        is_lower_hex(c)
                    }
                },
        decreases 36 - i,
    {
        let c = s.get_char(i);
        let fits = if i == 8 || i == 13 || i == 18 || i == 23 {
            c == '-'
        } else if i == 14 {
            c == '4'
        } else if i == 19 {
            c == '8' || c == '9' || c == 'a' || c == 'b'
        } else {
            ('0' <= c && c <= '9') || ('a' <= c && c <= 'f')
        };
        if !fits {
            return false;
        }
        i = i + 1;
    }
    true
}

} // verus!
