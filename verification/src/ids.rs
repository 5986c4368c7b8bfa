//! Record identifiers and their wire form.
//!
//! An identifier is twelve bytes; on the wire it is written as twenty-four
//! hexadecimal characters (either letter case is accepted on input, lower
//! case is produced on output). `parse_id` and `format_id` are the only way
//! in and out of the wire form, so the rest of the service never depends on
//! the textual representation.

use vstd::prelude::*;
use vstd::string::StrSliceExecFns;
use vstd::string::StringExecFns;

use crate::errors::ItemError;

verus! {

/// Bytes in an identifier.
pub const ID_BYTES: usize = 12;
/// Characters in the wire form of an identifier.
pub const ID_CHARS: usize = 24;

/// Is `c` a hexadecimal digit (either letter case)?
pub open spec fn is_hex_char(c: char) -> bool {
    ('0' <= c && c <= '9') || ('a' <= c && c <= 'f') || ('A' <= c && c <= 'F')
}

/// The numeric value of a hexadecimal digit.
pub open spec fn hex_char_val(c: char) -> int
    recommends
        is_hex_char(c),
{
    if '0' <= c && c <= '9' {
        c as u32 - '0' as u32
    } else if 'a' <= c && c <= 'f' {
        c as u32 - 'a' as u32 + 10
    } else {
        c as u32 - 'A' as u32 + 10
    }
}

/// The lower-case hexadecimal digit with numeric value `v`.
pub open spec fn hex_char_of(v: int) -> char
    recommends
        0 <= v < 16,
{
    if v == 0 { '0' }
    else if v == 1 { '1' }
    else if v == 2 { '2' }
    else if v == 3 { '3' }
    else if v == 4 { '4' }
    else if v == 5 { '5' }
    else if v == 6 { '6' }
    else if v == 7 { '7' }
    else if v == 8 { '8' }
    else if v == 9 { '9' }
    else if v == 10 { 'a' }
    else if v == 11 { 'b' }
    else if v == 12 { 'c' }
    else if v == 13 { 'd' }
    else if v == 14 { 'e' }
    else { 'f' }
}

/// A string is a valid wire identifier when it is exactly `ID_CHARS`
/// hexadecimal characters.
pub open spec fn is_valid_id_string(s: Seq<char>) -> bool {
    &&& s.len() == ID_CHARS
    &&& forall|j: int| 0 <= j < s.len() ==> is_hex_char(#[trigger] s[j])
}

/// The bytes denoted by a valid wire identifier.
pub open spec fn id_bytes_of(s: Seq<char>) -> Seq<u8>
    recommends
        is_valid_id_string(s),
{
    Seq::new(ID_BYTES as nat, |i: int| (16 * hex_char_val(s[2 * i]) + hex_char_val(s[2 * i + 1])) as u8)
}

/// The lower-case wire form of twelve identifier bytes.
pub open spec fn id_string_of(b: Seq<u8>) -> Seq<char>
    recommends
        b.len() == ID_BYTES,
{
    Seq::new(ID_CHARS as nat, |i: int|
        if i % 2 == 0 { hex_char_of(b[i / 2] as int / 16) } else { hex_char_of(b[i / 2] as int % 16) })
}

/// A record identifier: twelve opaque bytes assigned by the store.
pub struct ItemId {
    bytes: Vec<u8>,
}

impl View for ItemId {
    type V = Seq<u8>;

    closed spec fn view(&self) -> Seq<u8> {
        self.bytes@
    }
}

impl ItemId {
    /// A well-formed identifier holds exactly `ID_BYTES` bytes.
    pub open spec fn wf(&self) -> bool {
        self@.len() == ID_BYTES
    }

    /// Byte-wise equality of two identifiers.
    pub fn same_as(&self, other: &ItemId) -> (r: bool)
        ensures
            r == (self@ == other@),
    {
        if self.bytes.len() != other.bytes.len() {
            proof {
                assert(self@ != other@);
            }
            return false;
        }
        let n = self.bytes.len();
        let mut i: usize = 0;
        while i < n
            invariant
                n == self@.len(),
                n == other@.len(),
                i <= n,
                forall|j: int| 0 <= j < i ==> self@[j] == other@[j],
            decreases n - i,
        {
            if self.bytes[i] != other.bytes[i] {
                proof {
                    assert(self@[i as int] != other@[i as int]);
                }
                return false;
            }
            i += 1;
        }
        proof {
            assert(self@ =~= other@);
        }
        true
    }
}

impl Clone for ItemId {
    /// A clone denotes the same bytes.
    fn clone(&self) -> (r: Self)
        ensures
            r@ == self@,
    {
        let mut bytes: Vec<u8> = Vec::new();
        let n = self.bytes.len();
        let mut i: usize = 0;
        while i < n
            invariant
                n == self@.len(),
                i <= n,
                bytes@ =~= self@.subrange(0, i as int),
            decreases n - i,
        {
            bytes.push(self.bytes[i]);
            i += 1;
        }
        proof {
            assert(bytes@ =~= self@);
        }
        ItemId { bytes }
    }
}

/// The numeric value of one hexadecimal character, or `None` when the
/// character is no hexadecimal digit.
fn hex_digit_value(c: char) -> (r: Option<u8>)
    ensures
        r is Some <==> is_hex_char(c),
        is_hex_char(c) ==> r == Some(hex_char_val(c) as u8),
        r is Some ==> r->0 < 16,
{
    let u = c as u32;
    if 48 <= u && u <= 57 {
        Some((u - 48) as u8)
    } else if 97 <= u && u <= 102 {
        Some((u - 97 + 10) as u8)
    } else if 65 <= u && u <= 70 {
        Some((u - 65 + 10) as u8)
    } else {
        None
    }
}

/// Parse the wire form of an identifier.
///
/// Returns `Ok` exactly on strings of twenty-four hexadecimal characters,
/// and then the parsed identifier denotes the bytes the string spells;
/// every other string is rejected with `InvalidIdentifier`.
pub fn parse_id(s: &str) -> (r: Result<ItemId, ItemError>)
    ensures
        match r {
            Ok(id) => is_valid_id_string(s@) && id.wf() && id@ == id_bytes_of(s@),
            Err(e) => e == ItemError::InvalidIdentifier && !is_valid_id_string(s@),
        },
{
    let n = s.unicode_len();
    if n != ID_CHARS {
        return Err(ItemError::InvalidIdentifier);
    }
    let mut bytes: Vec<u8> = Vec::new();
    let mut i: usize = 0;
    while i < ID_BYTES
        invariant
            s@.len() == ID_CHARS,
            i <= ID_BYTES,
            bytes@.len() == i,
            forall|j: int| 0 <= j < 2 * i ==> is_hex_char(#[trigger] s@[j]),
            forall|j: int| 0 <= j < i ==>
                #[trigger] bytes@[j] == (16 * hex_char_val(s@[2 * j]) + hex_char_val(s@[2 * j + 1])) as u8,
        decreases ID_BYTES - i,
    {
        let hi = match hex_digit_value(s.get_char(2 * i)) {
            Some(v) => v,
            None => {
                proof {
                    assert(!is_hex_char(s@[2 * i as int]));
                }
                return Err(ItemError::InvalidIdentifier);
            },
        };
        let lo = match hex_digit_value(s.get_char(2 * i + 1)) {
            Some(v) => v,
            None => {
                proof {
                    assert(!is_hex_char(s@[2 * i as int + 1]));
                }
                return Err(ItemError::InvalidIdentifier);
            },
        };
        bytes.push(16 * hi + lo);
        i += 1;
    }
    proof {
        assert(is_valid_id_string(s@));
        assert(bytes@ =~= id_bytes_of(s@));
    }
    Ok(ItemId { bytes })
}

/// The lower-case hexadecimal digit with numeric value `v`, as a string of
/// one character.
fn hex_char_str(v: u8) -> (r: &'static str)
    requires
        v < 16,
    ensures
        r@.len() == 1,
        r@[0] == hex_char_of(v as int),
{
    let r = match v {
        0 => "0",
        1 => "1",
        2 => "2",
        3 => "3",
        4 => "4",
        5 => "5",
        6 => "6",
        7 => "7",
        8 => "8",
        9 => "9",
        10 => "a",
        11 => "b",
        12 => "c",
        13 => "d",
        14 => "e",
        _ => "f",
    };
    proof {
        reveal_strlit("0");
        reveal_strlit("1");
        reveal_strlit("2");
        reveal_strlit("3");
        reveal_strlit("4");
        reveal_strlit("5");
        reveal_strlit("6");
        reveal_strlit("7");
        reveal_strlit("8");
        reveal_strlit("9");
        reveal_strlit("a");
        reveal_strlit("b");
        reveal_strlit("c");
        reveal_strlit("d");
        reveal_strlit("e");
        reveal_strlit("f");
    }
    r
}

/// Format an identifier in its lower-case wire form.
pub fn format_id(id: &ItemId) -> (r: String)
    requires
        id.wf(),
    ensures
        r@ == id_string_of(id@),
        is_valid_id_string(r@),
        id_bytes_of(r@) == id@,
{
    let mut out = String::new();
    let mut i: usize = 0;
    while i < ID_BYTES
        invariant
            id.wf(),
            i <= ID_BYTES,
            out@.len() == 2 * i,
            forall|j: int| 0 <= j < 2 * i ==> out@[j] == id_string_of(id@)[j],
        decreases ID_BYTES - i,
    {
        let b = id.bytes[i];
        out.append(hex_char_str(b / 16));
        out.append(hex_char_str(b % 16));
        i += 1;
    }
    proof {
        assert(out@ =~= id_string_of(id@));
        lemma_id_string_roundtrip(id@);
    }
    out
}

/// The numeric value of the lower-case digit of `v` is `v` again.
proof fn lemma_hex_char_val_of(v: int)
    requires
        0 <= v < 16,
    ensures
        is_hex_char(hex_char_of(v)),
        hex_char_val(hex_char_of(v)) == v,
{
}

/// Formatting an identifier and parsing the result gives the identifier
/// back: the wire form of any twelve bytes is a valid identifier string,
/// and it denotes exactly those bytes.
pub proof fn lemma_id_string_roundtrip(b: Seq<u8>)
    requires
        b.len() == ID_BYTES,
    ensures
        is_valid_id_string(id_string_of(b)),
        id_bytes_of(id_string_of(b)) == b,
{
    let s = id_string_of(b);
    assert forall|j: int| 0 <= j < s.len() implies is_hex_char(#[trigger] s[j]) by {
        if j % 2 == 0 {
            lemma_hex_char_val_of(b[j / 2] as int / 16);
        } else {
            lemma_hex_char_val_of(b[j / 2] as int % 16);
        }
    }
    assert forall|i: int| 0 <= i < ID_BYTES implies #[trigger] id_bytes_of(s)[i] == b[i] by {
        lemma_hex_char_val_of(b[i] as int / 16);
        lemma_hex_char_val_of(b[i] as int % 16);
        assert(s[2 * i] == hex_char_of(b[i] as int / 16));
        assert(s[2 * i + 1] == hex_char_of(b[i] as int % 16));
    }
    assert(id_bytes_of(s) =~= b);
}

/// Lower-case hexadecimal digits survive a value round trip.
proof fn lemma_hex_char_of_val(c: char)
    requires
        is_hex_char(c),
        !('A' <= c && c <= 'F'),
    ensures
        0 <= hex_char_val(c) < 16,
        hex_char_of(hex_char_val(c)) == c,
{
}

/// Parsing a lower-case wire identifier and formatting the parsed bytes
/// gives the same string back: on its own output, `format_id` inverts
/// `parse_id`.
pub proof fn lemma_id_bytes_roundtrip(s: Seq<char>)
    requires
        is_valid_id_string(s),
        forall|j: int| 0 <= j < s.len() ==> !('A' <= #[trigger] s[j] && s[j] <= 'F'),
    ensures
        id_string_of(id_bytes_of(s)) == s,
{
    let b = id_bytes_of(s);
    assert forall|j: int| 0 <= j < ID_CHARS implies #[trigger] id_string_of(b)[j] == s[j] by {
        let i = j / 2;
        assert(b[i] == (16 * hex_char_val(s[2 * i]) + hex_char_val(s[2 * i + 1])) as u8);
        lemma_hex_char_of_val(s[2 * i]);
        lemma_hex_char_of_val(s[2 * i + 1]);
        if j % 2 == 0 {
            assert(j == 2 * i);
            assert(b[i] as int / 16 == hex_char_val(s[2 * i]));
        } else {
            assert(j == 2 * i + 1);
            assert(b[i] as int % 16 == hex_char_val(s[2 * i + 1]));
        }
    }
    assert(id_string_of(b) =~= s);
}

} // verus!
