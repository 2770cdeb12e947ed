//! Installation ids and RPC tokens: recognising a stored UUID, and writing
//! fresh random ones as text.
use vstd::prelude::*;
use crate::num::{hex2, push_hex2};
use crate::text::{chars_of, is_hex_digit, is_hex_digit_char, lower, lower_vec, string_of, trim, trim_vec};

verus! {

pub open spec fn is_dash_position(i: int) -> bool {
    i == 8 || i == 13 || i == 18 || i == 23
}

/// A UUID in its 36-character text form (dashes at 8, 13, 18, 23, hex digits
/// elsewhere), returned in lower case; anything else is not one.
pub open spec fn spec_canonical_uuid(value: Seq<char>) -> Option<Seq<char>> {
    if value.len() == 36 && (forall|i: int|
        0 <= i < 36 ==> if is_dash_position(i) {
            #[trigger] value[i] == '-'
        } else {
            is_hex_digit(value[i])
        }) {
        Some(lower(value))
    } else {
        None
    }
}

pub fn canonical_uuid(value: &str) -> (r: Option<String>)
    ensures
        match r {
            Some(u) => spec_canonical_uuid(value@) == Some(u@),
            None => spec_canonical_uuid(value@) is None,
        },
{
    let v = chars_of(value);
    if v.len() != 36 {
        return None;
    }
    let mut i: usize = 0;
    while i < 36
        invariant
            v@ == value@,
            v@.len() == 36,
            i <= 36,
            forall|k: int|
                0 <= k < i ==> if is_dash_position(k) {
                    #[trigger] v@[k] == '-'
                } else {
                    is_hex_digit(v@[k])
                },
        decreases 36 - i,
    {
        let ok = if i == 8 || i == 13 || i == 18 || i == 23 {
            v[i] == '-'
        } else {
            is_hex_digit_char(v[i])
        };
        if !ok {
            return None;
        }
        i += 1;
    }
    Some(string_of(lower_vec(&v).as_slice()))
}

/// The stored installation id, when the stored text (trimmed) is a UUID.
pub fn existing_installation_id(contents: &str) -> (r: Option<String>)
    ensures
        match r {
            Some(u) => spec_canonical_uuid(trim(contents@)) == Some(u@),
            None => spec_canonical_uuid(trim(contents@)) is None,
        },
{
    let t = trim_vec(&chars_of(contents));
    canonical_uuid(string_of(t.as_slice()).as_str())
}

/// Lower-case hex of the bytes, two digits each.
pub open spec fn hex_text(b: Seq<u8>) -> Seq<char>
    decreases b.len(),
{
    if b.len() == 0 {
        Seq::empty()
    } else {
        hex_text(b.drop_last()) + hex2(b.last())
    }
}

/// The 16 bytes with the version (4) and variant (10) bits set.
pub open spec fn v4_bytes(b: Seq<u8>) -> Seq<u8> {
    b.update(6, (b[6] & 0x0f) | 0x40).update(8, (b[8] & 0x3f) | 0x80)
}

/// The text of a version-4 UUID made of these 16 bytes: hex groups of
/// 4-2-2-2-6 bytes joined by dashes.
pub open spec fn spec_uuid_v4_text(b: Seq<u8>) -> Seq<char> {
    let u = v4_bytes(b);
    hex_text(u.subrange(0, 4)) + "-"@ + hex_text(u.subrange(4, 6)) + "-"@ + hex_text(
        u.subrange(6, 8),
    ) + "-"@ + hex_text(u.subrange(8, 10)) + "-"@ + hex_text(u.subrange(10, 16))
}

fn push_hex_range(out: &mut Vec<char>, b: &[u8; 16], lo: usize, hi: usize)
    requires
        lo <= hi <= 16,
    ensures
        final(out)@ == old(out)@ + hex_text(b@.subrange(lo as int, hi as int)),
{
    let mut i = lo;
    while i < hi
        invariant
            lo <= i <= hi <= 16,
            out@ == old(out)@ + hex_text(b@.subrange(lo as int, i as int)),
        decreases hi - i,
    {
        push_hex2(out, b[i]);
        assert(b@.subrange(lo as int, i + 1).drop_last() =~= b@.subrange(lo as int, i as int));
        i += 1;
    }
}

/// The text of the version-4 UUID built from 16 random bytes.
pub fn format_uuid_v4(bytes: [u8; 16]) -> (r: String)
    ensures
        r@ == spec_uuid_v4_text(bytes@),
{
    let mut b = bytes;
    b[6] = (b[6] & 0x0f) | 0x40;
    b[8] = (b[8] & 0x3f) | 0x80;
    assert(b@ =~= v4_bytes(bytes@));
    let mut out: Vec<char> = Vec::new();
    push_hex_range(&mut out, &b, 0, 4);
    out.push('-');
    push_hex_range(&mut out, &b, 4, 6);
    out.push('-');
    push_hex_range(&mut out, &b, 6, 8);
    out.push('-');
    push_hex_range(&mut out, &b, 8, 10);
    out.push('-');
    push_hex_range(&mut out, &b, 10, 16);
    proof {
        reveal_strlit("-");
    }
    assert(out@ =~= spec_uuid_v4_text(bytes@));
    string_of(out.as_slice())
}

/// Lower-case hex of 32 bytes: an RPC token.
pub fn format_rpc_token(bytes: [u8; 32]) -> (r: String)
    ensures
        r@ == hex_text(bytes@),
{
    let mut out: Vec<char> = Vec::new();
    let mut i: usize = 0;
    while i < 32
        invariant
            i <= 32,
            out@ == hex_text(bytes@.take(i as int)),
        decreases 32 - i,
    {
        push_hex2(&mut out, bytes[i]);
        assert(bytes@.take(i + 1).drop_last() =~= bytes@.take(i as int));
        i += 1;
    }
    assert(bytes@.take(32) =~= bytes@);
    string_of(out.as_slice())
}

/// 16 bytes from the operating system's random source
/// (`rand::rngs::OsRng` with `RngCore::try_fill_bytes`); `None` when that
/// source fails. Which bytes come, and whether it fails, is not claimed.
#[verifier::external_body]
fn os_random_16() -> Option<[u8; 16]> {
    let mut bytes = [0u8; 16];
    rand::RngCore::try_fill_bytes(&mut rand::rngs::OsRng, &mut bytes).ok()?;
    Some(bytes)
}

/// 32 bytes from the operating system's random source (as above).
#[verifier::external_body]
fn os_random_32() -> Option<[u8; 32]> {
    let mut bytes = [0u8; 32];
    rand::RngCore::try_fill_bytes(&mut rand::rngs::OsRng, &mut bytes).ok()?;
    Some(bytes)
}

/// A fresh random version-4 UUID as text; `None` when the operating system's
/// random source fails.
pub fn random_uuid_v4() -> (r: Option<String>)
    ensures
        r matches Some(t) ==> exists|b: Seq<u8>| b.len() == 16 && t@ == spec_uuid_v4_text(b),
{
    match os_random_16() {
        Some(bytes) => Some(format_uuid_v4(bytes)),
        None => None,
    }
}

/// A fresh random RPC token, 32 random bytes in lower-case hex; `None` when
/// the operating system's random source fails.
pub fn generate_rpc_token_hex_32bytes() -> (r: Option<String>)
    ensures
        r matches Some(t) ==> exists|b: Seq<u8>| b.len() == 32 && t@ == hex_text(b),
{
    match os_random_32() {
        Some(bytes) => Some(format_rpc_token(bytes)),
        None => None,
    }
}

/// What to do with the stored installation id file (read under its lock).
pub enum InstallationIdChoice {
    /// The file holds this id: use it and leave the file alone.
    Keep(String),
    /// The file holds no id: write this fresh one to it and use it.
    Write(String),
}

/// Decides the installation id from the stored file's contents: the stored id
/// when the trimmed contents are a UUID (in lower case), else a fresh
/// version-4 UUID to write; `None` only when the random source fails. A
/// freshly written id is recognised as itself when read back, so a later call
/// keeps it.
pub fn resolve_installation_id_from_locked_file(contents: &str) -> (r: Option<InstallationIdChoice>)
    ensures
        match spec_canonical_uuid(trim(contents@)) {
            Some(c) => r matches Some(InstallationIdChoice::Keep(k)) && k@ == c,
            None => r matches Some(choice) ==> choice matches InstallationIdChoice::Write(id) && (exists|
                b: Seq<u8>,
            | b.len() == 16 && id@ == spec_uuid_v4_text(b)) && spec_canonical_uuid(trim(id@)) == Some(
                id@,
            ),
        },
{
    if let Some(existing) = existing_installation_id(contents) {
        return Some(InstallationIdChoice::Keep(existing));
    }
    match random_uuid_v4() {
        Some(id) => {
            proof {
                let b = choose|b: Seq<u8>| b.len() == 16 && id@ == spec_uuid_v4_text(b);
                crate::laws::law_installation_id_round_trip(b);
            }
            Some(InstallationIdChoice::Write(id))
        },
        None => None,
    }
}

} // verus!
