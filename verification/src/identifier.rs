//! Generated identifiers that fit a backend's limit.
use crate::flavour::SqlFamily;
use vstd::prelude::*;
use vstd::string::StrSliceExecFns;
use vstd::string::StringExecFns;
use vstd::utf8::{decode_utf8, encode_utf8, is_ascii_chars, is_char_boundary};

verus! {

/// The 32-bit FNV-1a hash of the first `n` bytes of `bytes`.
pub open spec fn spec_hash(bytes: Seq<u8>, n: nat) -> u32
    decreases n,
{
    if n == 0 {
        2166136261u32
    } else {
        (spec_hash(bytes, (n - 1) as nat) ^ (bytes[n - 1] as u32)).wrapping_mul(16777619u32)
    }
}

/// The 32-bit FNV-1a hash of `bytes`.
pub fn hash(bytes: &[u8]) -> (digest: u32)
    ensures
        digest == spec_hash(bytes@, bytes@.len()),
{
    let mut digest: u32 = 2166136261u32;
    let mut i: usize = 0;
    while i < bytes.len()
        invariant
            0 <= i <= bytes.len(),
            digest == spec_hash(bytes@, i as nat),
        decreases bytes.len() - i,
    {
        digest = (digest ^ (bytes[i] as u32)).wrapping_mul(16777619u32);
        i += 1;
    }
    digest
}

/// The value of the hexadecimal digit of `digest` at `position`, counted from the most
/// significant.
pub open spec fn spec_nibble(digest: u32, position: u32) -> u32 {
    (digest >> ((7 - position) * 4) as u32) & 0xfu32
}

/// The eight lower-case hexadecimal digits of `digest`, most significant first.
pub open spec fn spec_hex(digest: u32) -> Seq<char> {
    Seq::new(8, |i: int| "0123456789abcdef"@[spec_nibble(digest, i as u32) as int])
}

/// The eight lower-case hexadecimal digits of `digest`, most significant first.
pub fn hex(digest: u32) -> (digits: String)
    ensures
        digits@ == spec_hex(digest),
        is_ascii_chars(digits@),
        digits@.len() == 8,
{
    proof {
        reveal_strlit("0123456789abcdef");
    }
    let mut digits = String::new();
    let mut position: u32 = 0;
    while position < 8
        invariant
            0 <= position <= 8,
            "0123456789abcdef"@.len() == 16,
            is_ascii_chars("0123456789abcdef"@),
            digits@.len() == position,
            forall|i: int| 0 <= i < position ==> '\0' <= #[trigger] digits@[i] <= '\u{7f}',
            forall|i: int|
                0 <= i < position ==> digits@[i] == "0123456789abcdef"@[spec_nibble(
                    digest,
                    i as u32,
                ) as int],
        decreases 8 - position,
    {
        let shift: u32 = (7 - position) * 4;
        let value: u32 = (digest >> shift) & 0xfu32;
        assert(value < 16) by (bit_vector)
            requires
                value == (digest >> shift) & 0xfu32,
        ;
        let ghost before = digits@;
        digits.append("0123456789abcdef".substring_ascii(value as usize, value as usize + 1));
        assert(digits@[position as int] == "0123456789abcdef"@[value as int]);
        assert forall|i: int| 0 <= i < position implies digits@[i] == before[i] by {}
        position += 1;
    }
    assert(digits@ =~= spec_hex(digest));
    digits
}

/// The bytes that `shorten` adds to what it keeps of a name: an underscore and eight digits.
pub const SUFFIX_LENGTH: usize = 9;

/// The last position up to `position` at which a character of the text begins whose UTF-8
/// bytes are `bytes`.
pub open spec fn boundary_before(bytes: Seq<u8>, position: nat) -> nat
    decreases position,
{
    if position == 0 || is_char_boundary(bytes, position as int) {
        position
    } else {
        boundary_before(bytes, (position - 1) as nat)
    }
}

/// The name as it is used on a backend whose identifiers hold `limit` bytes: the name itself
/// where it fits; else its longest prefix of whole characters that leaves room for the
/// suffix, an underscore, and the hexadecimal digits of the hash of the whole name.
pub open spec fn spec_shorten(name: Seq<char>, limit: nat) -> Seq<char> {
    let bytes = encode_utf8(name);
    if bytes.len() <= limit {
        name
    } else {
        decode_utf8(bytes.subrange(0, boundary_before(bytes, (limit - SUFFIX_LENGTH) as nat) as int))
            + "_"@ + spec_hex(spec_hash(bytes, bytes.len()))
    }
}

/// The UTF-8 bytes of a text followed by plain ASCII are the bytes of the text followed by
/// one byte for each ASCII character.
pub proof fn lemma_bytes_of_ascii_suffix(head: Seq<char>, tail: Seq<char>)
    requires
        is_ascii_chars(tail),
    ensures
        encode_utf8(head + tail) == encode_utf8(head) + encode_utf8(tail),
        encode_utf8(tail).len() == tail.len(),
{
    let first = encode_utf8(head);
    let second = encode_utf8(tail);
    let all = first + second;
    vstd::utf8::is_ascii_chars_encode_utf8(tail);
    vstd::utf8::encode_utf8_valid_utf8(head);
    vstd::utf8::encode_utf8_valid_utf8(tail);
    vstd::utf8::valid_utf8_concat(first, second);
    vstd::utf8::encode_utf8_decode_utf8(head);
    vstd::utf8::encode_utf8_decode_utf8(tail);
    if tail.len() == 0 {
        assert(head + tail =~= head);
        assert(all =~= first);
    } else {
        let at = first.len() as int;
        assert(all[at] == second[0]);
        assert(tail[0] as u8 == second[0]);
        assert(tail[0] <= '\u{7f}');
        vstd::utf8::is_char_boundary_iff_not_is_continuation_byte(all, at);
        assert(is_char_boundary(all, at));
        vstd::utf8::decode_utf8_split(all, at);
        assert(all.subrange(0, at) =~= first);
        assert(all.subrange(at, all.len() as int) =~= second);
        assert(decode_utf8(all) =~= head + tail);
        vstd::utf8::decode_utf8_encode_utf8(all);
    }
}

/// Whether a name can be fitted into `limit` bytes: it can where it fits as it is, or where
/// the limit leaves room for the suffix.
pub open spec fn can_shorten(name: Seq<char>, limit: nat) -> bool {
    encode_utf8(name).len() <= limit || limit >= SUFFIX_LENGTH
}

/// Fits a generated name into `limit` bytes, where that can be done. The same name always
/// gives the same result.
pub fn shorten(name: &str, limit: usize) -> (fitted: Option<String>)
    ensures
        fitted is Some == can_shorten(name@, limit as nat),
        fitted is Some ==> fitted.unwrap()@ == spec_shorten(name@, limit as nat),
        fitted is Some ==> encode_utf8(fitted.unwrap()@).len() <= limit,
        encode_utf8(name@).len() <= limit ==> fitted is Some && fitted.unwrap()@ == name@,
{
    let ghost bytes = encode_utf8(name@);
    proof {
        vstd::utf8::encode_utf8_valid_utf8(name@);
    }
    if name.as_bytes().len() <= limit {
        return Some(String::from_str(name));
    }
    if limit < SUFFIX_LENGTH {
        return None;
    }
    let mut cut: usize = limit - SUFFIX_LENGTH;
    while cut > 0 && !name.is_char_boundary(cut)
        invariant
            0 <= cut <= limit - SUFFIX_LENGTH,
            bytes == encode_utf8(name@),
            boundary_before(bytes, cut as nat) == boundary_before(
                bytes,
                (limit - SUFFIX_LENGTH) as nat,
            ),
        decreases cut,
    {
        cut -= 1;
    }
    proof {
        vstd::utf8::is_char_boundary_start_end_of_seq(bytes);
        assert(is_char_boundary(bytes, cut as int));
        assert(boundary_before(bytes, cut as nat) == cut);
    }
    let (head, _rest) = name.split_at(cut);
    let digits = hex(hash(name.as_bytes()));
    let mut tail = String::from_str("_");
    tail.append(digits.as_str());
    let mut fitted = String::from_str(head);
    fitted.append(tail.as_str());
    proof {
        reveal_strlit("_");
        vstd::utf8::encode_utf8_decode_utf8(head@);
        assert(encode_utf8(head@) =~= bytes.subrange(0, cut as int));
        vstd::utf8::encode_utf8_valid_utf8(head@);
        assert(head@ == decode_utf8(bytes.subrange(0, cut as int)));
        assert(tail@ =~= "_"@ + digits@);
        assert(is_ascii_chars(tail@));
        assert(fitted@ =~= head@ + "_"@ + digits@);
        lemma_bytes_of_ascii_suffix(head@, tail@);
    }
    Some(fitted)
}

/// Fits a generated name into the identifiers of a backend.
pub fn shorten_for(family: SqlFamily, name: &str) -> (fitted: String)
    ensures
        fitted@ == match family.spec_max_identifier_length() {
            Some(limit) => spec_shorten(name@, limit as nat),
            None => name@,
        },
        match family.spec_max_identifier_length() {
            Some(limit) => encode_utf8(fitted@).len() <= limit,
            None => true,
        },
{
    match family.max_identifier_length() {
        Some(limit) => match shorten(name, limit) {
            Some(fitted) => fitted,
            None => vstd::pervasive::unreached(),
        },
        None => String::from_str(name),
    }
}

} // verus!
