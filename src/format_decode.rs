use vstd::prelude::*;
use vstd::utf8::{decode_utf8, decode_utf8_encode_utf8, encode_utf8, valid_utf8};

verus! {

/// Byte used to obfuscate text stored in the container.
pub const TEXT_MASK: u8 = 0x5A;

/// Text used in place of bytes that are not valid UTF-8 once unmasked.
pub open spec fn not_text() -> Seq<char> {
    "value not utf-8."@
}

/// Big-endian value of a 1-, 2- or 4-byte field; any other length reads as 0.
pub open spec fn int_value(b: Seq<u8>) -> nat {
    if b.len() == 1 {
        b[0] as nat
    } else if b.len() == 2 {
        b[0] as nat * 256 + b[1] as nat
    } else if b.len() == 4 {
        b[0] as nat * 0x100_0000 + b[1] as nat * 0x1_0000 + b[2] as nat * 0x100 + b[3] as nat
    } else {
        0
    }
}

/// Path-style integer: one byte reads as itself, two bytes read as the
/// long-id base 0x80 plus the trailing byte (the leading byte only carries the
/// marker bits), any other length reads as 0.
pub open spec fn path_int_value(b: Seq<u8>) -> nat {
    if b.len() == 1 {
        b[0] as nat
    } else if b.len() == 2 {
        0x80 + b[1] as nat
    } else {
        0
    }
}

/// Every byte XORed with the text mask.
pub open spec fn xor_mask(b: Seq<u8>) -> Seq<u8> {
    b.map_values(|c: u8| c ^ TEXT_MASK)
}

/// The text `fm_string_decrypt` returns for the given bytes: the unmasked
/// bytes decoded as UTF-8, or the placeholder where they are not valid UTF-8.
pub open spec fn decrypted_text(b: Seq<u8>) -> Seq<char> {
    if valid_utf8(xor_mask(b)) {
        decode_utf8(xor_mask(b))
    } else {
        not_text()
    }
}

/// Relies on `String::from_utf8`: valid UTF-8 decodes to the characters it
/// encodes, anything else is refused.
#[verifier::external_body]
fn utf8_text(b: Vec<u8>) -> (r: Option<String>)
    ensures
        (r is Some) == valid_utf8(b@),
        r is Some ==> r->0@ == decode_utf8(b@),
{
    String::from_utf8(b).ok()
}

/// Decodes a path-style integer (see `path_int_value`).
pub fn get_path_int(bytes: &[u8]) -> (r: usize)
    ensures
        r as nat == path_int_value(bytes@),
{
    if bytes.len() == 1 {
        bytes[0] as usize
    } else if bytes.len() == 2 {
        0x80 + bytes[1] as usize
    } else {
        0
    }
}

/// Decodes a big-endian integer of 1, 2 or 4 bytes (see `int_value`).
pub fn get_int(bytes: &[u8]) -> (r: usize)
    ensures
        r as nat == int_value(bytes@),
{
    if bytes.len() == 1 {
        bytes[0] as usize
    } else if bytes.len() == 2 {
        bytes[0] as usize * 256 + bytes[1] as usize
    } else if bytes.len() == 4 {
        bytes[0] as usize * 0x100_0000 + bytes[1] as usize * 0x1_0000 + bytes[2] as usize * 0x100
            + bytes[3] as usize
    } else {
        0
    }
}

/// Unmasks the bytes and reads them as UTF-8 text, or yields the `not_text` placeholder
/// where they are not valid UTF-8.
pub fn fm_string_decrypt(bytes: &[u8]) -> (r: String)
    ensures
        r@ == decrypted_text(bytes@),
{
    let mut unmasked: Vec<u8> = Vec::with_capacity(bytes.len());
    let mut i: usize = 0;
    while i < bytes.len()
        invariant
            i <= bytes.len(),
            unmasked@ == xor_mask(bytes@.subrange(0, i as int)),
        decreases bytes.len() - i,
    {
        unmasked.push(bytes[i] ^ TEXT_MASK);
        i += 1;
        assert(unmasked@ =~= xor_mask(bytes@.subrange(0, i as int)));
    }
    assert(bytes@.subrange(0, bytes.len() as int) =~= bytes@);
    text_or_placeholder(utf8_text(unmasked))
}

/// The decoded text, or the `not_text` placeholder where decoding failed.
pub fn text_or_placeholder(decoded: Option<String>) -> (r: String)
    ensures
        r@ == match decoded {
            Some(s) => s@,
            None => not_text(),
        },
{
    match decoded {
        Some(s) => s,
        None => {
            proof {
                reveal_strlit("value not utf-8.");
            }
            "value not utf-8.".to_owned()
        },
    }
}

/// A four-byte integer is its two two-byte halves joined, the first shifted
/// up by 16 bits.
pub proof fn lemma_int_halves(b: Seq<u8>)
    requires
        b.len() == 4,
    ensures
        int_value(b) == int_value(b.subrange(0, 2)) * 0x1_0000 + int_value(b.subrange(2, 4)),
{
    assert(b.subrange(0, 2)[0] == b[0] && b.subrange(0, 2)[1] == b[1]);
    assert(b.subrange(2, 4)[0] == b[2] && b.subrange(2, 4)[1] == b[3]);
}

/// A two-byte path integer is never below the long-id base.
pub proof fn lemma_path_int_long_base(b: Seq<u8>)
    requires
        b.len() == 2,
    ensures
        path_int_value(b) >= 0x80,
{
}

/// Masking twice gives the bytes back.
pub proof fn lemma_mask_involution(b: Seq<u8>)
    ensures
        xor_mask(xor_mask(b)) == b,
{
    assert forall|i: int| 0 <= i < b.len() implies xor_mask(xor_mask(b))[i] == b[i] by {
        let c = b[i];
        assert(c ^ TEXT_MASK ^ TEXT_MASK == c) by (bit_vector);
    }
    assert(xor_mask(xor_mask(b)) =~= b);
}

/// Encrypting what was decrypted gives the input back: where the unmasked
/// bytes are text, the UTF-8 bytes of the decrypted text, masked again, are
/// the input.
pub proof fn lemma_decrypt_round_trip(b: Seq<u8>)
    requires
        valid_utf8(xor_mask(b)),
    ensures
        xor_mask(encode_utf8(decrypted_text(b))) == b,
{
    decode_utf8_encode_utf8(xor_mask(b));
    lemma_mask_involution(b);
}

/// Decryption is one XOR per byte: the decrypted text has as many bytes as
/// the input, each the input byte XOR the mask, and so none equal to it.
pub proof fn lemma_decrypt_single_xor(b: Seq<u8>)
    requires
        valid_utf8(xor_mask(b)),
    ensures
        encode_utf8(decrypted_text(b)).len() == b.len(),
        forall|i: int| 0 <= i < b.len() ==> #[trigger] encode_utf8(decrypted_text(b))[i] == b[i] ^ TEXT_MASK,
        forall|i: int| 0 <= i < b.len() ==> #[trigger] encode_utf8(decrypted_text(b))[i] != b[i],
{
    decode_utf8_encode_utf8(xor_mask(b));
    assert forall|i: int| 0 <= i < b.len() implies #[trigger] encode_utf8(decrypted_text(b))[i] != b[i] by {
        let c = b[i];
        assert(c ^ TEXT_MASK != c) by (bit_vector);
    }
}

} // verus!
