//! Digests, and the framing that keeps the fields of a digest apart.
use crate::text;
use vstd::prelude::*;
use vstd::string::*;

verus! {

/// The SHA-256 digest of bytes, in hexadecimal digits.
pub uninterp spec fn sha256_of(bytes: Seq<u8>) -> Seq<char>;

/// `sha2::Sha256::digest`, shown in lower-case hexadecimal: the digest depends on
/// the bytes alone and takes 64 digits.
#[verifier::external_body]
pub(crate) fn sha256_hex(bytes: &[u8]) -> (digest: String)
    ensures
        digest@ == sha256_of(bytes@),
        digest@.len() == 64,
        text::all_lower_hex(digest@),
{
    format!("{:x}", <sha2::Sha256 as sha2::Digest>::digest(bytes))
}

/// A number in `width` bytes, the most significant first.
pub open spec fn big_endian(value: nat, width: nat) -> Seq<u8>
    decreases width,
{
    if width == 0 {
        Seq::empty()
    } else {
        big_endian(value / 256, (width - 1) as nat).push((value % 256) as u8)
    }
}

/// A field of a digest: the number of its bytes in eight bytes, then its bytes.
pub open spec fn framed(field: Seq<char>) -> Seq<u8> {
    big_endian(text::byte_len(field), 8) + vstd::utf8::encode_utf8(field)
}

fn push_big_endian(bytes: &mut Vec<u8>, value: u64, width: u32)
    ensures
        final(bytes)@ == old(bytes)@ + big_endian(value as nat, width as nat),
    decreases width,
{
    let ghost before = bytes@;
    if width > 0 {
        push_big_endian(bytes, value / 256, width - 1);
        bytes.push((value % 256) as u8);
        assert(bytes@ =~= before + big_endian(value as nat, width as nat));
    } else {
        assert(bytes@ =~= before + big_endian(value as nat, width as nat));
    }
}

/// Adds the bytes of a text.
pub(crate) fn push_text(bytes: &mut Vec<u8>, held: &str)
    ensures
        final(bytes)@ == old(bytes)@ + vstd::utf8::encode_utf8(held@),
{
    let ghost before = bytes@;
    let all = held.as_bytes();
    let mut i: usize = 0;
    assert(bytes@ =~= before + all@.take(0));
    while i < all.len()
        invariant
            i <= all@.len(),
            bytes@ == before + all@.take(i as int),
        decreases all@.len() - i,
    {
        bytes.push(all[i]);
        assert(bytes@ =~= before + all@.take(i + 1));
        i = i + 1;
    }
    assert(all@.take(i as int) =~= all@);
}

/// Adds a field to the bytes of a digest.
pub fn hash_field(bytes: &mut Vec<u8>, field: &str)
    ensures
        final(bytes)@ == old(bytes)@ + framed(field@),
{
    let ghost before = bytes@;
    push_big_endian(bytes, text::byte_count(field) as u64, 8);
    push_text(bytes, field);
    assert(bytes@ =~= before + framed(field@));
}

proof fn lemma_big_endian_len(value: nat, width: nat)
    ensures
        big_endian(value, width).len() == width,
    decreases width,
{
    if width > 0 {
        lemma_big_endian_len(value / 256, (width - 1) as nat);
    }
}

/// The largest number that `width` bytes hold, plus one.
pub open spec fn room(width: nat) -> nat
    decreases width,
{
    if width == 0 {
        1
    } else {
        256 * room((width - 1) as nat)
    }
}

proof fn lemma_big_endian_injective(a: nat, b: nat, width: nat)
    requires
        a < room(width),
        b < room(width),
        big_endian(a, width) == big_endian(b, width),
    ensures
        a == b,
    decreases width,
{
    if width > 0 {
        let shorter = (width - 1) as nat;
        let x = big_endian(a, width);
        let y = big_endian(b, width);
        lemma_big_endian_len(a / 256, shorter);
        lemma_big_endian_len(b / 256, shorter);
        assert(x.last() == y.last());
        assert(x.drop_last() =~= big_endian(a / 256, shorter));
        assert(y.drop_last() =~= big_endian(b / 256, shorter));
        assert(a % 256 == b % 256);
        lemma_big_endian_injective(a / 256, b / 256, shorter);
        assert(a == 256 * (a / 256) + a % 256);
        assert(b == 256 * (b / 256) + b % 256);
    }
}

proof fn lemma_room_of_eight()
    ensures
        room(8) == 0x1_0000_0000_0000_0000,
{
    reveal_with_fuel(room, 9);
}

/// No two lists of two fields have the same framed bytes: what one field holds
/// cannot pass for a part of the other.
pub proof fn law_framing_keeps_fields_apart(
    a: Seq<char>,
    b: Seq<char>,
    c: Seq<char>,
    d: Seq<char>,
)
    requires
        text::byte_len(a) <= u64::MAX,
        text::byte_len(b) <= u64::MAX,
        text::byte_len(c) <= u64::MAX,
        text::byte_len(d) <= u64::MAX,
        framed(a) + framed(b) == framed(c) + framed(d),
    ensures
        a == c,
        b == d,
{
    lemma_framed_head(a, framed(b), c, framed(d));
    let all = framed(a) + framed(b);
    let size = framed(a).len() as int;
    assert(framed(b) =~= all.skip(size));
    assert(framed(d) =~= (framed(c) + framed(d)).skip(size));
    assert(framed(b) + Seq::<u8>::empty() =~= framed(b));
    assert(framed(d) + Seq::<u8>::empty() =~= framed(d));
    lemma_framed_head(b, Seq::empty(), d, Seq::empty());
}

proof fn lemma_framed_head(a: Seq<char>, rest_a: Seq<u8>, c: Seq<char>, rest_c: Seq<u8>)
    requires
        text::byte_len(a) <= u64::MAX,
        text::byte_len(c) <= u64::MAX,
        framed(a) + rest_a == framed(c) + rest_c,
    ensures
        a == c,
{
    let x = framed(a) + rest_a;
    let y = framed(c) + rest_c;
    lemma_big_endian_len(text::byte_len(a), 8);
    lemma_big_endian_len(text::byte_len(c), 8);
    lemma_room_of_eight();
    assert(big_endian(text::byte_len(a), 8) =~= x.take(8));
    assert(big_endian(text::byte_len(c), 8) =~= y.take(8));
    lemma_big_endian_injective(text::byte_len(a), text::byte_len(c), 8);
    let end = 8 + text::byte_len(a) as int;
    assert(vstd::utf8::encode_utf8(a) =~= x.subrange(8, end));
    assert(vstd::utf8::encode_utf8(c) =~= y.subrange(8, end));
    text::lemma_bytes_determine_text(a, c);
}

/// The number that bytes stand for, the most significant first.
pub open spec fn number_of(bytes: Seq<u8>) -> nat
    decreases bytes.len(),
{
    if bytes.len() == 0 {
        0
    } else {
        256 * number_of(bytes.drop_last()) + bytes.last() as nat
    }
}

/// A number is written in so many bytes, the most significant first, and is read
/// back from them where it fits into them.
pub proof fn law_numbers_are_written_most_significant_first(value: nat, width: nat)
    ensures
        big_endian(value, width).len() == width,
        value < room(width) ==> number_of(big_endian(value, width)) == value,
    decreases width,
{
    if width > 0 {
        law_numbers_are_written_most_significant_first(value / 256, (width - 1) as nat);
        let bytes = big_endian(value, width);
        assert(bytes.drop_last() =~= big_endian(value / 256, (width - 1) as nat));
        assert(value % 256 < 256);
        assert(bytes.last() as nat == value % 256);
        if value < room(width) {
            assert(value / 256 < room((width - 1) as nat));
        }
    }
}

/// A field is framed by its length in eight bytes and then its own bytes.
pub proof fn law_field_is_framed_by_its_length(field: Seq<char>)
    requires
        text::byte_len(field) < room(8),
    ensures
        framed(field).len() == 8 + text::byte_len(field),
        number_of(framed(field).take(8)) == text::byte_len(field),
        framed(field).skip(8) == vstd::utf8::encode_utf8(field),
{
    law_numbers_are_written_most_significant_first(text::byte_len(field), 8);
    assert(framed(field).take(8) =~= big_endian(text::byte_len(field), 8));
    assert(framed(field).skip(8) =~= vstd::utf8::encode_utf8(field));
}

} // verus!
