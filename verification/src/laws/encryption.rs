use vstd::prelude::*;

use crate::encryption;
use crate::encryption::EncryptionView;
use crate::error::VideoErrorView;
use crate::hexadecimal;
use crate::playlist::KeyView;
use crate::resource_url;
use crate::text;

verus! {

/// The number that bytes write down, the most significant one first.
pub open spec fn be_value(bytes: Seq<u8>) -> nat
    decreases bytes.len(),
{
    if bytes.len() == 0 {
        0
    } else {
        be_value(bytes.drop_last()) * 256 + bytes.last() as nat
    }
}

/// 256 to the power `n`.
pub open spec fn power_256(n: nat) -> nat
    decreases n,
{
    if n == 0 {
        1
    } else {
        256 * power_256((n - 1) as nat)
    }
}

/// A number that fits in `width` bytes is read back from them.
pub proof fn law_big_endian_round_trip(n: nat, width: nat)
    requires
        n < power_256(width),
    ensures
        encryption::be_bytes(n, width).len() == width,
        be_value(encryption::be_bytes(n, width)) == n,
    decreases width,
{
    if width > 0 {
        let bytes = encryption::be_bytes(n, width);
        law_big_endian_round_trip(n / 256, (width - 1) as nat);
        assert(bytes.drop_last() =~= encryption::be_bytes(n / 256, (width - 1) as nat));
        assert(bytes.last() == (n % 256) as u8);
    }
}

/// Every sequence number fits in sixteen bytes.
proof fn lemma_sequence_numbers_fit(seq: u64)
    ensures
        seq < power_256(16),
{
    reveal_with_fuel(power_256, 17);
}

/// The vector that a segment gets from its sequence number is a block that writes
/// the number down.
pub proof fn law_sequence_vector_writes_the_number(seq: u64)
    ensures
        encryption::be_bytes(seq as nat, 16).len() == 16,
        be_value(encryption::be_bytes(seq as nat, 16)) == seq,
{
    lemma_sequence_numbers_fit(seq);
    law_big_endian_round_trip(seq as nat, 16);
}

/// Segments with different sequence numbers get different vectors.
pub proof fn law_sequence_vectors_differ(a: u64, b: u64)
    requires
        encryption::be_bytes(a as nat, 16) == encryption::be_bytes(b as nat, 16),
    ensures
        a == b,
{
    law_sequence_vector_writes_the_number(a);
    law_sequence_vector_writes_the_number(b);
}

/// A key tag is never read as an encryption that cannot be decrypted, and every
/// vector is a whole block.
pub proof fn law_accepted_keys_can_be_used(key: KeyView, base_url: Seq<char>, seq: u64)
    ensures
        encryption::encryption_of(key, base_url, seq) matches Ok(found) ==> {
            &&& !(found is SampleAes)
            &&& found matches EncryptionView::Aes128 { key_uri, iv } ==> iv.len() == 16
        },
{
    law_sequence_vector_writes_the_number(seq);
}

/// A key of any size but sixteen bytes is refused, and none is cut or filled up to
/// size.
pub proof fn law_key_of_the_wrong_size_is_refused(
    key_uri: Seq<char>,
    iv: Seq<u8>,
    key_body: Seq<u8>,
    data: Seq<u8>,
)
    requires
        key_body.len() != 16,
    ensures
        encryption::decrypted(EncryptionView::Aes128 { key_uri, iv }, key_body, data) == Err::<
            Seq<u8>,
            VideoErrorView,
        >(
            VideoErrorView::EncryptionError(
                "AES-128 key must be exactly 16 bytes, got "@ + text::decimal(key_body.len()),
            ),
        ),
{
}

/// What is not encrypted is handed out as it is, whatever comes with it.
pub proof fn law_clear_data_is_unchanged(key_body: Seq<u8>, data: Seq<u8>)
    ensures
        encryption::decrypted(EncryptionView::Unencrypted, key_body, data) == Ok::<
            Seq<u8>,
            VideoErrorView,
        >(data),
{
}

/// No two methods have the same name.
proof fn lemma_methods_differ()
    ensures
        "NONE"@ != "AES-128"@,
        "NONE"@ != "SAMPLE-AES"@,
        "AES-128"@ != "SAMPLE-AES"@,
{
    reveal_strlit("NONE");
    reveal_strlit("AES-128");
    reveal_strlit("SAMPLE-AES");
    assert("NONE"@.len() == 4);
    assert("AES-128"@.len() == 7);
    assert("SAMPLE-AES"@.len() == 10);
}

/// Only the tag that says so leaves segments in the clear, and it does so whatever
/// else it says.
pub proof fn law_only_none_leaves_segments_clear(key: KeyView, base_url: Seq<char>, seq: u64)
    ensures
        encryption::encryption_of(key, base_url, seq) == Ok::<EncryptionView, VideoErrorView>(
            EncryptionView::Unencrypted,
        ) <==> key.method == "NONE"@,
{
}

/// An AES-128 tag with an address that resolves, and a key that is represented as it
/// is, gives just that address, and sixteen bytes of vector: those that it writes
/// down, and else the sequence number of the segment. It is refused where its vector
/// cannot be read.
pub proof fn law_aes128_tag_is_read_as_it_says(
    key: KeyView,
    base_url: Seq<char>,
    seq: u64,
    address: Seq<char>,
)
    requires
        key.method == "AES-128"@,
        key.uri is Some,
        resource_url::absolute_url(base_url, key.uri->0) == Ok::<Seq<char>, VideoErrorView>(
            address,
        ),
        key.keyformat is None || key.keyformat == Some("identity"@),
    ensures
        key.iv is None ==> {
            &&& encryption::encryption_of(key, base_url, seq) matches Ok(found)
            &&& found is Aes128
            &&& found->key_uri == address
            &&& found->iv.len() == 16
            &&& be_value(found->iv) == seq
        },
        key.iv matches Some(vector) ==> match hexadecimal::vector_block(vector) {
            Ok(block) => encryption::encryption_of(key, base_url, seq) == Ok::<
                EncryptionView,
                VideoErrorView,
            >(EncryptionView::Aes128 { key_uri: address, iv: block }),
            Err(error) => encryption::encryption_of(key, base_url, seq) == Err::<
                EncryptionView,
                VideoErrorView,
            >(VideoErrorView::HexError(error)),
        },
{
    lemma_methods_differ();
    law_sequence_vector_writes_the_number(seq);
}

/// Every other tag is refused: one without an address, one whose key is represented
/// in another way, one whose address does not resolve, and one of another method.
pub proof fn law_other_tags_are_refused(key: KeyView, base_url: Seq<char>, seq: u64)
    ensures
        key.method == "AES-128"@ && key.uri is None ==> encryption::encryption_of(
            key,
            base_url,
            seq,
        ) == Err::<EncryptionView, VideoErrorView>(
            VideoErrorView::EncryptionError("No URI found for AES-128 key"@),
        ),
        key.method == "AES-128"@ && key.uri is Some && key.keyformat is Some && key.keyformat->0
            != "identity"@ ==> encryption::encryption_of(key, base_url, seq) == Err::<
            EncryptionView,
            VideoErrorView,
        >(VideoErrorView::EncryptionError("Invalid keyformat: "@ + key.keyformat->0)),
        key.method == "AES-128"@ && key.uri is Some && (key.keyformat is None || key.keyformat
            == Some("identity"@)) && resource_url::absolute_url(base_url, key.uri->0) is Err
            ==> encryption::encryption_of(key, base_url, seq) == Err::<
            EncryptionView,
            VideoErrorView,
        >(resource_url::absolute_url(base_url, key.uri->0)->Err_0),
        key.method == "SAMPLE-AES"@ ==> encryption::encryption_of(key, base_url, seq) == Err::<
            EncryptionView,
            VideoErrorView,
        >(VideoErrorView::EncryptionError("Unimplemented encryption method: "@ + key.method)),
        key.method != "NONE"@ && key.method != "AES-128"@ && key.method != "SAMPLE-AES"@
            ==> encryption::encryption_of(key, base_url, seq) == Err::<
            EncryptionView,
            VideoErrorView,
        >(VideoErrorView::EncryptionError("Invalid encryption method: "@ + key.method)),
{
    lemma_methods_differ();
}

/// With a key of sixteen bytes, decryption gives just what AES-128 in CBC mode gives
/// for the key, the whole vector and the data; where that gives nothing, decryption
/// fails in its words.
pub proof fn law_decryption_is_that_of_key_vector_and_data(
    key_uri: Seq<char>,
    key_body: Seq<u8>,
    iv: Seq<u8>,
    data: Seq<u8>,
)
    requires
        key_body.len() == 16,
    ensures
        match encryption::aes128_cbc(key_body, iv, data) {
            Ok(plain) => encryption::decrypted(
                EncryptionView::Aes128 { key_uri, iv },
                key_body,
                data,
            ) == Ok::<Seq<u8>, VideoErrorView>(plain),
            Err(text) => encryption::decrypted(
                EncryptionView::Aes128 { key_uri, iv },
                key_body,
                data,
            ) == Err::<Seq<u8>, VideoErrorView>(VideoErrorView::DecryptionError(text)),
        },
{
}

/// Where the key is kept has no part in what it decrypts.
pub proof fn law_address_of_the_key_does_not_matter(
    a: Seq<char>,
    b: Seq<char>,
    iv: Seq<u8>,
    key_body: Seq<u8>,
    data: Seq<u8>,
)
    ensures
        encryption::decrypted(EncryptionView::Aes128 { key_uri: a, iv }, key_body, data)
            == encryption::decrypted(EncryptionView::Aes128 { key_uri: b, iv }, key_body, data),
{
}

} // verus!
