use aes::cipher::block_padding::Pkcs7;
use aes::cipher::{BlockDecryptMut, KeyIvInit};
use vstd::prelude::*;
use vstd::slice::slice_to_vec;
use vstd::string::StringExecFns;

use crate::error;
use crate::error::{VideoError, VideoErrorView};
use crate::hexadecimal;
use crate::hexadecimal::parse_vector;
use crate::playlist::{Key, KeyView};
use crate::resource_url;
use crate::resource_url::{make_absolute_url, ResourceUrl};
use crate::text;
use crate::text::{decimal_text, same_text};
use crate::views;

verus! {

/// How a media segment is encrypted.
#[derive(Debug)]
pub enum Encryption {
    /// Not at all.
    Unencrypted,
    /// AES-128 in CBC mode with PKCS #7 padding, over the whole segment.
    Aes128 { key_uri: ResourceUrl, iv: [u8; 16] },
    /// Sample by sample.
    SampleAes,
}

/// What an [`Encryption`] says.
pub enum EncryptionView {
    Unencrypted,
    Aes128 { key_uri: Seq<char>, iv: Seq<u8> },
    SampleAes,
}

impl View for Encryption {
    type V = EncryptionView;

    open spec fn view(&self) -> EncryptionView {
        match *self {
            Encryption::Unencrypted => EncryptionView::Unencrypted,
            Encryption::Aes128 { key_uri, iv } => EncryptionView::Aes128 {
                key_uri: key_uri@,
                iv: iv@,
            },
            Encryption::SampleAes => EncryptionView::SampleAes,
        }
    }
}

impl Clone for Encryption {
    fn clone(&self) -> (copy: Encryption)
        ensures
            copy@ == self@,
    {
        match self {
            Encryption::Unencrypted => Encryption::Unencrypted,
            Encryption::Aes128 { key_uri, iv } => Encryption::Aes128 {
                key_uri: key_uri.clone(),
                iv: *iv,
            },
            Encryption::SampleAes => Encryption::SampleAes,
        }
    }
}

/// A number as `width` bytes, the most significant one first.
pub open spec fn be_bytes(n: nat, width: nat) -> Seq<u8>
    decreases width,
{
    if width == 0 {
        Seq::empty()
    } else {
        be_bytes(n / 256, (width - 1) as nat).push((n % 256) as u8)
    }
}

/// The initialization vector that a segment without one gets: its sequence
/// number as sixteen bytes, the most significant one first.
pub fn sequence_vector(seq: u64) -> (iv: [u8; 16])
    ensures
        iv@ == be_bytes(seq as nat, 16),
{
    let mut iv: [u8; 16] = [0u8; 16];
    let mut rest: u64 = seq;
    let mut i: usize = 16;
    assert(iv@.subrange(16, 16) =~= Seq::<u8>::empty());
    assert(be_bytes(rest as nat, i as nat) + iv@.subrange(16, 16) =~= be_bytes(seq as nat, 16));
    while i > 0
        invariant
            0 <= i <= 16,
            be_bytes(seq as nat, 16) == be_bytes(rest as nat, i as nat) + iv@.subrange(
                i as int,
                16,
            ),
        decreases i,
    {
        let ghost before = iv@;
        let ghost left = rest;
        i = i - 1;
        iv[i] = (rest % 256) as u8;
        rest = rest / 256;
        proof {
            assert(iv@ =~= before.update(i as int, (left % 256) as u8));
            assert(be_bytes(left as nat, (i + 1) as nat) + before.subrange(i + 1, 16)
                =~= be_bytes(rest as nat, i as nat) + iv@.subrange(i as int, 16));
        }
    }
    assert(be_bytes(rest as nat, 0) + iv@.subrange(0, 16) =~= iv@);
    iv
}

/// What a key tag asks for, for the segment `seq` of the playlist at `base_url`.
pub open spec fn encryption_of(key: KeyView, base_url: Seq<char>, seq: u64) -> Result<
    EncryptionView,
    VideoErrorView,
> {
    if key.method == "NONE"@ {
        Ok(EncryptionView::Unencrypted)
    } else if key.method == "AES-128"@ {
        aes128_of(key, base_url, seq)
    } else if key.method == "SAMPLE-AES"@ {
        Err(VideoErrorView::EncryptionError("Unimplemented encryption method: "@ + key.method))
    } else {
        Err(VideoErrorView::EncryptionError("Invalid encryption method: "@ + key.method))
    }
}

/// What an AES-128 key tag asks for. It has to name the key's address and may
/// represent the key as it is only. Its initialization vector is the one that it
/// gives, else the sequence number of the segment.
pub open spec fn aes128_of(key: KeyView, base_url: Seq<char>, seq: u64) -> Result<
    EncryptionView,
    VideoErrorView,
> {
    match key.uri {
        None => Err(VideoErrorView::EncryptionError("No URI found for AES-128 key"@)),
        Some(uri) => if key.keyformat matches Some(keyformat) && keyformat != "identity"@ {
            Err(VideoErrorView::EncryptionError("Invalid keyformat: "@ + key.keyformat->0))
        } else {
            match resource_url::absolute_url(base_url, uri) {
                Err(error) => Err(error),
                Ok(key_uri) => aes128_at(key_uri, key.iv, seq),
            }
        },
    }
}

/// AES-128 with the key at `key_uri`, and the vector that is given in hexadecimal
/// or else made of the segment's sequence number.
pub open spec fn aes128_at(key_uri: Seq<char>, vector: Option<Seq<char>>, seq: u64) -> Result<
    EncryptionView,
    VideoErrorView,
> {
    match vector {
        None => Ok(EncryptionView::Aes128 { key_uri, iv: be_bytes(seq as nat, 16) }),
        Some(vector) => match hexadecimal::vector_block(vector) {
            Ok(iv) => Ok(EncryptionView::Aes128 { key_uri, iv }),
            Err(error) => Err(VideoErrorView::HexError(error)),
        },
    }
}

/// What AES-128 in CBC mode makes of data, without its PKCS #7 padding; or what
/// is said of data that is no padded ciphertext.
pub uninterp spec fn aes128_cbc(key: Seq<u8>, iv: Seq<u8>, data: Seq<u8>) -> Result<
    Seq<u8>,
    Seq<char>,
>;

/// `decrypt_padded_vec_mut::<Pkcs7>` on a `cbc::Decryptor<aes::Aes128>`. Only
/// whole blocks, at least one, can be decrypted; the padding takes at least one
/// byte and at most a block; and of other data nothing is said but that it is
/// not padded. The result depends on the key, the vector and the data alone.
#[verifier::external_body]
fn aes128_cbc_decrypt(key: &[u8; 16], iv: &[u8; 16], data: &[u8]) -> (plain: Result<
    Vec<u8>,
    String,
>)
    ensures
        match plain {
            Ok(plain) => aes128_cbc(key@, iv@, data@) == Ok::<Seq<u8>, Seq<char>>(plain@),
            Err(text) => aes128_cbc(key@, iv@, data@) == Err::<Seq<u8>, Seq<char>>(text@),
        },
        plain matches Ok(plain) ==> data@.len() % 16 == 0 && data@.len() - 16 <= plain@.len()
            < data@.len(),
        plain matches Err(text) ==> text@ == "Unpad Error"@,
{
    cbc::Decryptor::<aes::Aes128>::new(key.into(), iv.into())
        .decrypt_padded_vec_mut::<Pkcs7>(data)
        .map_err(|error| error.to_string())
}

/// What encrypted data is decrypted to, given the body of the reply from the
/// key's address.
pub open spec fn decrypted(encryption: EncryptionView, key_body: Seq<u8>, data: Seq<u8>) -> Result<
    Seq<u8>,
    VideoErrorView,
>
    recommends
        !(encryption is SampleAes),
{
    match encryption {
        EncryptionView::Aes128 { key_uri, iv } => if key_body.len() != 16 {
            Err(
                VideoErrorView::EncryptionError(
                    "AES-128 key must be exactly 16 bytes, got "@ + text::decimal(key_body.len()),
                ),
            )
        } else {
            decryption(aes128_cbc(key_body, iv, data))
        },
        _ => Ok(data),
    }
}

/// What a decryption gives: the bytes, or an error that says what went wrong.
pub open spec fn decryption(plain: Result<Seq<u8>, Seq<char>>) -> Result<
    Seq<u8>,
    VideoErrorView,
> {
    match plain {
        Ok(plain) => Ok(plain),
        Err(text) => Err(VideoErrorView::DecryptionError(text)),
    }
}

/// Turns the outcome of a decryption into a result of the library.
pub fn decryption_result(plain: Result<Vec<u8>, String>) -> (result: Result<Vec<u8>, VideoError>)
    ensures
        match plain {
            Ok(plain) => result is Ok && result->Ok_0@ == plain@,
            Err(text) => result is Err && result->Err_0@ == VideoErrorView::DecryptionError(text@),
        },
{
    match plain {
        Ok(plain) => Ok(plain),
        Err(text) => Err(VideoError::DecryptionError(text)),
    }
}

/// A key of the right size, or the error that says which size it has.
fn aes128_key(body: &[u8]) -> (key: Result<[u8; 16], VideoError>)
    ensures
        key is Ok == (body@.len() == 16),
        key matches Ok(key) ==> key@ == body@,
        key matches Err(error) ==> error@ == VideoErrorView::EncryptionError(
            "AES-128 key must be exactly 16 bytes, got "@ + text::decimal(body@.len()),
        ),
{
    if body.len() != 16 {
        return Err(
            VideoError::EncryptionError(
                "AES-128 key must be exactly 16 bytes, got ".to_owned().concat(
                    decimal_text(body.len() as u64).as_str(),
                ),
            ),
        );
    }
    let mut key: [u8; 16] = [0u8; 16];
    let mut i: usize = 0;
    while i < 16
        invariant
            0 <= i <= 16,
            body@.len() == 16,
            forall|k: int| 0 <= k < i ==> key@[k] == body@[k],
        decreases 16 - i,
    {
        key[i] = body[i];
        i = i + 1;
    }
    assert(key@ =~= body@);
    Ok(key)
}

impl Encryption {
    /// Reads a key tag for the segment `seq` of the playlist at `base_url`.
    pub fn new(m3u8_key: &Key, base_url: &str, seq: u64) -> (encryption: Result<
        Encryption,
        VideoError,
    >)
        ensures
            error::view_result(encryption) == encryption_of(m3u8_key@, base_url@, seq),
    {
        if same_text(m3u8_key.method.as_str(), "NONE") {
            Ok(Encryption::Unencrypted)
        } else if same_text(m3u8_key.method.as_str(), "AES-128") {
            let uri: &String = match &m3u8_key.uri {
                Some(uri) => uri,
                None => {
                    return Err(
                        VideoError::EncryptionError("No URI found for AES-128 key".to_owned()),
                    );
                },
            };
            if let Some(keyformat) = &m3u8_key.keyformat {
                if !same_text(keyformat.as_str(), "identity") {
                    return Err(
                        VideoError::EncryptionError(
                            "Invalid keyformat: ".to_owned().concat(keyformat.as_str()),
                        ),
                    );
                }
            }
            let key_uri: ResourceUrl = match make_absolute_url(base_url, uri.as_str()) {
                Ok(key_uri) => key_uri,
                Err(error) => {
                    return Err(error);
                },
            };
            Encryption::aes128(key_uri, &m3u8_key.iv, seq)
        } else if same_text(m3u8_key.method.as_str(), "SAMPLE-AES") {
            Err(
                VideoError::EncryptionError(
                    "Unimplemented encryption method: ".to_owned().concat(
                        m3u8_key.method.as_str(),
                    ),
                ),
            )
        } else {
            Err(
                VideoError::EncryptionError(
                    "Invalid encryption method: ".to_owned().concat(m3u8_key.method.as_str()),
                ),
            )
        }
    }

    /// AES-128 with the key at `key_uri` for the segment `seq`.
    pub fn aes128(key_uri: ResourceUrl, vector: &Option<String>, seq: u64) -> (encryption: Result<
        Encryption,
        VideoError,
    >)
        ensures
            error::view_result(encryption) == aes128_at(
                key_uri@,
                views::view_option(*vector),
                seq,
            ),
    {
        match vector {
            Some(vector) => match parse_vector(vector.as_str()) {
                Ok(iv) => Ok(Encryption::Aes128 { key_uri, iv }),
                Err(error) => Err(VideoError::HexError(error)),
            },
            None => Ok(Encryption::Aes128 { key_uri, iv: sequence_vector(seq) }),
        }
    }

    /// Where the key is to be fetched from before the data can be decrypted;
    /// `None` where no key is needed.
    pub fn key_address(&self) -> (address: Option<&ResourceUrl>)
        ensures
            match self@ {
                EncryptionView::Aes128 { key_uri, iv } => address is Some && address->0@
                    == key_uri,
                _ => address is None,
            },
    {
        match self {
            Encryption::Aes128 { key_uri, iv: _ } => Some(key_uri),
            _ => None,
        }
    }

    /// Decrypts data, given the body of the reply from the key's address. Where no
    /// key is needed the body does not matter.
    pub fn decrypt(&self, key_body: &[u8], data: &[u8]) -> (plain: Result<Vec<u8>, VideoError>)
        requires
            !(self is SampleAes),
        ensures
            match decrypted(self@, key_body@, data@) {
                Ok(bytes) => plain is Ok && plain->Ok_0@ == bytes,
                Err(error) => plain is Err && plain->Err_0@ == error,
            },
            plain matches Ok(plain) ==> plain@.len() <= data@.len(),
    {
        match self {
            Encryption::Aes128 { key_uri: _, iv } => {
                let key: [u8; 16] = match aes128_key(key_body) {
                    Ok(key) => key,
                    Err(error) => {
                        return Err(error);
                    },
                };
                decryption_result(aes128_cbc_decrypt(&key, iv, data))
            },
            _ => Ok(slice_to_vec(data)),
        }
    }
}

} // verus!
