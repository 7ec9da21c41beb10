//! Envelope encryption of ledger records: each payload is sealed under a
//! fresh data key, and that key is wrapped under the caller's master key.

use aes_gcm::aead::{Aead, KeyInit};
use vstd::prelude::*;

use crate::digest::{hex_of, le_bytes, sha512, sha512_of, to_hex, u64_le_bytes};

verus! {

/// The opaque error of `aes_gcm`'s `encrypt` and `decrypt`.
#[verifier::external_type_specification]
#[verifier::external_body]
pub struct ExAeadError(aes_gcm::Error);

/// The largest payload AES-GCM seals, in bytes.
pub const GCM_MAX_PLAIN: u64 = 68719476736;

/// What AES-256-GCM produces (ciphertext followed by its tag) for a key,
/// a nonce and a plaintext, with no associated data.
pub uninterp spec fn gcm_seal(key: Seq<u8>, nonce: Seq<u8>, plain: Seq<u8>) -> Seq<u8>;

/// Relies on `aes_gcm::Aes256Gcm::encrypt`: it refuses a plaintext longer
/// than `P_MAX` bytes and otherwise returns the sealed bytes, the
/// ciphertext followed by a 16-byte tag.
#[verifier::external_body]
fn gcm_encrypt(key: &[u8; 32], nonce: &[u8; 12], plain: &[u8]) -> (r: Result<
    Vec<u8>,
    aes_gcm::Error,
>)
    ensures
        r is Ok <==> plain@.len() <= GCM_MAX_PLAIN,
        r is Ok ==> r->Ok_0@ == gcm_seal(key@, nonce@, plain@),
        r is Ok ==> r->Ok_0@.len() == plain@.len() + 16,
{
    aes_gcm::Aes256Gcm::new(key.into()).encrypt(nonce.into(), plain)
}

/// Relies on `aes_gcm::Aes256Gcm::decrypt`: it succeeds only when the tag
/// verifies, which means that re-sealing its output gives back the input,
/// and it opens whatever `encrypt` sealed under the same key and nonce.
#[verifier::external_body]
fn gcm_decrypt(key: &[u8; 32], nonce: &[u8; 12], sealed: &[u8]) -> (r: Result<
    Vec<u8>,
    aes_gcm::Error,
>)
    ensures
        r is Ok ==> sealed@ == gcm_seal(key@, nonce@, r->Ok_0@),
        forall|p: Seq<u8>|
            p.len() <= GCM_MAX_PLAIN && #[trigger] gcm_seal(key@, nonce@, p) == sealed@ ==> (
            r is Ok && r->Ok_0@ == p),
{
    aes_gcm::Aes256Gcm::new(key.into()).decrypt(nonce.into(), sealed)
}

/// Relies on `rand::random`: a value drawn from the thread-local generator,
/// of which nothing is promised.
pub assume_specification<T>[ rand::random::<T> ]() -> (r: T)
    where
        rand::distributions::Standard: rand::distributions::Distribution<T>,
;

/// Relies on `std::time::SystemTime::now`: milliseconds since the Unix
/// epoch, or zero for a clock set before it.
#[verifier::external_body]
pub(crate) fn now_millis() -> (r: u128) {
    std::time::SystemTime::now().duration_since(std::time::UNIX_EPOCH).map(|d| d.as_millis()).unwrap_or(0)
}

/// Why a record could not be sealed or opened.
#[derive(Debug, Clone, Copy, PartialEq, Eq, Structural)]
pub enum CryptoError {
    /// The payload is longer than AES-GCM can seal.
    PayloadTooLong,
    /// The record holds no wrapped data key.
    MissingKey,
    /// The unwrapped data key is not 32 bytes long.
    KeyLength,
    /// A tag did not verify: wrong key, or altered bytes.
    Authentication,
}

/// A data key wrapped under a master key.
#[derive(Debug, Clone)]
pub struct EncryptedDEKRef {
    pub version: u32,
    pub encrypted_dek: Vec<u8>,
    pub nonce: [u8; 12],
    pub created_at: u128,
}

pub ghost struct KeyRefView {
    pub version: u32,
    pub wrapped: Seq<u8>,
    pub nonce: Seq<u8>,
    pub created_at: u128,
}

impl View for EncryptedDEKRef {
    type V = KeyRefView;

    open spec fn view(&self) -> KeyRefView {
        KeyRefView {
            version: self.version,
            wrapped: self.encrypted_dek@,
            nonce: self.nonce@,
            created_at: self.created_at,
        }
    }
}

/// One ledger record: an encrypted payload and the wrapped keys that open it.
#[derive(Debug, Clone)]
pub struct NodeData {
    pub identifier: u64,
    pub data: Vec<u8>,
    pub nonce: [u8; 12],
    pub dek_refs: Vec<EncryptedDEKRef>,
}

pub ghost struct RecordView {
    pub identifier: u64,
    pub data: Seq<u8>,
    pub nonce: Seq<u8>,
    pub key_refs: Seq<KeyRefView>,
}

impl View for NodeData {
    type V = RecordView;

    open spec fn view(&self) -> RecordView {
        RecordView {
            identifier: self.identifier,
            data: self.data@,
            nonce: self.nonce@,
            key_refs: self.dek_refs@.map_values(|k: EncryptedDEKRef| k@),
        }
    }
}

/// The bytes hashed wherever a record is hashed: the identifier in eight
/// little-endian bytes, then the ciphertext.
pub open spec fn canonical_bytes(r: RecordView) -> Seq<u8> {
    le_bytes(r.identifier as nat, 8) + r.data
}

/// The text "GnosisDB Genesis Block" in ASCII.
pub open spec fn genesis_payload() -> Seq<u8> {
    seq![
        71u8, 110, 111, 115, 105, 115, 68, 66, 32, 71, 101, 110, 101, 115, 105, 115, 32, 66,
        108, 111, 99, 107,
    ]
}

/// The record that a genesis block carries.
pub open spec fn genesis_record() -> RecordView {
    RecordView {
        identifier: 0,
        data: genesis_payload(),
        nonce: Seq::new(12, |i: int| 0u8),
        key_refs: seq![],
    }
}

/// The record sealed from `plain` with data key `dek` and nonce `nonce`,
/// the data key wrapped under `kek` with nonce `key_nonce`.
pub open spec fn sealed_record(
    identifier: u64,
    plain: Seq<u8>,
    kek: Seq<u8>,
    dek: Seq<u8>,
    nonce: Seq<u8>,
    key_nonce: Seq<u8>,
    created_at: u128,
) -> RecordView {
    RecordView {
        identifier,
        data: gcm_seal(dek, nonce, plain),
        nonce,
        key_refs: seq![
            KeyRefView {
                version: 1,
                wrapped: gcm_seal(kek, key_nonce, dek),
                nonce: key_nonce,
                created_at,
            },
        ],
    }
}

/// `r` opens to `plain` under master key `kek`: its latest wrapped key
/// unwraps under `kek` to a 32-byte data key that opens the payload to `plain`.
pub open spec fn opens_to(r: RecordView, kek: Seq<u8>, plain: Seq<u8>) -> bool {
    &&& r.key_refs.len() > 0
    &&& exists|dek: Seq<u8>|
        {
            &&& dek.len() == 32
            &&& #[trigger] gcm_seal(kek, r.key_refs.last().nonce, dek) == r.key_refs.last().wrapped
            &&& gcm_seal(dek, r.nonce, plain) == r.data
        }
}

/// A record sealed under a master key opens under that key to the plaintext
/// it was sealed from.
pub proof fn lemma_envelope_round_trip(
    identifier: u64,
    plain: Seq<u8>,
    kek: Seq<u8>,
    dek: Seq<u8>,
    nonce: Seq<u8>,
    key_nonce: Seq<u8>,
    created_at: u128,
)
    requires
        dek.len() == 32,
        plain.len() <= GCM_MAX_PLAIN,
    ensures
        opens_to(sealed_record(identifier, plain, kek, dek, nonce, key_nonce, created_at), kek, plain),
{
    let r = sealed_record(identifier, plain, kek, dek, nonce, key_nonce, created_at);
    assert(gcm_seal(kek, r.key_refs.last().nonce, dek) == r.key_refs.last().wrapped);
}

fn array12_copy(a: &[u8; 12]) -> (r: [u8; 12])
    ensures
        r@ == a@,
{
    *a
}

fn key_from_bytes(b: &Vec<u8>) -> (r: Option<[u8; 32]>)
    ensures
        r is Some <==> b@.len() == 32,
        r is Some ==> r->Some_0@ == b@,
{
    if b.len() != 32 {
        return None;
    }
    let mut k: [u8; 32] = [0u8; 32];
    let mut i: usize = 0;
    while i < 32
        invariant
            b@.len() == 32,
            i <= 32,
            forall|j: int| 0 <= j < i ==> k@[j] == b@[j],
        decreases 32 - i,
    {
        k[i] = b[i];
        i = i + 1;
    }
    assert(k@ =~= b@);
    Some(k)
}

impl NodeData {
    /// Seals `data` into a new record under master key `kek`, with a fresh
    /// data key and fresh nonces.
    pub fn new(identifier: u64, data: Vec<u8>, kek: &[u8; 32]) -> (r: Result<NodeData, CryptoError>)
        ensures
            r is Ok <==> data@.len() <= GCM_MAX_PLAIN,
            r is Err ==> r == Err::<NodeData, CryptoError>(CryptoError::PayloadTooLong),
            r is Ok ==> {
                let v = r->Ok_0@;
                &&& v.identifier == identifier
                &&& v.key_refs.len() == 1
                &&& v.key_refs[0].version == 1
                &&& v.data.len() == data@.len() + 16
                &&& opens_to(v, kek@, data@)
            },
    {
        let dek: [u8; 32] = rand::random::<[u8; 32]>();
        let nonce: [u8; 12] = rand::random::<[u8; 12]>();
        let key_nonce: [u8; 12] = rand::random::<[u8; 12]>();
        let created_at = now_millis();
        let r = Self::seal_with(identifier, &data, kek, &dek, &nonce, &key_nonce, created_at);
        proof {
            if data@.len() <= GCM_MAX_PLAIN {
                lemma_envelope_round_trip(
                    identifier,
                    data@,
                    kek@,
                    dek@,
                    nonce@,
                    key_nonce@,
                    created_at,
                );
            }
        }
        r
    }

    /// Seals `data` with the given data key and nonces: the deterministic
    /// part of `new`.
    pub fn seal_with(
        identifier: u64,
        data: &[u8],
        kek: &[u8; 32],
        dek: &[u8; 32],
        nonce: &[u8; 12],
        key_nonce: &[u8; 12],
        created_at: u128,
    ) -> (r: Result<NodeData, CryptoError>)
        ensures
            r is Ok <==> data@.len() <= GCM_MAX_PLAIN,
            r is Err ==> r == Err::<NodeData, CryptoError>(CryptoError::PayloadTooLong),
            r is Ok ==> r->Ok_0@ == sealed_record(
                identifier,
                data@,
                kek@,
                dek@,
                nonce@,
                key_nonce@,
                created_at,
            ),
            r is Ok ==> r->Ok_0@.data.len() == data@.len() + 16,
    {
        let ciphertext = match gcm_encrypt(dek, nonce, data) {
            Ok(c) => c,
            Err(_) => return Err(CryptoError::PayloadTooLong),
        };
        let wrapped = match gcm_encrypt(kek, key_nonce, dek.as_slice()) {
            Ok(w) => w,
            Err(_) => return Err(CryptoError::PayloadTooLong),
        };
        let key_ref = EncryptedDEKRef {
            version: 1,
            encrypted_dek: wrapped,
            nonce: array12_copy(key_nonce),
            created_at,
        };
        let mut dek_refs: Vec<EncryptedDEKRef> = Vec::new();
        dek_refs.push(key_ref);
        let r = NodeData { identifier, data: ciphertext, nonce: array12_copy(nonce), dek_refs };
        assert(r@.key_refs =~= sealed_record(
            identifier,
            data@,
            kek@,
            dek@,
            nonce@,
            key_nonce@,
            created_at,
        ).key_refs);
        Ok(r)
    }

    /// The fixed, non-secret record of a genesis block.
    pub fn empty() -> (r: NodeData)
        ensures
            r@ == genesis_record(),
    {
        let data: Vec<u8> = vec![
            71u8, 110, 111, 115, 105, 115, 68, 66, 32, 71, 101, 110, 101, 115, 105, 115, 32, 66,
            108, 111, 99, 107,
        ];
        let r = NodeData { identifier: 0, data, nonce: [0u8; 12], dek_refs: Vec::new() };
        assert(r@.data =~= genesis_payload());
        assert(r@.nonce =~= genesis_record().nonce);
        assert(r@.key_refs =~= genesis_record().key_refs);
        r
    }

    /// The canonical bytes of the record.
    pub fn as_bytes(&self) -> (r: Vec<u8>)
        ensures
            r@ == canonical_bytes(self@),
    {
        let mut bytes = u64_le_bytes(self.identifier);
        let mut i: usize = 0;
        while i < self.data.len()
            invariant
                i <= self.data@.len(),
                bytes@ == le_bytes(self.identifier as nat, 8) + self.data@.subrange(0, i as int),
            decreases self.data@.len() - i,
        {
            bytes.push(self.data[i]);
            i = i + 1;
            assert(bytes@ =~= le_bytes(self.identifier as nat, 8) + self.data@.subrange(
                0,
                i as int,
            ));
        }
        assert(self.data@.subrange(0, self.data@.len() as int) =~= self.data@);
        bytes
    }

    /// The SHA-512 digest of the canonical bytes, in hex.
    pub fn checksum(&self) -> (r: Vec<u8>)
        ensures
            r@ == hex_of(sha512_of(canonical_bytes(self@))),
            r@.len() == 128,
    {
        let digest = sha512(self.as_bytes().as_slice());
        to_hex(digest.as_slice())
    }

    /// Opens the payload: unwraps the latest data key under `kek`, then
    /// opens the ciphertext with it.
    pub fn decrypt_data(&self, kek: &[u8; 32]) -> (r: Result<Vec<u8>, CryptoError>)
        ensures
            self@.key_refs.len() == 0 ==> r == Err::<Vec<u8>, CryptoError>(
                CryptoError::MissingKey,
            ),
            r is Ok ==> opens_to(self@, kek@, r->Ok_0@),
            forall|p: Seq<u8>|
                p.len() <= GCM_MAX_PLAIN && #[trigger] opens_to(self@, kek@, p) ==> (r is Ok
                    && r->Ok_0@ == p),
    {
        let n = self.dek_refs.len();
        if n == 0 {
            return Err(CryptoError::MissingKey);
        }
        let key_ref = &self.dek_refs[n - 1];
        assert(key_ref@ == self@.key_refs.last());
        let dek_bytes = match gcm_decrypt(kek, &key_ref.nonce, key_ref.encrypted_dek.as_slice()) {
            Ok(d) => d,
            Err(_) => return Err(CryptoError::Authentication),
        };
        let dek = match key_from_bytes(&dek_bytes) {
            Some(k) => k,
            None => return Err(CryptoError::KeyLength),
        };
        match gcm_decrypt(&dek, &self.nonce, self.data.as_slice()) {
            Ok(p) => {
                assert(gcm_seal(kek@, self@.key_refs.last().nonce, dek@)
                    == self@.key_refs.last().wrapped);
                Ok(p)
            },
            Err(_) => Err(CryptoError::Authentication),
        }
    }
}

} // verus!
