//! The group envelope: content encrypted once under a random content key,
//! and that key wrapped for each recipient with ECDH-ES over X25519, the
//! Concat KDF and XChaCha20-Poly1305.
use vstd::prelude::*;
use vstd::string::StringSliceAdditionalSpecFns;
use vstd::utf8::encode_utf8;
use crate::kdf::{concat_kdf, concat_kdf_spec};
use crate::keys::{
    VerificationMethod, PrivateJwk, X25519_CURVE, x25519_key_of, x25519_secret_of,
    extract_x25519_key, convert_ed25519_to_x25519,
};
use crate::primitives::{
    b64url_of, b64url_decode_of, x25519_public_of, x25519_shared_of, aead_seal_of, aead_open_of,
    b64url_encode, b64url_decode, x25519_public, x25519_shared, aead_seal, aead_open, random_bytes,
};

verus! {

/// Key management algorithm of every recipient entry.
pub const ALG: &'static str = "ECDH-ES+XC20PKW";

/// The protected header, as JSON text, before base64url encoding.
pub const PROTECTED_HEADER_JSON: &'static str = "{\"enc\":\"XC20P\"}";

/// Key type of an ephemeral public key.
pub const OKP: &'static str = "OKP";

/// Length in bits of the key-encryption key.
pub const KEK_BITS: usize = 256;

/// Length of the authentication tag that follows every ciphertext.
pub const TAG_LEN: usize = 16;

#[derive(Debug, Clone)]
pub struct EphemeralPublicKey {
    pub kty: String,
    pub crv: String,
    pub x: String,
}

#[derive(Debug, Clone)]
pub struct RecipientHeader {
    pub alg: String,
    pub iv: String,
    pub tag: String,
    pub epk: EphemeralPublicKey,
    pub kid: String,
}

/// One recipient entry: the wrapped content key and how to unwrap it.
#[derive(Debug, Clone)]
pub struct RecipientInfo {
    pub encrypted_key: String,
    pub header: RecipientHeader,
}

/// A multi-recipient envelope; every binary field is unpadded base64url.
#[derive(Debug, Clone)]
pub struct JWE {
    pub protected_header: String,
    pub iv: String,
    pub ciphertext: String,
    pub tag: String,
    pub recipients: Vec<RecipientInfo>,
}

/// The random values one encryption uses: the content key and nonce, and
/// for each recipient (in input order) an ephemeral X25519 secret and a
/// key-wrap nonce.
#[derive(Debug, Clone)]
pub struct EncryptionRandomness {
    pub cek: Vec<u8>,
    pub iv: Vec<u8>,
    pub ephemeral_secrets: Vec<Vec<u8>>,
    pub recipient_ivs: Vec<Vec<u8>>,
}

/// Why an envelope could not be made.
#[derive(Debug, Clone, Copy, PartialEq, Eq, Structural)]
pub enum JweError {
    /// No recipient has a usable X25519 key.
    NoRecipients,
    /// The content cipher refused the content (it is too long).
    ContentCipher,
}

impl EncryptionRandomness {
    /// Sizes fit the ciphers, with one ephemeral secret and one nonce per recipient.
    pub open spec fn wf(&self, recipients: nat) -> bool {
        &&& self.cek@.len() == 32
        &&& self.iv@.len() == 24
        &&& self.ephemeral_secrets@.len() == recipients
        &&& self.recipient_ivs@.len() == recipients
        &&& forall|i: int|
            0 <= i < recipients ==> (#[trigger] self.ephemeral_secrets@[i])@.len() == 32
        &&& forall|i: int| 0 <= i < recipients ==> (#[trigger] self.recipient_ivs@[i])@.len() == 24
    }
}

/// `text` is the base64url text of `bytes`, and decodes back to them.
pub open spec fn b64_holds(text: Seq<char>, bytes: Seq<u8>) -> bool {
    text == b64url_of(bytes) && b64url_decode_of(text) == Some(bytes)
}

/// The key-encryption key of an exchange between `secret` and `public`.
pub open spec fn kek_spec(secret: Seq<u8>, public: Seq<u8>) -> Seq<u8> {
    concat_kdf_spec(x25519_shared_of(secret, public), KEK_BITS as nat, ALG.spec_bytes(), None)
}

/// The wrapped content key of a recipient entry, its tag included.
pub open spec fn wrapped_key_spec(
    recipient_key: Seq<u8>,
    ephemeral: Seq<u8>,
    iv: Seq<u8>,
    cek: Seq<u8>,
) -> Seq<u8> {
    aead_seal_of(kek_spec(ephemeral, recipient_key), iv, Seq::empty(), cek)
}

/// `info` wraps `cek` for the holder of `recipient_key`, with ephemeral
/// secret `ephemeral` and nonce `iv`, under key id `kid`.
pub open spec fn wrapped_entry(
    info: RecipientInfo,
    kid: Seq<char>,
    recipient_key: Seq<u8>,
    ephemeral: Seq<u8>,
    iv: Seq<u8>,
    cek: Seq<u8>,
) -> bool {
    let kek = kek_spec(ephemeral, recipient_key);
    let sealed = wrapped_key_spec(recipient_key, ephemeral, iv, cek);
    let n = sealed.len() - TAG_LEN;
    &&& sealed.len() == cek.len() + TAG_LEN
    &&& aead_open_of(kek, iv, Seq::empty(), sealed) == Some(cek)
    &&& b64_holds(info.encrypted_key@, sealed.subrange(0, n))
    &&& b64_holds(info.header.tag@, sealed.subrange(n, sealed.len() as int))
    &&& b64_holds(info.header.iv@, iv)
    &&& b64_holds(info.header.epk.x@, x25519_public_of(ephemeral))
    &&& x25519_public_of(ephemeral).len() == 32
    &&& info.header.alg@ == ALG@
    &&& info.header.epk.kty@ == OKP@
    &&& info.header.epk.crv@ == X25519_CURVE@
    &&& info.header.kid@ == kid
    &&& forall|b: Seq<u8>|
        b.len() == 32 && recipient_key == #[trigger] x25519_public_of(b) ==> x25519_shared_of(
            ephemeral,
            recipient_key,
        ) == x25519_shared_of(b, x25519_public_of(ephemeral))
}

/// Indices, in order, of the first `n` recipients that have a usable key.
pub open spec fn keyed_indices(recipients: Seq<VerificationMethod>, n: nat) -> Seq<int>
    decreases n,
{
    if n == 0 {
        Seq::empty()
    } else {
        let before = keyed_indices(recipients, (n - 1) as nat);
        if x25519_key_of(recipients[n - 1]) is Some {
            before.push(n - 1)
        } else {
            before
        }
    }
}

/// `entries` holds one wrapped entry for each of the first `n` recipients
/// that has a usable key, in input order.
pub open spec fn entries_for(
    entries: Seq<RecipientInfo>,
    recipients: Seq<VerificationMethod>,
    n: nat,
    rnd: EncryptionRandomness,
) -> bool {
    let idx = keyed_indices(recipients, n);
    &&& entries.len() == idx.len()
    &&& forall|j: int|
        0 <= j < entries.len() ==> wrapped_entry(
            #[trigger] entries[j],
            recipients[idx[j]].id@,
            x25519_key_of(recipients[idx[j]])->Some_0,
            rnd.ephemeral_secrets@[idx[j]]@,
            rnd.recipient_ivs@[idx[j]]@,
            rnd.cek@,
        )
}

/// The associated data of the content cipher: the protected header's text.
pub open spec fn aad_of(jwe: JWE) -> Seq<u8> {
    encode_utf8(jwe.protected_header@)
}

/// `jwe` is the encryption of `content` to `recipients` with `rnd`.
pub open spec fn sealed_envelope(
    jwe: JWE,
    content: Seq<u8>,
    recipients: Seq<VerificationMethod>,
    rnd: EncryptionRandomness,
) -> bool {
    let sealed = aead_seal_of(rnd.cek@, rnd.iv@, aad_of(jwe), content);
    let n = sealed.len() - TAG_LEN;
    &&& jwe.protected_header@ == b64url_of(PROTECTED_HEADER_JSON.spec_bytes())
    &&& sealed.len() == content.len() + TAG_LEN
    &&& aead_open_of(rnd.cek@, rnd.iv@, aad_of(jwe), sealed) == Some(content)
    &&& b64_holds(jwe.iv@, rnd.iv@)
    &&& b64_holds(jwe.ciphertext@, sealed.subrange(0, n))
    &&& b64_holds(jwe.tag@, sealed.subrange(n, sealed.len() as int))
    &&& entries_for(jwe.recipients@, recipients, recipients.len(), rnd)
    &&& jwe.recipients@.len() > 0
}

/// The content of `jwe`, opened with content key `cek`, if it authenticates.
pub open spec fn open_content_spec(jwe: JWE, cek: Seq<u8>) -> Option<Seq<u8>> {
    match (
        b64url_decode_of(jwe.iv@),
        b64url_decode_of(jwe.tag@),
        b64url_decode_of(jwe.ciphertext@),
    ) {
        (Some(iv), Some(tag), Some(ct)) => if iv.len() == 24 {
            aead_open_of(cek, iv, aad_of(jwe), ct + tag)
        } else {
            None
        },
        _ => None,
    }
}

/// The content of `jwe` as the holder of X25519 secret `secret` opens it
/// through entry `info`, if every step succeeds.
pub open spec fn open_entry_spec(jwe: JWE, secret: Seq<u8>, info: RecipientInfo) -> Option<Seq<u8>> {
    match (
        b64url_decode_of(info.header.epk.x@),
        b64url_decode_of(info.header.iv@),
        b64url_decode_of(info.header.tag@),
        b64url_decode_of(info.encrypted_key@),
    ) {
        (Some(epk), Some(iv), Some(tag), Some(ek)) => if epk.len() == 32 && iv.len() == 24 {
            match aead_open_of(kek_spec(secret, epk), iv, Seq::empty(), ek + tag) {
                Some(cek) => open_content_spec(jwe, cek),
                None => None,
            }
        } else {
            None
        },
        _ => None,
    }
}

/// The first success among entries `j..` for one secret.
pub open spec fn open_with_secret(jwe: JWE, secret: Seq<u8>, j: nat) -> Option<Seq<u8>>
    decreases jwe.recipients@.len() - j,
{
    if j >= jwe.recipients@.len() {
        None
    } else {
        match open_entry_spec(jwe, secret, jwe.recipients@[j as int]) {
            Some(m) => Some(m),
            None => open_with_secret(jwe, secret, j + 1),
        }
    }
}

/// The first success over candidate keys `i..`, each tried against every
/// entry in order.
pub open spec fn open_with_keys(jwe: JWE, keys: Seq<PrivateJwk>, i: nat) -> Option<Seq<u8>>
    decreases keys.len() - i,
{
    if i >= keys.len() {
        None
    } else {
        match x25519_secret_of(keys[i as int]) {
            Some(s) => match open_with_secret(jwe, s, 0) {
                Some(m) => Some(m),
                None => open_with_keys(jwe, keys, i + 1),
            },
            None => open_with_keys(jwe, keys, i + 1),
        }
    }
}

/// Wraps `cek` for one recipient (the key wrapper): X25519 agreement
/// between the ephemeral secret and the recipient's key, the Concat KDF,
/// then XChaCha20-Poly1305 with no associated data.
fn wrap_cek(
    kid: &String,
    recipient_key: &[u8],
    ephemeral: &[u8],
    iv: &[u8],
    cek: &[u8],
) -> (r: Option<RecipientInfo>)
    requires
        recipient_key@.len() == 32,
        ephemeral@.len() == 32,
        iv@.len() == 24,
        cek@.len() == 32,
    ensures
        r matches Some(info) && wrapped_entry(info, kid@, recipient_key@, ephemeral@, iv@, cek@),
{
    let ephemeral_public = x25519_public(ephemeral);
    let shared = x25519_shared(ephemeral, recipient_key);
    let kek = concat_kdf(shared.as_slice(), KEK_BITS, ALG, None);
    let no_aad: Vec<u8> = Vec::new();
    let mut sealed = match aead_seal(kek.as_slice(), iv, no_aad.as_slice(), cek) {
        Some(s) => s,
        None => return None,
    };
    let ghost whole = sealed@;
    let tag = sealed.split_off(sealed.len() - TAG_LEN);
    assert(no_aad@ =~= Seq::<u8>::empty());
    assert(whole.subrange(0, whole.len() - TAG_LEN) == sealed@);
    Some(
        RecipientInfo {
            encrypted_key: b64url_encode(sealed.as_slice()),
            header: RecipientHeader {
                alg: ALG.to_owned(),
                iv: b64url_encode(iv),
                tag: b64url_encode(tag.as_slice()),
                epk: EphemeralPublicKey {
                    kty: OKP.to_owned(),
                    crv: X25519_CURVE.to_owned(),
                    x: b64url_encode(ephemeral_public.as_slice()),
                },
                kid: kid.clone(),
            },
        },
    )
}

impl JWE {
    /// Encrypts `content` to every recipient with a usable key, using the
    /// given random values. Recipients without one are left out; if none is
    /// left, encryption fails.
    pub fn encrypt_with(
        content: &[u8],
        recipients: &[VerificationMethod],
        randomness: &EncryptionRandomness,
    ) -> (r: Result<JWE, JweError>)
        requires
            randomness.wf(recipients@.len()),
        ensures
            r matches Err(JweError::NoRecipients) <==> forall|i: int|
                0 <= i < recipients@.len() ==> x25519_key_of(#[trigger] recipients@[i]) is None,
            r matches Err(JweError::ContentCipher) ==> content@.len() > u32::MAX,
            r matches Ok(jwe) ==> sealed_envelope(jwe, content@, recipients@, *randomness),
    {
        let mut entries: Vec<RecipientInfo> = Vec::new();
        let mut i: usize = 0;
        while i < recipients.len()
            invariant
                i <= recipients@.len(),
                randomness.wf(recipients@.len()),
                entries_for(entries@, recipients@, i as nat, *randomness),
            decreases recipients@.len() - i,
        {
            let ghost old_entries = entries@;
            match extract_x25519_key(&recipients[i]) {
                Some(pk) => {
                    let info = wrap_cek(
                        &recipients[i].id,
                        pk.as_slice(),
                        randomness.ephemeral_secrets[i].as_slice(),
                        randomness.recipient_ivs[i].as_slice(),
                        randomness.cek.as_slice(),
                    );
                    if let Some(info) = info {
                        entries.push(info);
                    }
                },
                None => {},
            }
            proof {
                let idx = keyed_indices(recipients@, (i + 1) as nat);
                let before = keyed_indices(recipients@, i as nat);
                assert(idx.len() == entries@.len());
                assert forall|j: int| 0 <= j < entries@.len() implies wrapped_entry(
                    #[trigger] entries@[j],
                    recipients@[idx[j]].id@,
                    x25519_key_of(recipients@[idx[j]])->Some_0,
                    randomness.ephemeral_secrets@[idx[j]]@,
                    randomness.recipient_ivs@[idx[j]]@,
                    randomness.cek@,
                ) by {
                    if j < old_entries.len() {
                        assert(idx[j] == before[j]);
                        assert(entries@[j] == old_entries[j]);
                    }
                }
            }
            i = i + 1;
        }
        assert(recipients@.len() == i);
        proof {
            lemma_no_keyed(recipients@, recipients@.len());
        }
        if entries.len() == 0 {
            return Err(JweError::NoRecipients);
        }
        let protected = b64url_encode(PROTECTED_HEADER_JSON.as_bytes());
        let mut sealed = match aead_seal(
            randomness.cek.as_slice(),
            randomness.iv.as_slice(),
            protected.as_str().as_bytes(),
            content,
        ) {
            Some(s) => s,
            None => return Err(JweError::ContentCipher),
        };
        let ghost whole = sealed@;
        let tag = sealed.split_off(sealed.len() - TAG_LEN);
        assert(whole.subrange(0, whole.len() - TAG_LEN) == sealed@);
        Ok(
            JWE {
                protected_header: protected,
                iv: b64url_encode(randomness.iv.as_slice()),
                ciphertext: b64url_encode(sealed.as_slice()),
                tag: b64url_encode(tag.as_slice()),
                recipients: entries,
            },
        )
    }
}

fn draw_randomness(recipients: usize) -> (r: EncryptionRandomness)
    ensures
        r.wf(recipients as nat),
{
    let cek = random_bytes(32);
    let iv = random_bytes(24);
    let mut ephemeral_secrets: Vec<Vec<u8>> = Vec::new();
    let mut recipient_ivs: Vec<Vec<u8>> = Vec::new();
    let mut i: usize = 0;
    while i < recipients
        invariant
            i <= recipients,
            ephemeral_secrets@.len() == i,
            recipient_ivs@.len() == i,
            forall|k: int| 0 <= k < i ==> (#[trigger] ephemeral_secrets@[k])@.len() == 32,
            forall|k: int| 0 <= k < i ==> (#[trigger] recipient_ivs@[k])@.len() == 24,
        decreases recipients - i,
    {
        ephemeral_secrets.push(random_bytes(32));
        recipient_ivs.push(random_bytes(24));
        i = i + 1;
    }
    EncryptionRandomness { cek, iv, ephemeral_secrets, recipient_ivs }
}

impl JWE {
    /// Encrypts `content` to the recipients with fresh random values: a new
    /// content key and nonce, and a new ephemeral key and nonce per recipient.
    pub fn encrypt(content: &[u8], recipients: &[VerificationMethod]) -> (r: Result<JWE, JweError>)
        ensures
            r matches Err(JweError::NoRecipients) <==> forall|i: int|
                0 <= i < recipients@.len() ==> x25519_key_of(#[trigger] recipients@[i]) is None,
            r matches Err(JweError::ContentCipher) ==> content@.len() > u32::MAX,
            r matches Ok(jwe) ==> exists|rnd: EncryptionRandomness|
                rnd.wf(recipients@.len()) && sealed_envelope(jwe, content@, recipients@, rnd),
    {
        let randomness = draw_randomness(recipients.len());
        JWE::encrypt_with(content, recipients, &randomness)
    }

    /// Opens the content with content key `cek`.
    fn open_content(&self, cek: &[u8]) -> (r: Option<Vec<u8>>)
        ensures
            match r {
                Some(m) => open_content_spec(*self, cek@) == Some(m@),
                None => open_content_spec(*self, cek@) is None,
            },
    {
        let iv = match b64url_decode(self.iv.as_str()) {
            Some(v) => v,
            None => return None,
        };
        let tag = match b64url_decode(self.tag.as_str()) {
            Some(v) => v,
            None => return None,
        };
        let mut sealed = match b64url_decode(self.ciphertext.as_str()) {
            Some(v) => v,
            None => return None,
        };
        if iv.len() != 24 {
            return None;
        }
        let ghost ct = sealed@;
        sealed.extend_from_slice(tag.as_slice());
        let aad = self.protected_header.as_str().as_bytes();
        assert(aad@ == aad_of(*self));
        assert(sealed@ == ct + tag@);
        aead_open(cek, iv.as_slice(), aad, sealed.as_slice())
    }

    /// Opens the content through one recipient entry with an X25519 secret.
    fn open_entry(&self, secret: &[u8], info: &RecipientInfo) -> (r: Option<Vec<u8>>)
        requires
            secret@.len() == 32,
        ensures
            match r {
                Some(m) => open_entry_spec(*self, secret@, *info) == Some(m@),
                None => open_entry_spec(*self, secret@, *info) is None,
            },
    {
        let epk = match b64url_decode(info.header.epk.x.as_str()) {
            Some(v) => v,
            None => return None,
        };
        let iv = match b64url_decode(info.header.iv.as_str()) {
            Some(v) => v,
            None => return None,
        };
        let tag = match b64url_decode(info.header.tag.as_str()) {
            Some(v) => v,
            None => return None,
        };
        let mut wrapped = match b64url_decode(info.encrypted_key.as_str()) {
            Some(v) => v,
            None => return None,
        };
        if epk.len() != 32 || iv.len() != 24 {
            return None;
        }
        let shared = x25519_shared(secret, epk.as_slice());
        let kek = concat_kdf(shared.as_slice(), KEK_BITS, ALG, None);
        assert(kek@ == kek_spec(secret@, epk@));
        let ghost ek = wrapped@;
        wrapped.extend_from_slice(tag.as_slice());
        assert(wrapped@ == ek + tag@);
        let no_aad: Vec<u8> = Vec::new();
        assert(no_aad@ =~= Seq::<u8>::empty());
        let cek = match aead_open(kek.as_slice(), iv.as_slice(), no_aad.as_slice(), wrapped.as_slice()) {
            Some(k) => k,
            None => return None,
        };
        self.open_content(cek.as_slice())
    }

    /// Tries each candidate key against each recipient entry, in order, and
    /// returns the first content that authenticates. Which step failed for
    /// the other pairs is not reported.
    pub fn decrypt(&self, jwks: &[PrivateJwk]) -> (r: Option<Vec<u8>>)
        ensures
            match r {
                Some(m) => open_with_keys(*self, jwks@, 0) == Some(m@),
                None => open_with_keys(*self, jwks@, 0) is None,
            },
    {
        let mut i: usize = 0;
        while i < jwks.len()
            invariant
                i <= jwks@.len(),
                open_with_keys(*self, jwks@, 0) == open_with_keys(*self, jwks@, i as nat),
            decreases jwks@.len() - i,
        {
            match convert_ed25519_to_x25519(&jwks[i]) {
                Some(secret) => {
                    let mut j: usize = 0;
                    while j < self.recipients.len()
                        invariant
                            i < jwks@.len(),
                            j <= self.recipients@.len(),
                            secret@.len() == 32,
                            x25519_secret_of(jwks@[i as int]) == Some(secret@),
                            open_with_keys(*self, jwks@, 0) == open_with_keys(*self, jwks@, i as nat),
                            open_with_secret(*self, secret@, 0) == open_with_secret(
                                *self,
                                secret@,
                                j as nat,
                            ),
                        decreases self.recipients@.len() - j,
                    {
                        if let Some(m) = self.open_entry(secret.as_slice(), &self.recipients[j]) {
                            return Some(m);
                        }
                        j = j + 1;
                    }
                },
                None => {},
            }
            i = i + 1;
        }
        None
    }
}

proof fn lemma_no_keyed(recipients: Seq<VerificationMethod>, n: nat)
    requires
        n <= recipients.len(),
    ensures
        keyed_indices(recipients, n).len() == 0 <==> forall|i: int|
            0 <= i < n ==> x25519_key_of(#[trigger] recipients[i]) is None,
    decreases n,
{
    if n > 0 {
        lemma_no_keyed(recipients, (n - 1) as nat);
        assert(keyed_indices(recipients, n).len() >= keyed_indices(recipients, (n - 1) as nat).len());
    }
}

proof fn lemma_keyed_index_present(recipients: Seq<VerificationMethod>, n: nat, i: int)
    requires
        0 <= i < n <= recipients.len(),
        x25519_key_of(recipients[i]) is Some,
    ensures
        exists|j: int|
            0 <= j < keyed_indices(recipients, n).len() && #[trigger] keyed_indices(
                recipients,
                n,
            )[j] == i,
    decreases n,
{
    let idx = keyed_indices(recipients, n);
    let before = keyed_indices(recipients, (n - 1) as nat);
    if i == n - 1 {
        assert(idx[before.len() as int] == i);
    } else {
        lemma_keyed_index_present(recipients, (n - 1) as nat, i);
        let j = choose|j: int| 0 <= j < before.len() && #[trigger] before[j] == i;
        assert(idx[j] == i);
    }
}

proof fn lemma_first_success(jwe: JWE, secret: Seq<u8>, k: nat, j: nat)
    requires
        k <= j < jwe.recipients@.len(),
        open_entry_spec(jwe, secret, jwe.recipients@[j as int]) is Some,
    ensures
        open_with_secret(jwe, secret, k) is Some,
    decreases j - k,
{
    if k < j {
        lemma_first_success(jwe, secret, k + 1, j);
    }
}

proof fn lemma_entry_opens(
    jwe: JWE,
    content: Seq<u8>,
    recipients: Seq<VerificationMethod>,
    rnd: EncryptionRandomness,
    j: int,
    secret: Seq<u8>,
)
    requires
        rnd.wf(recipients.len()),
        sealed_envelope(jwe, content, recipients, rnd),
        0 <= j < jwe.recipients@.len(),
        0 <= keyed_indices(recipients, recipients.len())[j] < recipients.len(),
        secret.len() == 32,
        x25519_key_of(recipients[keyed_indices(recipients, recipients.len())[j]]) == Some(
            x25519_public_of(secret),
        ),
    ensures
        open_entry_spec(jwe, secret, jwe.recipients@[j]) == Some(content),
{
    let i = keyed_indices(recipients, recipients.len())[j];
    let info = jwe.recipients@[j];
    let pk = x25519_public_of(secret);
    let eph = rnd.ephemeral_secrets@[i]@;
    let iv = rnd.recipient_ivs@[i]@;
    let cek = rnd.cek@;
    assert(wrapped_entry(info, recipients[i].id@, pk, eph, iv, cek));
    let sealed = wrapped_key_spec(pk, eph, iv, cek);
    let n = sealed.len() - TAG_LEN;
    assert(sealed.subrange(0, n) + sealed.subrange(n, sealed.len() as int) =~= sealed);
    assert(x25519_shared_of(eph, pk) == x25519_shared_of(secret, x25519_public_of(eph)));
    assert(kek_spec(secret, x25519_public_of(eph)) == kek_spec(eph, pk));
    let csealed = aead_seal_of(cek, rnd.iv@, aad_of(jwe), content);
    let cn = csealed.len() - TAG_LEN;
    assert(csealed.subrange(0, cn) + csealed.subrange(cn, csealed.len() as int) =~= csealed);
    assert(open_content_spec(jwe, cek) == Some(content));
}

/// A recipient can open what was encrypted to it. Let `key` be a candidate
/// key whose X25519 secret belongs to the public key of recipient `i`: the
/// recipient's own entry opens to the content, so decrypting with `key`
/// succeeds; when the envelope has a single entry, what it yields is the
/// content.
pub proof fn lemma_recipient_can_decrypt(
    jwe: JWE,
    content: Seq<u8>,
    recipients: Seq<VerificationMethod>,
    rnd: EncryptionRandomness,
    i: int,
    key: PrivateJwk,
    secret: Seq<u8>,
)
    requires
        rnd.wf(recipients.len()),
        sealed_envelope(jwe, content, recipients, rnd),
        0 <= i < recipients.len(),
        x25519_secret_of(key) == Some(secret),
        secret.len() == 32,
        x25519_key_of(recipients[i]) == Some(x25519_public_of(secret)),
    ensures
        exists|j: int|
            0 <= j < jwe.recipients@.len() && open_entry_spec(
                jwe,
                secret,
                #[trigger] jwe.recipients@[j],
            ) == Some(content),
        open_with_keys(jwe, seq![key], 0) is Some,
        jwe.recipients@.len() == 1 ==> open_with_keys(jwe, seq![key], 0) == Some(content),
{
    lemma_keyed_index_present(recipients, recipients.len(), i);
    let idx = keyed_indices(recipients, recipients.len());
    let j = choose|j: int| 0 <= j < idx.len() && #[trigger] idx[j] == i;
    lemma_entry_opens(jwe, content, recipients, rnd, j, secret);
    lemma_first_success(jwe, secret, 0, j as nat);
    assert(seq![key][0] == key);
    assert(open_with_keys(jwe, seq![key], 1) is None);
    if jwe.recipients@.len() == 1 {
        assert(j == 0);
        assert(open_with_secret(jwe, secret, 0) == Some(content));
    }
}

} // verus!
