//! Private bookmarks: a `private` tag hides a bookmark's URL, title and
//! description in search results until the session is unlocked, and blocks
//! opening it.  Field values can be kept encrypted with a password (PBKDF2
//! key, AES-256-GCM, base64 text).
use vstd::prelude::*;
use std::collections::HashMap;
use vstd::utf8::{decode_utf8, encode_utf8, valid_utf8};
use crate::bookmark::{Bookmark, HookResult, PluginInfo};
use crate::plugin_config::{lookup, on_unless_false, PluginConfig};
use crate::strutil::{owned, str_eq};
use crate::tags::{has_tag, tag_pieces};

verus! {

broadcast use {
    vstd::std_specs::hash::group_hash_axioms,
    vstd::utf8::encode_utf8_decode_utf8,
    vstd::utf8::encode_utf8_valid_utf8,
};

/// PBKDF2 iterations used for every key.
pub const KEY_ITERATIONS: u32 = 100_000;
/// Length of a derived key in bytes.
pub const CREDENTIAL_LEN: usize = 32;
/// Length of a random salt in bytes.
pub const SALT_LEN: usize = 16;
/// Length of an AES-GCM nonce in bytes.
pub const NONCE_LEN: usize = 12;
/// The longest input AES-256-GCM seals (`ring`'s limit for one nonce).
pub const MAX_SEAL_LEN: u64 = 68_719_476_704;

// ---------------------------------------------------------------------------
// Trusted calls into `ring`, `base64` and std
// ---------------------------------------------------------------------------

/// The key PBKDF2-HMAC-SHA256 derives (`ring::pbkdf2::derive`).
pub uninterp spec fn pbkdf2_sha256_key(iterations: u32, salt: Seq<u8>, secret: Seq<u8>, len: usize) -> Seq<u8>;

/// The standard base64 text of some bytes (`base64::engine::general_purpose::STANDARD`).
pub uninterp spec fn base64_standard(bytes: Seq<u8>) -> Seq<char>;

/// What standard base64 decoding gives for a text.
pub uninterp spec fn base64_decoded(text: Seq<char>) -> Option<Seq<u8>>;

/// AES-256-GCM ciphertext with its tag appended, for a key, nonce and input
/// (`ring::aead::LessSafeKey::seal_in_place_append_tag`, no associated data).
pub uninterp spec fn aes256gcm_sealed(key: Seq<u8>, nonce: Seq<u8>, plain: Seq<u8>) -> Seq<u8>;

/// What AES-256-GCM opening gives (`ring::aead::LessSafeKey::open_in_place`,
/// no associated data): the input, or `None` when the tag does not check.
pub uninterp spec fn aes256gcm_opened(key: Seq<u8>, nonce: Seq<u8>, sealed: Seq<u8>) -> Option<Seq<u8>>;

pub open spec fn opt_bytes(o: Option<Vec<u8>>) -> Option<Seq<u8>> {
    match o {
        Some(v) => Some(v@),
        None => None,
    }
}

/// `ring::pbkdf2::derive` with HMAC-SHA256 into `len` bytes.  The key is a
/// function of the inputs, `len` bytes long.  (`derive` panics for an
/// output longer than `u32::MAX` digests, which `len` rules out.)
#[verifier::external_body]
fn pbkdf2_sha256(iterations: u32, salt: &[u8], secret: &[u8], len: usize) -> (key: Vec<u8>)
    requires
        iterations > 0,
        len <= 32,
    ensures
        key@ == pbkdf2_sha256_key(iterations, salt@, secret@, len),
        key@.len() == len,
{
    let mut key = vec![0u8; len];
    let n = std::num::NonZeroU32::new(iterations).unwrap();
    ring::pbkdf2::derive(ring::pbkdf2::PBKDF2_HMAC_SHA256, n, salt, secret, &mut key);
    key
}

/// `n` bytes from the system random source (`ring::rand::SystemRandom`),
/// or `None` when it fails.  Nothing is promised of the bytes.
#[verifier::external_body]
fn random_bytes(n: usize) -> (r: Option<Vec<u8>>)
    ensures
        r matches Some(v) ==> v@.len() == n,
{
    let mut v = vec![0u8; n];
    match ring::rand::SecureRandom::fill(&ring::rand::SystemRandom::new(), &mut v) {
        Ok(()) => Some(v),
        Err(_) => None,
    }
}

/// Standard base64 encoding (`Engine::encode`).
#[verifier::external_body]
fn b64_encode(bytes: &[u8]) -> (s: String)
    ensures
        s@ == base64_standard(bytes@),
{
    base64::Engine::encode(&base64::engine::general_purpose::STANDARD, bytes)
}

/// Standard base64 decoding (`Engine::decode`), `None` for invalid text.
/// Decoding the encoding of some bytes gives those bytes.
#[verifier::external_body]
fn b64_decode(text: &str) -> (r: Option<Vec<u8>>)
    ensures
        opt_bytes(r) == base64_decoded(text@),
        forall|b: Seq<u8>| #[trigger] base64_standard(b) == text@ ==> opt_bytes(r) == Some(b),
{
    base64::Engine::decode(&base64::engine::general_purpose::STANDARD, text).ok()
}

/// Seals `plain` with AES-256-GCM under `key` and `nonce`, without
/// associated data; `None` exactly where `ring` refuses, an input over its
/// length limit (the key and nonce lengths are the ones it takes).
#[verifier::external_body]
fn aes256gcm_seal(key: &[u8], nonce: &[u8], plain: &[u8]) -> (r: Option<Vec<u8>>)
    requires
        key@.len() == 32,
        nonce@.len() == 12,
    ensures
        r matches Some(c) ==> c@ == aes256gcm_sealed(key@, nonce@, plain@),
        r is Some <==> plain@.len() <= MAX_SEAL_LEN,
{
    let k = ring::aead::UnboundKey::new(&ring::aead::AES_256_GCM, key).ok()?;
    let n = ring::aead::Nonce::try_assume_unique_for_key(nonce).ok()?;
    let mut v = plain.to_vec();
    let sealing = ring::aead::LessSafeKey::new(k);
    sealing.seal_in_place_append_tag(n, ring::aead::Aad::empty(), &mut v).ok()?;
    Some(v)
}

/// Opens AES-256-GCM `sealed` under `key` and `nonce`, without associated
/// data.  Opening what sealing made of an input within the limit gives that
/// input back.
#[verifier::external_body]
fn aes256gcm_open(key: &[u8], nonce: &[u8], sealed: &[u8]) -> (r: Option<Vec<u8>>)
    requires
        key@.len() == 32,
        nonce@.len() == 12,
    ensures
        opt_bytes(r) == aes256gcm_opened(key@, nonce@, sealed@),
        forall|p: Seq<u8>|
            p.len() <= MAX_SEAL_LEN && #[trigger] aes256gcm_sealed(key@, nonce@, p) == sealed@
                ==> opt_bytes(r) == Some(p),
{
    let k = ring::aead::UnboundKey::new(&ring::aead::AES_256_GCM, key).ok()?;
    let n = ring::aead::Nonce::try_assume_unique_for_key(nonce).ok()?;
    let mut v = sealed.to_vec();
    let opening = ring::aead::LessSafeKey::new(k);
    let plain = opening.open_in_place(n, ring::aead::Aad::empty(), &mut v).ok()?;
    Some(plain.to_vec())
}

/// `String::from_utf8`: the text when the bytes are valid UTF-8.
#[verifier::external_body]
fn utf8_text(bytes: Vec<u8>) -> (r: Option<String>)
    ensures
        r is Some <==> valid_utf8(bytes@),
        r matches Some(s) ==> s@ == decode_utf8(bytes@),
{
    String::from_utf8(bytes).ok()
}

// ---------------------------------------------------------------------------
// Keys, encryption and decryption
// ---------------------------------------------------------------------------

/// The nonce every field is sealed with.
pub open spec fn zero_nonce() -> Seq<u8> {
    Seq::new(12, |i: int| 0u8)
}

/// The key a password and salt give.
pub open spec fn password_key(password: Seq<char>, salt: Seq<u8>) -> Seq<u8> {
    pbkdf2_sha256_key(KEY_ITERATIONS, salt, encode_utf8(password), CREDENTIAL_LEN)
}

/// The ciphertext text of `plain` under `password` and `salt`.
pub open spec fn sealed_text(plain: Seq<char>, password: Seq<char>, salt: Seq<u8>) -> Seq<char> {
    base64_standard(aes256gcm_sealed(password_key(password, salt), zero_nonce(), encode_utf8(plain)))
}

/// What decrypting gives, or the error message.
pub open spec fn decrypt_result(c: Seq<char>, s: Seq<char>, n: Seq<char>, password: Seq<char>) -> Result<
    Seq<char>,
    Seq<char>,
> {
    match base64_decoded(c) {
        None => Err("Invalid ciphertext"@),
        Some(cb) => match base64_decoded(s) {
            None => Err("Invalid salt"@),
            Some(sb) => match base64_decoded(n) {
                None => Err("Invalid nonce"@),
                Some(nb) => if nb.len() != 12 {
                    Err("Invalid nonce"@)
                } else {
                    match aes256gcm_opened(password_key(password, sb), zero_nonce(), cb) {
                        None => Err("Decryption failed - wrong password?"@),
                        Some(pb) => if valid_utf8(pb) {
                            Ok(decode_utf8(pb))
                        } else {
                            Err("Invalid UTF-8 in decrypted data"@)
                        },
                    }
                },
            },
        },
    }
}

pub open spec fn result_text(r: Result<String, String>) -> Result<Seq<char>, Seq<char>> {
    match r {
        Ok(t) => Ok(t@),
        Err(m) => Err(m@),
    }
}

fn zero_nonce_exec() -> (v: Vec<u8>)
    ensures
        v@ == zero_nonce(),
{
    let v = vec![0u8; 12];
    assert(v@ =~= zero_nonce());
    v
}

/// An encrypted bookmark: its id and each field's ciphertext, with the
/// salt and nonce, all as base64 text.
pub struct EncryptedBookmark {
    pub id: usize,
    pub encrypted_url: String,
    pub encrypted_title: String,
    pub encrypted_description: String,
    pub salt: String,
    pub nonce: String,
}

/// What the plugin keeps: encrypted bookmarks by id, and the password's
/// hash and salt once a password is set.
pub struct PrivateData {
    pub encrypted: HashMap<usize, EncryptedBookmark>,
    pub password_hash: Option<String>,
    pub password_salt: Option<String>,
}

/// A field as shown once unlocked: its decryption, or the field as it was
/// where decryption fails.
pub open spec fn shown_field(old_text: Seq<char>, ct: String, e: EncryptedBookmark, pw: String) -> Seq<char> {
    match decrypt_result(ct@, e.salt@, e.nonce@, pw@) {
        Ok(t) => t,
        Err(_) => old_text,
    }
}

/// A search result as the plugin shows it.
pub open spec fn shown_result(p: PrivateBookmarksPlugin, before: Bookmark, after: Bookmark) -> bool {
    &&& after.id == before.id
    &&& after.tags@ == before.tags@
    &&& if p.enabled && tag_pieces(before.tags@).contains(p.private_tag@) {
        if !p.unlocked {
            &&& after.url@ == p.hidden_url_placeholder@
            &&& after.title@ == p.hidden_title_placeholder@
            &&& after.description@ == Seq::<char>::empty()
        } else if p.data.encrypted@.contains_key(before.id) && p.session_password is Some {
            let e = p.data.encrypted@[before.id];
            let pw = p.session_password.unwrap();
            &&& after.url@ == shown_field(before.url@, e.encrypted_url, e, pw)
            &&& after.title@ == shown_field(before.title@, e.encrypted_title, e, pw)
            &&& after.description@ == shown_field(before.description@, e.encrypted_description, e, pw)
        } else {
            &&& after.url@ == before.url@
            &&& after.title@ == before.title@
            &&& after.description@ == before.description@
        }
    } else {
        &&& after.url@ == before.url@
        &&& after.title@ == before.title@
        &&& after.description@ == before.description@
    }
}

/// The private-bookmarks plugin.
pub struct PrivateBookmarksPlugin {
    pub data: PrivateData,
    pub data_file: Option<String>,
    pub private_tag: String,
    pub hidden_url_placeholder: String,
    pub hidden_title_placeholder: String,
    pub unlocked: bool,
    pub session_password: Option<String>,
    pub enabled: bool,
}

impl PrivateBookmarksPlugin {
    pub fn info(&self) -> (i: PluginInfo)
        ensures
            i.name@ == "private-bookmarks"@,
            i.version@ == "1.0.0"@,
            i.description@ == "Password-protects sensitive bookmarks"@,
            i.author@ == "bukurs"@,
    {
        PluginInfo::new("private-bookmarks", "1.0.0", "Password-protects sensitive bookmarks", "bukurs")
    }

    /// Locked, tag `private`, no data, enabled.
    pub fn new() -> (p: Self)
        ensures
            p.data.encrypted@ == Map::<usize, EncryptedBookmark>::empty(),
            p.data.password_hash is None,
            p.data.password_salt is None,
            p.data_file is None,
            p.private_tag@ == "private"@,
            p.hidden_url_placeholder@ == "[PRIVATE - use 'bukurs unlock' to view]"@,
            p.hidden_title_placeholder@ == "[Private Bookmark]"@,
            !p.unlocked,
            p.session_password is None,
            p.enabled,
    {
        PrivateBookmarksPlugin {
            data: PrivateData { encrypted: HashMap::new(), password_hash: None, password_salt: None },
            data_file: None,
            private_tag: owned("private"),
            hidden_url_placeholder: owned("[PRIVATE - use 'bukurs unlock' to view]"),
            hidden_title_placeholder: owned("[Private Bookmark]"),
            unlocked: false,
            session_password: None,
            enabled: true,
        }
    }

    /// The key for a password and salt.
    pub fn derive_key(password: &str, salt: &[u8]) -> (key: Vec<u8>)
        ensures
            key@ == password_key(password@, salt@),
            key@.len() == CREDENTIAL_LEN,
    {
        pbkdf2_sha256(KEY_ITERATIONS, salt, password.as_bytes(), CREDENTIAL_LEN)
    }

    /// Encrypts `plaintext` under `password` with the salt given: the
    /// ciphertext, salt and nonce (the nonce is only recorded; sealing uses
    /// the zero nonce) as base64 text.  Fails only for a text over the
    /// sealing limit.
    pub fn encrypt_with(plaintext: &str, password: &str, salt: &[u8], nonce: &[u8]) -> (r: Result<
        (String, String, String),
        String,
    >)
        ensures
            encode_utf8(plaintext@).len() <= MAX_SEAL_LEN ==> (r matches Ok((c, s, n)) && c@
                == sealed_text(plaintext@, password@, salt@) && s@ == base64_standard(salt@) && n@
                == base64_standard(nonce@)),
            encode_utf8(plaintext@).len() > MAX_SEAL_LEN ==> (r matches Err(m) && m@
                == "Encryption failed"@),
    {
        let key = Self::derive_key(password, salt);
        let zero = zero_nonce_exec();
        let sealed = match aes256gcm_seal(key.as_slice(), zero.as_slice(), plaintext.as_bytes()) {
            Some(c) => c,
            None => {
                return Err(owned("Encryption failed"));
            },
        };
        let c = b64_encode(sealed.as_slice());
        let s = b64_encode(salt);
        let n = b64_encode(nonce);
        assert(c@ == sealed_text(plaintext@, password@, salt@));
        Ok((c, s, n))
    }

    /// Encrypts `plaintext` under `password` with a fresh random salt and
    /// nonce (`encrypt_with` on what was drawn): the ciphertext, salt and
    /// nonce as base64 text.  Fails where the random source fails, or for a
    /// text over the sealing limit.
    pub fn encrypt(plaintext: &str, password: &str) -> (r: Result<(String, String, String), String>)
        ensures
            match r {
                Ok((c, s, n)) => exists|salt: Seq<u8>, nonce: Seq<u8>|
                    {
                        &&& salt.len() == SALT_LEN
                        &&& nonce.len() == NONCE_LEN
                        &&& s@ == base64_standard(salt)
                        &&& n@ == base64_standard(nonce)
                        &&& c@ == sealed_text(plaintext@, password@, salt)
                        &&& encode_utf8(plaintext@).len() <= MAX_SEAL_LEN
                    },
                Err(m) => m@ == "Failed to generate random bytes"@ || m@ == "Encryption failed"@,
            },
            r matches Err(m) && m@ == "Encryption failed"@ ==> encode_utf8(plaintext@).len()
                > MAX_SEAL_LEN,
    {
        proof {
            reveal_strlit("Failed to generate random bytes");
            reveal_strlit("Encryption failed");
            assert("Failed to generate random bytes"@.len() != "Encryption failed"@.len());
        }
        let salt = match random_bytes(SALT_LEN) {
            Some(b) => b,
            None => {
                return Err(owned("Failed to generate random bytes"));
            },
        };
        let nonce = match random_bytes(NONCE_LEN) {
            Some(b) => b,
            None => {
                return Err(owned("Failed to generate random bytes"));
            },
        };
        Self::encrypt_with(plaintext, password, salt.as_slice(), nonce.as_slice())
    }

    /// Decrypts one field.  Whatever `encrypt` made of a text under a
    /// password decrypts to that text under the same password.
    pub fn decrypt(ciphertext_b64: &str, salt_b64: &str, nonce_b64: &str, password: &str) -> (r:
        Result<String, String>)
        ensures
            result_text(r) == decrypt_result(ciphertext_b64@, salt_b64@, nonce_b64@, password@),
            forall|plain: Seq<char>, salt: Seq<u8>, nonce: Seq<u8>|
                #![trigger sealed_text(plain, password@, salt), base64_standard(nonce)]
                {
                    &&& nonce.len() == NONCE_LEN
                    &&& encode_utf8(plain).len() <= MAX_SEAL_LEN
                    &&& salt_b64@ == base64_standard(salt)
                    &&& nonce_b64@ == base64_standard(nonce)
                    &&& ciphertext_b64@ == sealed_text(plain, password@, salt)
                } ==> result_text(r) == Ok::<Seq<char>, Seq<char>>(plain),
    {
        let cb = b64_decode(ciphertext_b64);
        let sb = b64_decode(salt_b64);
        let nb = b64_decode(nonce_b64);
        let r = match (cb, sb, nb) {
            (None, _, _) => Err(owned("Invalid ciphertext")),
            (Some(_), None, _) => Err(owned("Invalid salt")),
            (Some(_), Some(_), None) => Err(owned("Invalid nonce")),
            (Some(c), Some(s), Some(n)) => {
                if n.len() != NONCE_LEN {
                    Err(owned("Invalid nonce"))
                } else {
                    let key = Self::derive_key(password, s.as_slice());
                    let zero = zero_nonce_exec();
                    match aes256gcm_open(key.as_slice(), zero.as_slice(), c.as_slice()) {
                        None => Err(owned("Decryption failed - wrong password?")),
                        Some(p) => {
                            let ghost pv = p@;
                            match utf8_text(p) {
                                Some(t) => Ok(t),
                                None => Err(owned("Invalid UTF-8 in decrypted data")),
                            }
                        },
                    }
                }
            },
        };
        r
    }

    /// Whether a stored tag string carries the private tag.
    pub fn is_private(tags: &str, private_tag: &str) -> (r: bool)
        ensures
            r == tag_pieces(tags@).contains(private_tag@),
    {
        has_tag(tags, private_tag)
    }

    /// The stored hash of a password: its key as base64 text.
    pub fn hash_password(password: &str, salt: &[u8]) -> (r: String)
        ensures
            r@ == base64_standard(password_key(password@, salt@)),
    {
        let key = Self::derive_key(password, salt);
        b64_encode(key.as_slice())
    }

    /// Whether `password` matches the stored hash; true while none is set
    /// (or the stored salt is not base64).
    pub fn verify_password(&self, password: &str) -> (r: bool)
        ensures
            r == (match (self.data.password_hash, self.data.password_salt) {
                (Some(h), Some(s)) => match base64_decoded(s@) {
                    Some(salt) => base64_standard(password_key(password@, salt)) == h@,
                    None => true,
                },
                _ => true,
            }),
    {
        match (&self.data.password_hash, &self.data.password_salt) {
            (Some(h), Some(s)) => {
                match b64_decode(s.as_str()) {
                    Some(salt) => {
                        let computed = Self::hash_password(password, salt.as_slice());
                        str_eq(computed.as_str(), h.as_str())
                    },
                    None => true,
                }
            },
            _ => true,
        }
    }

    /// Sets the password: a fresh salt and the hash under it.  False (and
    /// nothing changed) where no random salt could be had.
    pub fn set_password(&mut self, password: &str) -> (r: bool)
        ensures
            r ==> exists|salt: Seq<u8>|
                {
                    &&& salt.len() == SALT_LEN
                    &&& (final(self).data.password_salt matches Some(s) && s@ == base64_standard(salt))
                    &&& (final(self).data.password_hash matches Some(h) && h@ == base64_standard(
                        password_key(password@, salt),
                    ))
                },
            !r ==> final(self).data.password_hash == old(self).data.password_hash
                && final(self).data.password_salt == old(self).data.password_salt,
            final(self).data.encrypted@ == old(self).data.encrypted@,
            final(self).private_tag == old(self).private_tag,
            final(self).unlocked == old(self).unlocked,
            final(self).enabled == old(self).enabled,
    {
        let salt = match random_bytes(SALT_LEN) {
            Some(b) => b,
            None => {
                return false;
            },
        };
        let hash = Self::hash_password(password, salt.as_slice());
        let salt_text = b64_encode(salt.as_slice());
        self.data.password_hash = Some(hash);
        self.data.password_salt = Some(salt_text);
        true
    }

    /// Reads `enabled` and `private_tag`.
    pub fn on_load(&mut self, config: &PluginConfig) -> (r: HookResult)
        ensures
            r is Continue,
            final(self).enabled == on_unless_false(lookup(config.view(), "enabled"@), old(self).enabled),
            final(self).private_tag@ == (match lookup(config.view(), "private_tag"@) {
                Some(t) => t,
                None => old(self).private_tag@,
            }),
            final(self).unlocked == old(self).unlocked,
            final(self).data == old(self).data,
            final(self).data_file == old(self).data_file,
            final(self).hidden_url_placeholder == old(self).hidden_url_placeholder,
            final(self).hidden_title_placeholder == old(self).hidden_title_placeholder,
            final(self).session_password == old(self).session_password,
    {
        self.enabled = config.flag_unless_false("enabled", self.enabled);
        self.private_tag = config.text("private_tag", self.private_tag.as_str());
        HookResult::Continue
    }

    /// On unload: forgets the session password and locks.
    pub fn on_unload(&mut self)
        ensures
            final(self).session_password is None,
            !final(self).unlocked,
            final(self).enabled == old(self).enabled,
            final(self).data.encrypted@ == old(self).data.encrypted@,
    {
        self.session_password = None;
        self.unlocked = false;
    }

    /// After a search: while locked, a private result shows the placeholders
    /// and no description; once unlocked, a private result with encrypted
    /// fields shows each field that decrypts under the session password.
    pub fn on_post_search(&self, results: &mut Vec<Bookmark>) -> (r: HookResult)
        ensures
            r is Continue,
            final(results).len() == old(results).len(),
            forall|i: int|
                0 <= i < old(results).len() ==> shown_result(
                    *self,
                    old(results)[i],
                    #[trigger] final(results)[i],
                ),
    {
        let mut i: usize = 0;
        while i < results.len()
            invariant
                i <= results.len(),
                results.len() == old(results).len(),
                forall|j: int| 0 <= j < i ==> shown_result(*self, old(results)[j], #[trigger] results[j]),
                forall|j: int| i <= j < results.len() ==> #[trigger] results[j] == old(results)[j],
            decreases results.len() - i,
        {
            let mut b = results[i].duplicate();
            if self.enabled && Self::is_private(b.tags.as_str(), self.private_tag.as_str()) {
                if !self.unlocked {
                    b.url = owned(self.hidden_url_placeholder.as_str());
                    b.title = owned(self.hidden_title_placeholder.as_str());
                    b.description = String::new();
                } else {
                    match (self.data.encrypted.get(&b.id), &self.session_password) {
                        (Some(e), Some(pw)) => {
                            match Self::decrypt(
                                e.encrypted_url.as_str(),
                                e.salt.as_str(),
                                e.nonce.as_str(),
                                pw.as_str(),
                            ) {
                                Ok(u) => {
                                    b.url = u;
                                },
                                Err(_) => {},
                            }
                            match Self::decrypt(
                                e.encrypted_title.as_str(),
                                e.salt.as_str(),
                                e.nonce.as_str(),
                                pw.as_str(),
                            ) {
                                Ok(t) => {
                                    b.title = t;
                                },
                                Err(_) => {},
                            }
                            match Self::decrypt(
                                e.encrypted_description.as_str(),
                                e.salt.as_str(),
                                e.nonce.as_str(),
                                pw.as_str(),
                            ) {
                                Ok(d) => {
                                    b.description = d;
                                },
                                Err(_) => {},
                            }
                        },
                        _ => {},
                    }
                }
            }
            assert(shown_result(*self, old(results)[i as int], b));
            results.set(i, b);
            i += 1;
        }
        HookResult::Continue
    }

    /// Before opening: a private bookmark cannot be opened while locked.
    pub fn on_pre_open(&self, bookmark: &Bookmark) -> (r: HookResult)
        ensures
            (self.enabled && !self.unlocked && tag_pieces(bookmark.tags@).contains(
                self.private_tag@,
            )) ==> (r matches HookResult::Error(m) && m@
                == "Cannot open private bookmark. Use 'bukurs unlock' first."@),
            !(self.enabled && !self.unlocked && tag_pieces(bookmark.tags@).contains(
                self.private_tag@,
            )) ==> r is Continue,
    {
        if !self.enabled {
            return HookResult::Continue;
        }
        if Self::is_private(bookmark.tags.as_str(), self.private_tag.as_str()) && !self.unlocked {
            return HookResult::Error(
                owned("Cannot open private bookmark. Use 'bukurs unlock' first."),
            );
        }
        HookResult::Continue
    }
}

} // verus!
