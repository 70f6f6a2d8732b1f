//! Encrypted storage of profiles and of answers that people liked.
use vstd::prelude::*;
use vstd::slice::slice_subrange;
use vstd::utf8::encode_utf8;

use crate::ai::{ReactionAnalysis, ReactionAnalysisView};
use crate::crypto::{
    cipher_accepts, cipher_handles, hex_bytes, hex_decode, hex_encode, hex_text, is_hex, open,
    opened_bytes, random_nonce, seal, sealed_bytes, sha256, sha256_digest, NONCE_LEN, TAG_LEN,
};
use crate::text::{is_text, opt_view, views};

verus! {

/// Why bytes could not be encrypted or decrypted.
#[derive(Debug, Clone, Copy, PartialEq, Eq, Structural)]
pub enum BlobError {
    /// The plaintext is too long for the cipher.
    EncryptionFailure,
    /// The blob is shorter than a nonce.
    TooShort,
    /// The blob was not made with this key, or was changed since.
    DecryptionFailure,
}

/// Why a text is no encryption key.
#[derive(Debug, Clone, Copy, PartialEq, Eq, Structural)]
pub enum KeyError {
    /// The text is not an even number of hexadecimal digits.
    InvalidHex,
    /// The text does not stand for 32 bytes.
    WrongLength,
}

// ---------------------------------------------------------------------------
// Blobs
// ---------------------------------------------------------------------------

/// The plaintext of a blob: its first bytes are the nonce.
pub open spec fn blob_plaintext(key: Seq<u8>, blob: Seq<u8>) -> Option<Seq<u8>> {
    if blob.len() < NONCE_LEN {
        None
    } else {
        opened_bytes(key, blob.take(NONCE_LEN as int), blob.skip(NONCE_LEN as int))
    }
}

/// Whether a blob is what `plaintext` is encrypted to under the nonce with which
/// the blob begins.
pub open spec fn is_sealed(key: Seq<u8>, blob: Seq<u8>, plaintext: Seq<u8>) -> bool {
    &&& blob.len() == NONCE_LEN + plaintext.len() + TAG_LEN
    &&& blob.skip(NONCE_LEN as int) == sealed_bytes(
        key,
        blob.take(NONCE_LEN as int),
        plaintext,
    )
}

/// A blob that was changed behind its nonce no longer decrypts to its
/// plaintext: it is not what that plaintext is encrypted to.
pub proof fn a_changed_blob_loses_its_plaintext(
    key: Seq<u8>,
    blob: Seq<u8>,
    changed: Seq<u8>,
    plaintext: Seq<u8>,
)
    requires
        is_sealed(key, blob, plaintext),
        changed.take(NONCE_LEN as int) == blob.take(NONCE_LEN as int),
        changed != blob,
    ensures
        !is_sealed(key, changed, plaintext),
{
    if is_sealed(key, changed, plaintext) {
        assert(changed =~= changed.take(NONCE_LEN as int) + changed.skip(NONCE_LEN as int));
        assert(blob =~= blob.take(NONCE_LEN as int) + blob.skip(NONCE_LEN as int));
    }
}

/// Whether the cipher can be run on what follows the nonce of a blob of `n` bytes.
pub open spec fn blob_handled(n: int) -> bool {
    n >= NONCE_LEN + TAG_LEN ==> cipher_handles(n - NONCE_LEN - TAG_LEN)
}

/// Encrypts `data` under a given nonce, which is put before the ciphertext.
pub fn encrypt_blob_with_nonce(encryption_key: &[u8; 32], nonce: &[u8; 24], data: &[u8]) -> (r:
    Result<Vec<u8>, BlobError>)
    requires
        cipher_handles(data@.len() as int),
    ensures
        cipher_accepts(data@.len() as int) ==> (r matches Ok(blob) && blob@ == nonce@
            + sealed_bytes(encryption_key@, nonce@, data@) && blob_plaintext(
            encryption_key@,
            blob@,
        ) == Some(data@) && blob@.len() == NONCE_LEN + data@.len() + TAG_LEN),
        !cipher_accepts(data@.len() as int) ==> r == Err::<Vec<u8>, BlobError>(
            BlobError::EncryptionFailure,
        ),
{
    match seal(encryption_key, nonce, data) {
        Ok(ciphertext) => {
            let mut blob: Vec<u8> = Vec::new();
            blob.extend_from_slice(nonce.as_slice());
            assert(blob@ =~= nonce@);
            blob.extend_from_slice(ciphertext.as_slice());
            assert(blob@ =~= nonce@ + ciphertext@);
            assert(blob@.take(NONCE_LEN as int) =~= nonce@);
            assert(blob@.skip(NONCE_LEN as int) =~= ciphertext@);
            Ok(blob)
        },
        Err(_) => Err(BlobError::EncryptionFailure),
    }
}

/// Encrypts `data` under a fresh random nonce.
pub fn encrypt_blob(encryption_key: &[u8; 32], data: &[u8]) -> (r: Result<Vec<u8>, BlobError>)
    requires
        cipher_handles(data@.len() as int),
    ensures
        cipher_accepts(data@.len() as int) ==> (r matches Ok(blob) && is_sealed(
            encryption_key@,
            blob@,
            data@,
        ) && blob_plaintext(encryption_key@, blob@) == Some(data@)),
        !cipher_accepts(data@.len() as int) ==> r == Err::<Vec<u8>, BlobError>(
            BlobError::EncryptionFailure,
        ),
{
    let nonce = random_nonce();
    let r = encrypt_blob_with_nonce(encryption_key, &nonce, data);
    proof {
        if r is Ok {
            let blob = r->Ok_0;
            assert(blob@.take(NONCE_LEN as int) =~= nonce@);
            assert(blob@.skip(NONCE_LEN as int) =~= sealed_bytes(encryption_key@, nonce@, data@));
        }
    }
    r
}

/// Decrypts a blob.
pub fn decrypt_blob(encryption_key: &[u8; 32], blob: &[u8]) -> (r: Result<Vec<u8>, BlobError>)
    requires
        blob_handled(blob@.len() as int),
    ensures
        blob@.len() < NONCE_LEN ==> r == Err::<Vec<u8>, BlobError>(BlobError::TooShort),
        blob@.len() >= NONCE_LEN && blob_plaintext(encryption_key@, blob@) is None ==> r == Err::<
            Vec<u8>,
            BlobError,
        >(BlobError::DecryptionFailure),
        blob_plaintext(encryption_key@, blob@) matches Some(p) ==> (r matches Ok(v) && v@ == p),
        blob@.len() < NONCE_LEN + TAG_LEN ==> r is Err,
        NONCE_LEN <= blob@.len() < NONCE_LEN + TAG_LEN ==> r == Err::<Vec<u8>, BlobError>(
            BlobError::DecryptionFailure,
        ),
        r matches Ok(v) ==> is_sealed(encryption_key@, blob@, v@),
{
    if blob.len() < NONCE_LEN {
        return Err(BlobError::TooShort);
    }
    let nonce = slice_subrange(blob, 0, NONCE_LEN);
    let ciphertext = slice_subrange(blob, NONCE_LEN, blob.len());
    assert(nonce@ =~= blob@.take(NONCE_LEN as int));
    assert(ciphertext@ =~= blob@.skip(NONCE_LEN as int));
    match open(encryption_key, nonce, ciphertext) {
        Ok(plaintext) => Ok(plaintext),
        Err(_) => Err(BlobError::DecryptionFailure),
    }
}

// ---------------------------------------------------------------------------
// Keys and digests
// ---------------------------------------------------------------------------

/// Reads an encryption key of 32 bytes from hexadecimal digits.
pub fn parse_encryption_key(key_hex: &str) -> (r: Result<[u8; 32], KeyError>)
    ensures
        !is_hex(key_hex@) ==> r == Err::<[u8; 32], KeyError>(KeyError::InvalidHex),
        is_hex(key_hex@) && key_hex@.len() != 64 ==> r == Err::<[u8; 32], KeyError>(
            KeyError::WrongLength,
        ),
        is_hex(key_hex@) && key_hex@.len() == 64 ==> (r matches Ok(key) && key@ == hex_bytes(
            key_hex@,
        )),
{
    match hex_decode(key_hex) {
        Err(_) => Err(KeyError::InvalidHex),
        Ok(bytes) => {
            if bytes.len() != 32 {
                return Err(KeyError::WrongLength);
            }
            let mut key: [u8; 32] = [0u8; 32];
            let mut i: usize = 0;
            while i < 32
                invariant
                    i <= 32,
                    bytes@.len() == 32,
                    key@.len() == 32,
                    forall|j: int| 0 <= j < i ==> key@[j] == bytes@[j],
                decreases 32 - i,
            {
                key[i] = bytes[i];
                i += 1;
            }
            assert(key@ =~= bytes@);
            Ok(key)
        },
    }
}

/// The digest by which an interaction is found again: over the prompt, three
/// colons and the response.
pub open spec fn interaction_digest(prompt: Seq<char>, response: Seq<char>) -> Seq<char> {
    hex_text(sha256_digest(encode_utf8(prompt) + encode_utf8(":::"@) + encode_utf8(response)))
}

/// Computes the digest of an interaction.
pub fn compute_interaction_hash(prompt: &str, response: &str) -> (r: String)
    ensures
        r@ == interaction_digest(prompt@, response@),
        r@.len() == 64,
{
    let mut bytes: Vec<u8> = Vec::new();
    bytes.extend_from_slice(prompt.as_bytes());
    assert(bytes@ =~= encode_utf8(prompt@));
    bytes.extend_from_slice(":::".as_bytes());
    assert(bytes@ =~= encode_utf8(prompt@) + encode_utf8(":::"@));
    bytes.extend_from_slice(response.as_bytes());
    assert(bytes@ =~= encode_utf8(prompt@) + encode_utf8(":::"@) + encode_utf8(response@));
    let digest = sha256(bytes.as_slice());
    hex_encode(digest.as_slice())
}

/// The identifier under which the profile of `raw_id` is kept.
pub open spec fn profile_id(raw_id: Seq<char>) -> Seq<char> {
    hex_text(sha256_digest(encode_utf8(raw_id)))
}

// ---------------------------------------------------------------------------
// Learned behaviours
// ---------------------------------------------------------------------------

/// A prompt, the answer to it and how the answer was received.
#[derive(Debug)]
pub struct Interaction {
    pub context_key: String,
    pub prompt: String,
    pub response: String,
    pub analysis: ReactionAnalysis,
    pub timestamp: u64,
}

/// What an interaction says.
#[verifier::ext_equal]
pub struct InteractionView {
    pub context_key: Seq<char>,
    pub prompt: Seq<char>,
    pub response: Seq<char>,
    pub analysis: ReactionAnalysisView,
    pub timestamp: u64,
}

impl View for Interaction {
    type V = InteractionView;

    open spec fn view(&self) -> InteractionView {
        InteractionView {
            context_key: self.context_key@,
            prompt: self.prompt@,
            response: self.response@,
            analysis: self.analysis@,
            timestamp: self.timestamp,
        }
    }
}

impl Clone for Interaction {
    fn clone(&self) -> (r: Self)
        ensures
            r@ == self@,
    {
        Interaction {
            context_key: self.context_key.clone(),
            prompt: self.prompt.clone(),
            response: self.response.clone(),
            analysis: self.analysis.clone(),
            timestamp: self.timestamp,
        }
    }
}

/// Stores a learned behaviour: context, digest, score, blob and time. A row
/// under the same context and digest is replaced.
pub const INSERT_BEHAVIOR_SQL: &'static str = "INSERT INTO learned_behaviors (context_key, interaction_hash, sentiment_score, encrypted_blob, timestamp)
             VALUES (?, ?, ?, ?, ?)
             ON CONFLICT(context_key, interaction_hash) DO UPDATE SET
                 sentiment_score = excluded.sentiment_score,
                 encrypted_blob = excluded.encrypted_blob,
                 timestamp = excluded.timestamp";

/// Reads the best learned behaviours of a context, as many as wanted: blob and
/// time.
pub const SELECT_BEHAVIORS_SQL: &'static str = "SELECT encrypted_blob, timestamp FROM learned_behaviors
             WHERE context_key = ?
             ORDER BY sentiment_score DESC
             LIMIT ?";

/// Under what a learned behaviour is stored: its context and the digest of
/// prompt and answer.
pub open spec fn behavior_key(
    context_key: Seq<char>,
    prompt: Seq<char>,
    response: Seq<char>,
) -> (Seq<char>, Seq<char>) {
    (context_key, interaction_digest(prompt, response))
}

/// The same answer to the same prompt is stored under different keys in
/// different contexts, so that no context replaces what another one learned.
pub proof fn contexts_learn_apart(
    context_a: Seq<char>,
    context_b: Seq<char>,
    prompt: Seq<char>,
    response: Seq<char>,
)
    requires
        context_a != context_b,
    ensures
        behavior_key(context_a, prompt, response) != behavior_key(context_b, prompt, response),
{
}

/// A row of the table of learned behaviours. Context and digest together are
/// its key: a second row with the same key replaces the first.
#[derive(Debug)]
pub struct LearnedBehavior {
    pub context_key: String,
    pub interaction_hash: String,
    /// The bits of the score as a single.
    pub sentiment_score: u32,
    pub encrypted_blob: Vec<u8>,
    pub timestamp: i64,
}

/// The store of interactions that people liked.
#[derive(Debug, Clone, Copy)]
pub struct Memory {
    encryption_key: [u8; 32],
}

impl Memory {
    /// The key under which the store encrypts.
    pub closed spec fn key(self) -> Seq<u8> {
        self.encryption_key@
    }

    /// A store with a key in hexadecimal digits.
    pub fn new(key_hex: &str) -> (r: Result<Memory, KeyError>)
        ensures
            !is_hex(key_hex@) ==> r == Err::<Memory, KeyError>(KeyError::InvalidHex),
            is_hex(key_hex@) && key_hex@.len() != 64 ==> r == Err::<Memory, KeyError>(
                KeyError::WrongLength,
            ),
            is_hex(key_hex@) && key_hex@.len() == 64 ==> (r matches Ok(m) && m.key() == hex_bytes(
                key_hex@,
            )),
    {
        match parse_encryption_key(key_hex) {
            Ok(encryption_key) => Ok(Memory { encryption_key }),
            Err(e) => Err(e),
        }
    }

    /// A store with a given key.
    pub fn from_key(encryption_key: [u8; 32]) -> (r: Memory)
        ensures
            r.key() == encryption_key@,
    {
        Memory { encryption_key }
    }

    /// Encrypts `data` under a fresh random nonce.
    pub fn encrypt(&self, data: &[u8]) -> (r: Result<Vec<u8>, BlobError>)
        requires
            cipher_handles(data@.len() as int),
        ensures
            cipher_accepts(data@.len() as int) ==> (r matches Ok(blob) && is_sealed(
                self.key(),
                blob@,
                data@,
            ) && blob_plaintext(self.key(), blob@) == Some(data@)),
            !cipher_accepts(data@.len() as int) ==> r == Err::<Vec<u8>, BlobError>(
                BlobError::EncryptionFailure,
            ),
    {
        encrypt_blob(&self.encryption_key, data)
    }

    /// Decrypts a blob.
    pub fn decrypt(&self, blob: &[u8]) -> (r: Result<Vec<u8>, BlobError>)
        requires
            blob_handled(blob@.len() as int),
        ensures
            blob@.len() < NONCE_LEN ==> r == Err::<Vec<u8>, BlobError>(BlobError::TooShort),
            blob@.len() >= NONCE_LEN && blob_plaintext(self.key(), blob@) is None ==> r == Err::<
                Vec<u8>,
                BlobError,
            >(BlobError::DecryptionFailure),
            blob_plaintext(self.key(), blob@) matches Some(p) ==> (r matches Ok(v) && v@ == p),
            blob@.len() < NONCE_LEN + TAG_LEN ==> r is Err,
            NONCE_LEN <= blob@.len() < NONCE_LEN + TAG_LEN ==> r == Err::<Vec<u8>, BlobError>(
                BlobError::DecryptionFailure,
            ),
            r matches Ok(v) ==> is_sealed(self.key(), blob@, v@),
    {
        decrypt_blob(&self.encryption_key, blob)
    }

    /// The record of an interaction at a time in milliseconds.
    pub fn record(
        context_key: &str,
        prompt: String,
        response: String,
        analysis: ReactionAnalysis,
        timestamp: i64,
    ) -> (r: Interaction)
        ensures
            r@ == (InteractionView {
                context_key: context_key@,
                prompt: prompt@,
                response: response@,
                analysis: analysis@,
                timestamp: timestamp as u64,
            }),
    {
        Interaction {
            context_key: context_key.to_string(),
            prompt,
            response,
            analysis,
            timestamp: timestamp as u64,
        }
    }

    /// The row that stores an interaction whose record reads `json`.
    pub fn add_interaction(
        &self,
        context_key: &str,
        prompt: &str,
        response: &str,
        sentiment_score: u32,
        timestamp: i64,
        json: &[u8],
    ) -> (r: Result<LearnedBehavior, BlobError>)
        requires
            cipher_handles(json@.len() as int),
        ensures
            r is Ok <==> cipher_accepts(json@.len() as int),
            r matches Ok(row) ==> {
                &&& (row.context_key@, row.interaction_hash@) == behavior_key(
                    context_key@,
                    prompt@,
                    response@,
                )
                &&& row.sentiment_score == sentiment_score
                &&& row.timestamp == timestamp
                &&& blob_plaintext(self.key(), row.encrypted_blob@) == Some(json@)
                &&& is_sealed(self.key(), row.encrypted_blob@, json@)
            },
            r matches Err(e) ==> e == BlobError::EncryptionFailure,
    {
        let interaction_hash = compute_interaction_hash(prompt, response);
        match self.encrypt(json) {
            Ok(encrypted_blob) => Ok(
                LearnedBehavior {
                    context_key: context_key.to_string(),
                    interaction_hash,
                    sentiment_score,
                    encrypted_blob,
                    timestamp,
                },
            ),
            Err(e) => Err(e),
        }
    }

    /// Decrypts the blobs of rows, each with its time. Rows that this key does
    /// not open are left out; the others keep their order.
    pub fn decrypt_rows(&self, rows: &Vec<(Vec<u8>, i64)>) -> (r: Vec<(Vec<u8>, i64)>)
        requires
            forall|i: int| 0 <= i < rows@.len() ==> blob_handled((#[trigger] rows@[i]).0@.len() as int),
        ensures
            row_views(r@) == readable_rows(self.key(), row_views(rows@)),
    {
        let mut out: Vec<(Vec<u8>, i64)> = Vec::new();
        let mut i: usize = 0;
        assert(row_views(rows@.take(0)) =~= Seq::empty());
        while i < rows.len()
            invariant
                i <= rows.len(),
                forall|i: int|
                    0 <= i < rows@.len() ==> blob_handled((#[trigger] rows@[i]).0@.len() as int),
                row_views(out@) =~= readable_rows(self.key(), row_views(rows@.take(i as int))),
            decreases rows.len() - i,
        {
            proof {
                let before = row_views(rows@.take(i as int));
                let after = row_views(rows@.take(i + 1));
                assert(after =~= before.push((rows@[i as int].0@, rows@[i as int].1)));
                assert(after.drop_last() =~= before);
            }
            match self.decrypt(rows[i].0.as_slice()) {
                Ok(plaintext) => out.push((plaintext, rows[i].1)),
                Err(_) => {},
            }
            i += 1;
        }
        assert(rows@.take(rows@.len() as int) =~= rows@);
        out
    }

    /// The examples for a context, from rows that were read for it: each has
    /// the context that was asked for and the time of its row. Rows whose
    /// record could not be read are left out; the others keep their order.
    /// Which rows there are is up to the database that runs
    /// `SELECT_BEHAVIORS_SQL`.
    pub fn get_relevant_examples(
        context_key: &str,
        rows: Vec<(Option<Interaction>, i64)>,
    ) -> (r: Vec<Interaction>)
        ensures
            interaction_views(r@) == examples_of(context_key@, record_views(rows@)),
    {
        let mut out: Vec<Interaction> = Vec::new();
        let mut i: usize = 0;
        assert(record_views(rows@.take(0)) =~= Seq::empty());
        while i < rows.len()
            invariant
                i <= rows.len(),
                interaction_views(out@) =~= examples_of(
                    context_key@,
                    record_views(rows@.take(i as int)),
                ),
            decreases rows.len() - i,
        {
            proof {
                let before = record_views(rows@.take(i as int));
                let after = record_views(rows@.take(i + 1));
                assert(after =~= before.push(record_view(rows@[i as int])));
                assert(after.drop_last() =~= before);
            }
            match &rows[i].0 {
                Some(found) => {
                    let mut example = found.clone();
                    example.context_key = context_key.to_string();
                    example.timestamp = rows[i].1 as u64;
                    out.push(example);
                },
                None => {},
            }
            i += 1;
        }
        assert(rows@.take(rows@.len() as int) =~= rows@);
        out
    }
}

/// What rows of blobs and times say.
pub open spec fn row_views(rows: Seq<(Vec<u8>, i64)>) -> Seq<(Seq<u8>, i64)> {
    rows.map_values(|row: (Vec<u8>, i64)| (row.0@, row.1))
}

/// The plaintexts of the rows that `key` opens, with their times.
pub open spec fn readable_rows(key: Seq<u8>, rows: Seq<(Seq<u8>, i64)>) -> Seq<(Seq<u8>, i64)>
    decreases rows.len(),
{
    if rows.len() == 0 {
        Seq::empty()
    } else {
        let before = readable_rows(key, rows.drop_last());
        match blob_plaintext(key, rows.last().0) {
            Some(p) => before.push((p, rows.last().1)),
            None => before,
        }
    }
}

/// Where the key opens every blob, every row is read, in order.
pub proof fn nothing_readable_is_lost(key: Seq<u8>, rows: Seq<(Seq<u8>, i64)>)
    requires
        forall|i: int|
            0 <= i < rows.len() ==> blob_plaintext(key, (#[trigger] rows[i]).0) is Some,
    ensures
        readable_rows(key, rows) == Seq::new(
            rows.len(),
            |i: int| (blob_plaintext(key, rows[i].0)->0, rows[i].1),
        ),
    decreases rows.len(),
{
    let all = Seq::new(rows.len(), |i: int| (blob_plaintext(key, rows[i].0)->0, rows[i].1));
    if rows.len() > 0 {
        assert forall|i: int| 0 <= i < rows.drop_last().len() implies blob_plaintext(
            key,
            (#[trigger] rows.drop_last()[i]).0,
        ) is Some by {
            assert(rows.drop_last()[i] == rows[i]);
        }
        nothing_readable_is_lost(key, rows.drop_last());
        assert(blob_plaintext(key, rows[rows.len() - 1].0) is Some);
        assert(readable_rows(key, rows) =~= all);
    } else {
        assert(readable_rows(key, rows) =~= all);
    }
}

/// What interactions say.
pub open spec fn interaction_views(list: Seq<Interaction>) -> Seq<InteractionView> {
    list.map_values(|x: Interaction| x@)
}

/// What a row with a record that may be unreadable says.
pub open spec fn record_view(row: (Option<Interaction>, i64)) -> (Option<InteractionView>, i64) {
    match row.0 {
        Some(x) => (Some(x@), row.1),
        None => (None, row.1),
    }
}

/// What rows with records say.
pub open spec fn record_views(rows: Seq<(Option<Interaction>, i64)>) -> Seq<
    (Option<InteractionView>, i64),
> {
    rows.map_values(|row: (Option<Interaction>, i64)| record_view(row))
}

/// The readable records, each moved to the context `context_key` and to the
/// time of its row.
pub open spec fn examples_of(
    context_key: Seq<char>,
    rows: Seq<(Option<InteractionView>, i64)>,
) -> Seq<InteractionView>
    decreases rows.len(),
{
    if rows.len() == 0 {
        Seq::empty()
    } else {
        let before = examples_of(context_key, rows.drop_last());
        match rows.last().0 {
            Some(x) => before.push(
                InteractionView { context_key, timestamp: rows.last().1 as u64, ..x },
            ),
            None => before,
        }
    }
}

/// Every example for a context carries that context, whatever the records say.
pub proof fn examples_stay_in_their_context(
    context_key: Seq<char>,
    rows: Seq<(Option<InteractionView>, i64)>,
    i: int,
)
    requires
        0 <= i < examples_of(context_key, rows).len(),
    ensures
        examples_of(context_key, rows)[i].context_key == context_key,
    decreases rows.len(),
{
    let before = examples_of(context_key, rows.drop_last());
    if i < before.len() {
        examples_stay_in_their_context(context_key, rows.drop_last(), i);
    }
}

/// Where every record can be read, there are as many examples as rows, and each
/// is made from the row at its place.
pub proof fn every_record_gives_an_example(
    context_key: Seq<char>,
    rows: Seq<(Option<InteractionView>, i64)>,
)
    requires
        forall|i: int| 0 <= i < rows.len() ==> (#[trigger] rows[i]).0 is Some,
    ensures
        examples_of(context_key, rows) == Seq::new(
            rows.len(),
            |i: int|
                InteractionView { context_key, timestamp: rows[i].1 as u64, ..rows[i].0->0 },
        ),
    decreases rows.len(),
{
    let all = Seq::new(
        rows.len(),
        |i: int| InteractionView { context_key, timestamp: rows[i].1 as u64, ..rows[i].0->0 },
    );
    if rows.len() > 0 {
        assert forall|i: int| 0 <= i < rows.drop_last().len() implies (
        #[trigger] rows.drop_last()[i]).0 is Some by {
            assert(rows.drop_last()[i] == rows[i]);
        }
        every_record_gives_an_example(context_key, rows.drop_last());
        assert(rows[rows.len() - 1].0 is Some);
    }
    assert(examples_of(context_key, rows) =~= all);
}

/// The key under which an interaction is stored.
pub open spec fn key_of(x: InteractionView) -> (Seq<char>, Seq<char>) {
    behavior_key(x.context_key, x.prompt, x.response)
}

/// What the table of learned behaviours stands for after `added` were stored
/// one after the other: under each key the interaction that came last.
pub open spec fn learned(added: Seq<InteractionView>) -> Map<
    (Seq<char>, Seq<char>),
    InteractionView,
>
    decreases added.len(),
{
    if added.len() == 0 {
        Map::empty()
    } else {
        learned(added.drop_last()).insert(key_of(added.last()), added.last())
    }
}

/// What was learned in a context.
pub open spec fn learned_in(added: Seq<InteractionView>, context_key: Seq<char>) -> Set<
    InteractionView,
> {
    Set::new(
        |x: InteractionView|
            x.context_key == context_key && learned(added).contains_pair(key_of(x), x),
    )
}

/// A number that orders the bits of singles as the singles are ordered, where
/// they are numbers; both zeros have the same.
pub open spec fn score_rank(bits: u32) -> int {
    if bits < 0x8000_0000 {
        bits as int
    } else {
        0x8000_0000 - bits
    }
}

/// Whether `picked` are the best of `found`, as many as there are up to
/// `limit`, better scores first.
pub open spec fn are_best(
    picked: Seq<InteractionView>,
    found: Set<InteractionView>,
    limit: nat,
) -> bool {
    &&& picked.len() == if found.len() < limit {
        found.len()
    } else {
        limit
    }
    &&& picked.no_duplicates()
    &&& forall|i: int| 0 <= i < picked.len() ==> found.contains(#[trigger] picked[i])
    &&& forall|i: int, j: int|
        0 <= i <= j < picked.len() ==> score_rank(
            (#[trigger] picked[i]).analysis.sentiment_score,
        ) >= score_rank((#[trigger] picked[j]).analysis.sentiment_score)
    &&& forall|x: InteractionView, i: int|
        #![trigger found.contains(x), picked[i]]
        found.contains(x) && !picked.contains(x) && 0 <= i < picked.len() ==> score_rank(
            x.analysis.sentiment_score,
        ) <= score_rank(picked[i].analysis.sentiment_score)
}

/// Where the rows hold the best that was learned in a context, as the query
/// asks for them, the examples are these interactions, unchanged and in that
/// order.
pub proof fn the_examples_are_the_best(
    added: Seq<InteractionView>,
    context_key: Seq<char>,
    limit: nat,
    picked: Seq<InteractionView>,
    rows: Seq<(Option<InteractionView>, i64)>,
)
    requires
        are_best(picked, learned_in(added, context_key), limit),
        rows.len() == picked.len(),
        forall|i: int|
            0 <= i < rows.len() ==> #[trigger] rows[i] == (
                Some(picked[i]),
                picked[i].timestamp as i64,
            ),
    ensures
        examples_of(context_key, rows) == picked,
        are_best(examples_of(context_key, rows), learned_in(added, context_key), limit),
        forall|i: int|
            0 <= i < picked.len() ==> (#[trigger] examples_of(context_key, rows)[i]).context_key
                == context_key,
{
    every_record_gives_an_example(context_key, rows);
    let given = examples_of(context_key, rows);
    assert forall|i: int| 0 <= i < picked.len() implies #[trigger] given[i] == picked[i] by {
        let t = picked[i].timestamp;
        assert(rows[i] == (Some(picked[i]), t as i64));
        assert((t as i64) as u64 == t) by (bit_vector);
        assert(learned_in(added, context_key).contains(picked[i]));
    }
    assert(given =~= picked);
}

/// Every learned interaction stands under its own key and was stored once.
proof fn learned_by_key(added: Seq<InteractionView>, key: (Seq<char>, Seq<char>))
    requires
        learned(added).dom().contains(key),
    ensures
        key_of(learned(added)[key]) == key,
        added.contains(learned(added)[key]),
    decreases added.len(),
{
    let before = added.drop_last();
    if key == key_of(added.last()) {
        assert(added[added.len() - 1] == learned(added)[key]);
    } else {
        learned_by_key(before, key);
        let i = choose|i: int| 0 <= i < before.len() && before[i] == learned(before)[key];
        assert(added[i] == learned(added)[key]);
    }
}

/// A context has learned no more than was stored.
pub proof fn what_was_learned_was_stored(added: Seq<InteractionView>, context_key: Seq<char>)
    ensures
        learned_in(added, context_key).subset_of(added.to_set()),
        learned_in(added, context_key).finite(),
        learned_in(added, context_key).len() <= added.len(),
{
    let found = learned_in(added, context_key);
    assert forall|x: InteractionView| found.contains(x) implies added.to_set().contains(x) by {
        learned_by_key(added, key_of(x));
    }
    added.lemma_cardinality_of_set();
    vstd::seq_lib::seq_to_set_is_finite(added);
    vstd::set_lib::lemma_len_subset(found, added.to_set());
}

/// An interaction that is stored is learned and replaces the one with the same
/// prompt and answer in its context. What other keys hold stays as it is.
pub proof fn the_last_interaction_stays(added: Seq<InteractionView>, x: InteractionView)
    ensures
        learned_in(added.push(x), x.context_key).contains(x),
        forall|y: InteractionView|
            #![trigger learned_in(added.push(x), y.context_key).contains(y)]
            key_of(y) == key_of(x) && learned_in(added.push(x), y.context_key).contains(y) ==> y
                == x,
        forall|y: InteractionView|
            #![trigger learned_in(added.push(x), y.context_key).contains(y)]
            key_of(y) != key_of(x) ==> learned_in(added.push(x), y.context_key).contains(y)
                == learned_in(added, y.context_key).contains(y),
{
    assert(added.push(x).drop_last() =~= added);
    assert(added.push(x).last() == x);
}

/// What is stored in one context changes nothing of what another one learned.
pub proof fn other_contexts_learn_nothing(
    added: Seq<InteractionView>,
    x: InteractionView,
    context_key: Seq<char>,
)
    requires
        x.context_key != context_key,
    ensures
        learned_in(added.push(x), context_key) == learned_in(added, context_key),
{
    assert(added.push(x).drop_last() =~= added);
    assert(added.push(x).last() == x);
    assert(learned_in(added.push(x), context_key) =~= learned_in(added, context_key));
}

// ---------------------------------------------------------------------------
// Profiles
// ---------------------------------------------------------------------------

/// What the bot knows of a person.
#[derive(Debug)]
pub struct UserProfile {
    /// Hashed identifier.
    pub id: String,
    pub name: Option<String>,
    pub nickname: Option<String>,
    pub personality_summary: String,
    /// Such as "casual" or "technical".
    pub interaction_style: String,
    pub topics_of_interest: Vec<String>,
    pub last_updated: u64,
}

/// What a profile of a person says.
#[verifier::ext_equal]
pub struct UserProfileView {
    pub id: Seq<char>,
    pub name: Option<Seq<char>>,
    pub nickname: Option<Seq<char>>,
    pub personality_summary: Seq<char>,
    pub interaction_style: Seq<char>,
    pub topics_of_interest: Seq<Seq<char>>,
    pub last_updated: u64,
}

impl View for UserProfile {
    type V = UserProfileView;

    open spec fn view(&self) -> UserProfileView {
        UserProfileView {
            id: self.id@,
            name: opt_view(self.name),
            nickname: opt_view(self.nickname),
            personality_summary: self.personality_summary@,
            interaction_style: self.interaction_style@,
            topics_of_interest: views(self.topics_of_interest@),
            last_updated: self.last_updated,
        }
    }
}

impl Clone for UserProfile {
    fn clone(&self) -> (r: Self)
        ensures
            r@ == self@,
    {
        let topics_of_interest = self.topics_of_interest.clone();
        assert(topics_of_interest@ =~= self.topics_of_interest@);
        UserProfile {
            id: self.id.clone(),
            name: self.name.clone(),
            nickname: self.nickname.clone(),
            personality_summary: self.personality_summary.clone(),
            interaction_style: self.interaction_style.clone(),
            topics_of_interest,
            last_updated: self.last_updated,
        }
    }
}

/// What the bot knows of a group.
#[derive(Debug)]
pub struct GroupProfile {
    /// Hashed group identifier.
    pub id: String,
    pub group_name: Option<String>,
    /// Such as "chaotic", "serious" or "meme-heavy".
    pub group_vibe: String,
    pub inside_jokes: Vec<String>,
    pub common_topics: Vec<String>,
    pub important_memories: Vec<String>,
    pub last_updated: u64,
}

/// What a profile of a group says.
#[verifier::ext_equal]
pub struct GroupProfileView {
    pub id: Seq<char>,
    pub group_name: Option<Seq<char>>,
    pub group_vibe: Seq<char>,
    pub inside_jokes: Seq<Seq<char>>,
    pub common_topics: Seq<Seq<char>>,
    pub important_memories: Seq<Seq<char>>,
    pub last_updated: u64,
}

impl View for GroupProfile {
    type V = GroupProfileView;

    open spec fn view(&self) -> GroupProfileView {
        GroupProfileView {
            id: self.id@,
            group_name: opt_view(self.group_name),
            group_vibe: self.group_vibe@,
            inside_jokes: views(self.inside_jokes@),
            common_topics: views(self.common_topics@),
            important_memories: views(self.important_memories@),
            last_updated: self.last_updated,
        }
    }
}

impl Clone for GroupProfile {
    fn clone(&self) -> (r: Self)
        ensures
            r@ == self@,
    {
        let inside_jokes = self.inside_jokes.clone();
        let common_topics = self.common_topics.clone();
        let important_memories = self.important_memories.clone();
        assert(inside_jokes@ =~= self.inside_jokes@);
        assert(common_topics@ =~= self.common_topics@);
        assert(important_memories@ =~= self.important_memories@);
        GroupProfile {
            id: self.id.clone(),
            group_name: self.group_name.clone(),
            group_vibe: self.group_vibe.clone(),
            inside_jokes,
            common_topics,
            important_memories,
            last_updated: self.last_updated,
        }
    }
}

/// The profile of a person of whom nothing is known but perhaps the name.
pub open spec fn new_user_profile(id: Seq<char>, name: Option<Seq<char>>) -> UserProfileView {
    UserProfileView {
        id,
        name,
        nickname: None,
        personality_summary: "New user"@,
        interaction_style: "neutral"@,
        topics_of_interest: Seq::empty(),
        last_updated: 0,
    }
}

/// The profile of a group of which nothing is known but perhaps the name.
pub open spec fn new_group_profile(id: Seq<char>, name: Option<Seq<char>>) -> GroupProfileView {
    GroupProfileView {
        id,
        group_name: name,
        group_vibe: "Neutral"@,
        inside_jokes: Seq::empty(),
        common_topics: Seq::empty(),
        important_memories: Seq::empty(),
        last_updated: 0,
    }
}

/// Stores the profile of a person: identifier, blob and time.
pub const INSERT_PROFILE_SQL: &'static str = "INSERT INTO user_profiles (user_id, encrypted_blob, last_updated) VALUES (?, ?, ?)
             ON CONFLICT(user_id) DO UPDATE SET encrypted_blob = excluded.encrypted_blob, last_updated = excluded.last_updated";

/// Reads the profile of a person.
pub const SELECT_PROFILE_SQL: &'static str = "SELECT encrypted_blob FROM user_profiles WHERE user_id = ?";

/// Stores the profile of a group: identifier, blob and time.
pub const INSERT_GROUP_PROFILE_SQL: &'static str = "INSERT INTO group_profiles (group_id, encrypted_blob, last_updated) VALUES (?, ?, ?)
             ON CONFLICT(group_id) DO UPDATE SET encrypted_blob = excluded.encrypted_blob, last_updated = excluded.last_updated";

/// Reads the profile of a group.
pub const SELECT_GROUP_PROFILE_SQL: &'static str = "SELECT encrypted_blob FROM group_profiles WHERE group_id = ?";

/// A row of a table of profiles.
#[derive(Debug)]
pub struct ProfileRow {
    pub id: String,
    pub encrypted_blob: Vec<u8>,
    pub last_updated: i64,
}

/// The store of profiles.
#[derive(Debug, Clone, Copy)]
pub struct DbProfileManager {
    encryption_key: [u8; 32],
}

impl DbProfileManager {
    /// The key under which the store encrypts.
    pub closed spec fn key(self) -> Seq<u8> {
        self.encryption_key@
    }

    /// A store with a key in hexadecimal digits.
    pub fn new(key_hex: &str) -> (r: Result<DbProfileManager, KeyError>)
        ensures
            !is_hex(key_hex@) ==> r == Err::<DbProfileManager, KeyError>(KeyError::InvalidHex),
            is_hex(key_hex@) && key_hex@.len() != 64 ==> r == Err::<DbProfileManager, KeyError>(
                KeyError::WrongLength,
            ),
            is_hex(key_hex@) && key_hex@.len() == 64 ==> (r matches Ok(m) && m.key() == hex_bytes(
                key_hex@,
            )),
    {
        match parse_encryption_key(key_hex) {
            Ok(encryption_key) => Ok(DbProfileManager { encryption_key }),
            Err(e) => Err(e),
        }
    }

    /// A store with a given key.
    pub fn from_key(encryption_key: [u8; 32]) -> (r: DbProfileManager)
        ensures
            r.key() == encryption_key@,
    {
        DbProfileManager { encryption_key }
    }

    /// The identifier under which the profile of `raw_id` is kept.
    pub fn get_profile_id(raw_id: &str) -> (r: String)
        ensures
            r@ == profile_id(raw_id@),
            r@.len() == 64,
    {
        let digest = sha256(raw_id.as_bytes());
        hex_encode(digest.as_slice())
    }

    /// Encrypts `data` under a fresh random nonce.
    pub fn encrypt(&self, data: &[u8]) -> (r: Result<Vec<u8>, BlobError>)
        requires
            cipher_handles(data@.len() as int),
        ensures
            cipher_accepts(data@.len() as int) ==> (r matches Ok(blob) && is_sealed(
                self.key(),
                blob@,
                data@,
            ) && blob_plaintext(self.key(), blob@) == Some(data@)),
            !cipher_accepts(data@.len() as int) ==> r == Err::<Vec<u8>, BlobError>(
                BlobError::EncryptionFailure,
            ),
    {
        encrypt_blob(&self.encryption_key, data)
    }

    /// Decrypts a blob.
    pub fn decrypt(&self, blob: &[u8]) -> (r: Result<Vec<u8>, BlobError>)
        requires
            blob_handled(blob@.len() as int),
        ensures
            blob@.len() < NONCE_LEN ==> r == Err::<Vec<u8>, BlobError>(BlobError::TooShort),
            blob@.len() >= NONCE_LEN && blob_plaintext(self.key(), blob@) is None ==> r == Err::<
                Vec<u8>,
                BlobError,
            >(BlobError::DecryptionFailure),
            blob_plaintext(self.key(), blob@) matches Some(p) ==> (r matches Ok(v) && v@ == p),
            blob@.len() < NONCE_LEN + TAG_LEN ==> r is Err,
            NONCE_LEN <= blob@.len() < NONCE_LEN + TAG_LEN ==> r == Err::<Vec<u8>, BlobError>(
                BlobError::DecryptionFailure,
            ),
            r matches Ok(v) ==> is_sealed(self.key(), blob@, v@),
    {
        decrypt_blob(&self.encryption_key, blob)
    }

    /// The profile of a person, from what is stored under the person's
    /// identifier. A current name replaces another one. The second result says
    /// whether the stored profile has to be written anew.
    pub fn get_profile(
        raw_id: &str,
        stored: Option<UserProfile>,
        current_name: Option<String>,
    ) -> (r: (UserProfile, bool))
        ensures
            ({
                let found = match stored {
                    Some(p) => p@,
                    None => new_user_profile(profile_id(raw_id@), opt_view(current_name)),
                };
                &&& current_name is None ==> r.0@ == found && !r.1
                &&& current_name is Some ==> r.0@ == (UserProfileView {
                    name: opt_view(current_name),
                    ..found
                })
                &&& current_name is Some ==> (r.1 <==> found.name != opt_view(current_name))
            }),
    {
        let mut profile = match stored {
            Some(profile) => profile,
            None => {
                let fresh = UserProfile {
                    id: Self::get_profile_id(raw_id),
                    name: current_name.clone(),
                    nickname: None,
                    personality_summary: "New user".to_string(),
                    interaction_style: "neutral".to_string(),
                    topics_of_interest: Vec::new(),
                    last_updated: 0,
                };
                assert(fresh@.topics_of_interest =~= Seq::empty());
                fresh
            },
        };
        match current_name {
            Some(new_name) => {
                if is_text(&profile.name, new_name.as_str()) {
                    (profile, false)
                } else {
                    profile.name = Some(new_name);
                    (profile, true)
                }
            },
            None => (profile, false),
        }
    }

    /// The row that stores a profile of a person which reads `json`.
    pub fn save_profile(&self, id: &str, json: &[u8], now: i64) -> (r: Result<
        ProfileRow,
        BlobError,
    >)
        requires
            cipher_handles(json@.len() as int),
        ensures
            r is Ok <==> cipher_accepts(json@.len() as int),
            r matches Ok(row) ==> row.id@ == id@ && row.last_updated == now && blob_plaintext(
                self.key(),
                row.encrypted_blob@,
            ) == Some(json@) && is_sealed(self.key(), row.encrypted_blob@, json@),
            r matches Err(e) ==> e == BlobError::EncryptionFailure,
    {
        match self.encrypt(json) {
            Ok(encrypted_blob) => Ok(
                ProfileRow { id: id.to_string(), encrypted_blob, last_updated: now },
            ),
            Err(e) => Err(e),
        }
    }

    /// The profile of a group, from what is stored under the group's
    /// identifier. A current name replaces another one. The second result says
    /// whether the stored profile has to be written anew.
    pub fn get_group_profile(
        raw_id: &str,
        stored: Option<GroupProfile>,
        current_name: Option<String>,
    ) -> (r: (GroupProfile, bool))
        ensures
            ({
                let found = match stored {
                    Some(p) => p@,
                    None => new_group_profile(profile_id(raw_id@), opt_view(current_name)),
                };
                &&& current_name is None ==> r.0@ == found && !r.1
                &&& current_name is Some ==> r.0@ == (GroupProfileView {
                    group_name: opt_view(current_name),
                    ..found
                })
                &&& current_name is Some ==> (r.1 <==> found.group_name != opt_view(current_name))
            }),
    {
        let mut profile = match stored {
            Some(profile) => profile,
            None => {
                let fresh = GroupProfile {
                    id: Self::get_profile_id(raw_id),
                    group_name: current_name.clone(),
                    group_vibe: "Neutral".to_string(),
                    inside_jokes: Vec::new(),
                    common_topics: Vec::new(),
                    important_memories: Vec::new(),
                    last_updated: 0,
                };
                assert(fresh@.inside_jokes =~= Seq::empty());
                assert(fresh@.common_topics =~= Seq::empty());
                assert(fresh@.important_memories =~= Seq::empty());
                fresh
            },
        };
        match current_name {
            Some(new_name) => {
                if is_text(&profile.group_name, new_name.as_str()) {
                    (profile, false)
                } else {
                    profile.group_name = Some(new_name);
                    (profile, true)
                }
            },
            None => (profile, false),
        }
    }

    /// The row that stores a profile of a group which reads `json`.
    pub fn save_group_profile(&self, id: &str, json: &[u8], now: i64) -> (r: Result<
        ProfileRow,
        BlobError,
    >)
        requires
            cipher_handles(json@.len() as int),
        ensures
            r is Ok <==> cipher_accepts(json@.len() as int),
            r matches Ok(row) ==> row.id@ == id@ && row.last_updated == now && blob_plaintext(
                self.key(),
                row.encrypted_blob@,
            ) == Some(json@) && is_sealed(self.key(), row.encrypted_blob@, json@),
            r matches Err(e) ==> e == BlobError::EncryptionFailure,
    {
        self.save_profile(id, json, now)
    }
}

proof fn lemma_bytes_of_both(a: Seq<char>, b: Seq<char>)
    ensures
        encode_utf8(a + b) == encode_utf8(a) + encode_utf8(b),
    decreases a.len(),
{
    if a.len() == 0 {
        assert(a + b =~= b);
        assert(encode_utf8(a) + encode_utf8(b) =~= encode_utf8(b));
    } else {
        lemma_bytes_of_both(a.drop_first(), b);
        assert((a + b).drop_first() =~= a.drop_first() + b);
        assert((a + b)[0] == a[0]);
        assert(encode_utf8(a + b) =~= encode_utf8(a) + encode_utf8(b));
    }
}

/// The digest of an interaction is that of one text: the prompt, three colons
/// and the response.
pub proof fn interactions_are_known_by_their_texts(prompt: Seq<char>, response: Seq<char>)
    ensures
        interaction_digest(prompt, response) == profile_id(prompt + ":::"@ + response),
{
    lemma_bytes_of_both(prompt, ":::"@);
    lemma_bytes_of_both(prompt + ":::"@, response);
}

/// Two identifiers have the same profile exactly where their digests are the
/// same, and the digest is over the whole identifier.
pub proof fn profiles_are_known_by_their_digests(a: Seq<char>, b: Seq<char>)
    ensures
        profile_id(a) == profile_id(b) <==> sha256_digest(encode_utf8(a)) == sha256_digest(
            encode_utf8(b),
        ),
{
    if profile_id(a) == profile_id(b) {
        crate::crypto::hex_text_is_injective(
            sha256_digest(encode_utf8(a)),
            sha256_digest(encode_utf8(b)),
        );
    }
}

/// Of somebody new, and of a new group, nothing is known but the identifier and
/// the name that is given.
pub proof fn new_profiles_know_but_the_name(id: Seq<char>, name: Option<Seq<char>>)
    ensures
        ({
            let person = new_user_profile(id, name);
            &&& person.id == id
            &&& person.name == name
            &&& person.nickname is None
            &&& person.topics_of_interest.len() == 0
            &&& person.last_updated == 0
        }),
        ({
            let group = new_group_profile(id, name);
            &&& group.id == id
            &&& group.group_name == name
            &&& group.inside_jokes.len() == 0
            &&& group.common_topics.len() == 0
            &&& group.important_memories.len() == 0
            &&& group.last_updated == 0
        }),
{
}

/// Rows that the key does not open are left out, and the rest is read as if they
/// had not been there.
pub proof fn unreadable_rows_are_left_out(
    key: Seq<u8>,
    before: Seq<(Seq<u8>, i64)>,
    row: (Seq<u8>, i64),
    behind: Seq<(Seq<u8>, i64)>,
)
    requires
        blob_plaintext(key, row.0) is None,
    ensures
        readable_rows(key, before.push(row) + behind) == readable_rows(key, before + behind),
    decreases behind.len(),
{
    let with = before.push(row) + behind;
    let less = before + behind;
    if behind.len() == 0 {
        assert(with.drop_last() =~= before);
        assert(less =~= before);
        assert(with.last() == row);
    } else {
        unreadable_rows_are_left_out(key, before, row, behind.drop_last());
        assert(with.drop_last() =~= before.push(row) + behind.drop_last());
        assert(less.drop_last() =~= before + behind.drop_last());
        assert(with.last() == behind.last() && less.last() == behind.last());
    }
}

/// Records that cannot be read are left out, and the rest gives the same
/// examples as if they had not been there.
pub proof fn unreadable_records_are_left_out(
    context_key: Seq<char>,
    before: Seq<(Option<InteractionView>, i64)>,
    time: i64,
    behind: Seq<(Option<InteractionView>, i64)>,
)
    ensures
        examples_of(context_key, before.push((None, time)) + behind) == examples_of(
            context_key,
            before + behind,
        ),
    decreases behind.len(),
{
    let with = before.push((None, time)) + behind;
    let less = before + behind;
    if behind.len() == 0 {
        assert(with.drop_last() =~= before);
        assert(less =~= before);
        assert(with.last() == (None::<InteractionView>, time));
    } else {
        unreadable_records_are_left_out(context_key, before, time, behind.drop_last());
        assert(with.drop_last() =~= before.push((None, time)) + behind.drop_last());
        assert(less.drop_last() =~= before + behind.drop_last());
        assert(with.last() == behind.last() && less.last() == behind.last());
    }
}

} // verus!
