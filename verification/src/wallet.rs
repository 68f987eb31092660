//! Identity records and the layout of the wallet directory.
//!
//! The wallet lives in `<home>/.solana-key-manager/`; each identity is the
//! file `identities/<name>.enc`, holding its name, public key, whether it
//! came from a mnemonic, and its secret key encrypted under a password.
//! Paths are strings joined as `PathBuf::join` joins them on Unix.
use vstd::prelude::*;
use vstd::string::{StrSliceExecFns, StringExecFns};
use crate::bytes::prefix_array;
use crate::crypto::{
    decrypt, decryption, encrypt, encryption, payload_result,
    EncryptedPayload, EncryptedPayloadView,
};
use crate::ed25519::{ed25519_public_key, group_key_lengths, SigningKey};
use crate::encoding::base58_encode;
use crate::error::KmError;
use crate::keygen::pubkey_to_base58;
use crate::text::{lemma_lex_le_total, lemma_lex_le_transitive, lex_le};

verus! {

broadcast use group_key_lengths;

// ------------------------------------------------------------ paths

/// `base` joined with `component` as `PathBuf::join` does on Unix: an
/// absolute component replaces the base; otherwise a `/` separates them
/// unless the base is empty or already ends in one.
pub open spec fn join(base: Seq<char>, component: Seq<char>) -> Seq<char> {
    if component.len() > 0 && component[0] == '/' {
        component
    } else if base.len() == 0 || base.last() == '/' {
        base + component
    } else {
        base + seq!['/'] + component
    }
}

/// The wallet directory under the home directory `home`.
pub open spec fn wallet_root(home: Seq<char>) -> Seq<char> {
    join(home, ".solana-key-manager"@)
}

/// The directory of identity files under the home directory `home`.
pub open spec fn identities_path(home: Seq<char>) -> Seq<char> {
    join(wallet_root(home), "identities"@)
}

/// The file of the identity `name` under the home directory `home`.
pub open spec fn identity_file(home: Seq<char>, name: Seq<char>) -> Seq<char> {
    join(identities_path(home), name + ".enc"@)
}

/// The wallet's configuration file under the home directory `home`.
pub open spec fn config_file(home: Seq<char>) -> Seq<char> {
    join(wallet_root(home), "config.toml"@)
}

/// A path under the home directory, or `HomeNotSet` where there is none.
pub open spec fn under_home(home: Option<&str>, path: spec_fn(Seq<char>) -> Seq<char>) -> Result<Seq<char>, KmError> {
    match home {
        Some(h) => Ok(path(h@)),
        None => Err(KmError::HomeNotSet),
    }
}

/// The contents of a result that carries a path.
pub open spec fn path_result(r: Result<String, KmError>) -> Result<Seq<char>, KmError> {
    match r {
        Ok(p) => Ok(p@),
        Err(e) => Err(e),
    }
}

/// `base` joined with `component` (see `join`).
fn join_path(base: &str, component: &str) -> (path: String)
    ensures
        path@ == join(base@, component@),
{
    let clen = component.unicode_len();
    if clen > 0 && component.get_char(0) == '/' {
        return component.to_owned();
    }
    let blen = base.unicode_len();
    let mut path = base.to_owned();
    if blen > 0 && base.get_char(blen - 1) != '/' {
        path.append("/");
        proof {
            reveal_strlit("/");
        }
    }
    path.append(component);
    assert(path@ =~= join(base@, component@));
    path
}

/// The wallet directory `<home>/.solana-key-manager`, or `HomeNotSet` where
/// `home` (the value of `HOME`) is absent.
pub fn wallet_dir(home: Option<&str>) -> (dir: Result<String, KmError>)
    ensures
        path_result(dir) == under_home(home, |h: Seq<char>| wallet_root(h)),
{
    match home {
        Some(h) => Ok(join_path(h, ".solana-key-manager")),
        None => Err(KmError::HomeNotSet),
    }
}

/// The directory of identity files: `<home>/.solana-key-manager/identities`.
pub fn identities_dir(home: Option<&str>) -> (dir: Result<String, KmError>)
    ensures
        path_result(dir) == under_home(home, |h: Seq<char>| identities_path(h)),
{
    let root = wallet_dir(home)?;
    Ok(join_path(root.as_str(), "identities"))
}

/// The wallet's configuration file: `<home>/.solana-key-manager/config.toml`.
pub fn config_path(home: Option<&str>) -> (path: Result<String, KmError>)
    ensures
        path_result(path) == under_home(home, |h: Seq<char>| config_file(h)),
{
    let root = wallet_dir(home)?;
    Ok(join_path(root.as_str(), "config.toml"))
}

/// The file of the identity `name`: `<identities dir>/<name>.enc`.
pub fn identity_path(home: Option<&str>, name: &str) -> (path: Result<String, KmError>)
    ensures
        path_result(path) == under_home(home, |h: Seq<char>| identity_file(h, name@)),
{
    let dir = identities_dir(home)?;
    let file = name.to_owned().concat(".enc");
    Ok(join_path(dir.as_str(), file.as_str()))
}

/// Every identity file sits directly in the identities directory, named
/// after the identity with the extension `.enc`, for any name that is not
/// an absolute path.
pub proof fn lemma_identity_file_in_identities_dir(home: Seq<char>, name: Seq<char>)
    requires
        name.len() == 0 || name[0] != '/',
    ensures
        identity_file(home, name) == identities_path(home) + seq!['/'] + name + ".enc"@,
{
    reveal_strlit("identities");
    reveal_strlit(".enc");
    reveal_strlit(".solana-key-manager");
    assert(identities_path(home).len() > 0 && identities_path(home).last() == 's');
    assert((name + ".enc"@)[0] != '/');
    assert(identities_path(home) + seq!['/'] + (name + ".enc"@) =~= identities_path(home) + seq!['/'] + name
        + ".enc"@);
}

/// Distinct identity names that are not absolute paths have distinct
/// files, so saving one identity never overwrites another.
pub proof fn lemma_identity_files_distinct(home: Seq<char>, n1: Seq<char>, n2: Seq<char>)
    requires
        n1.len() == 0 || n1[0] != '/',
        n2.len() == 0 || n2[0] != '/',
        n1 != n2,
    ensures
        identity_file(home, n1) != identity_file(home, n2),
{
    lemma_identity_file_in_identities_dir(home, n1);
    lemma_identity_file_in_identities_dir(home, n2);
    let prefix = identities_path(home) + seq!['/'];
    let f1 = identity_file(home, n1);
    let f2 = identity_file(home, n2);
    if f1 == f2 {
        reveal_strlit(".enc");
        assert((".enc"@).len() == 4);
        assert(f1 =~= prefix + n1 + ".enc"@);
        assert(f2 =~= prefix + n2 + ".enc"@);
        assert(n1.len() == n2.len());
        assert(f1.subrange(prefix.len() as int, (prefix.len() + n1.len()) as int) =~= n1);
        assert(f2.subrange(prefix.len() as int, (prefix.len() + n2.len()) as int) =~= n2);
    }
}

/// Whether a file name has the extension `enc`, as `Path::extension` reads
/// it: the name ends in `.enc` and something precedes that dot.
pub open spec fn has_enc_extension(file_name: Seq<char>) -> bool {
    file_name.len() > 4 && file_name.subrange(file_name.len() - 4, file_name.len() as int) == seq![
        '.',
        'e',
        'n',
        'c',
    ]
}

/// Whether the directory entry `file_name` is an identity file.
pub fn is_identity_file(file_name: &str) -> (identity: bool)
    ensures
        identity == has_enc_extension(file_name@),
{
    let n = file_name.unicode_len();
    if n <= 4 {
        return false;
    }
    let is_enc = file_name.get_char(n - 4) == '.' && file_name.get_char(n - 3) == 'e'
        && file_name.get_char(n - 2) == 'n' && file_name.get_char(n - 1) == 'c';
    assert(is_enc == (file_name@.subrange(n - 4, n as int) =~= seq!['.', 'e', 'n', 'c']));
    is_enc
}

// ------------------------------------------------------------ records

/// A stored identity: what an identity file holds.
#[derive(Clone)]
pub struct StoredIdentity {
    pub name: String,
    pub pubkey: String,
    pub has_mnemonic: bool,
    pub encrypted: EncryptedPayload,
}

/// The contents of a `StoredIdentity`.
pub struct StoredIdentityView {
    pub name: Seq<char>,
    pub pubkey: Seq<char>,
    pub has_mnemonic: bool,
    pub encrypted: EncryptedPayloadView,
}

impl View for StoredIdentity {
    type V = StoredIdentityView;

    open spec fn view(&self) -> StoredIdentityView {
        StoredIdentityView {
            name: self.name@,
            pubkey: self.pubkey@,
            has_mnemonic: self.has_mnemonic,
            encrypted: self.encrypted@,
        }
    }
}

/// The contents of a result that carries an identity.
pub open spec fn identity_result(r: Result<StoredIdentity, KmError>) -> Result<StoredIdentityView, KmError> {
    match r {
        Ok(i) => Ok(i@),
        Err(e) => Err(e),
    }
}

/// The record that saving the secret key `secret` as `name` under
/// `password` gives when the encryption draws `salt` and `nonce`, or why it
/// fails.
pub open spec fn stored_identity(
    name: Seq<char>,
    secret: Seq<u8>,
    password: Seq<char>,
    has_mnemonic: bool,
    salt: Seq<u8>,
    nonce: Seq<u8>,
) -> Result<StoredIdentityView, KmError> {
    match encryption(secret, password, salt, nonce) {
        Err(e) => Err(e),
        Ok(encrypted) => Ok(
            StoredIdentityView {
                name: name,
                pubkey: base58_encode(ed25519_public_key(secret)),
                has_mnemonic: has_mnemonic,
                encrypted: encrypted,
            },
        ),
    }
}

/// The secret key that unlocking an identity's payload under `password`
/// gives: the first 32 decrypted bytes, or why it fails.
pub open spec fn unlocked_secret(encrypted: EncryptedPayloadView, password: Seq<char>) -> Result<Seq<u8>, KmError> {
    match decryption(encrypted, password) {
        Err(e) => Err(e),
        Ok(bytes) => if bytes.len() < 32 {
            Err(KmError::DecryptedKeyTooShort)
        } else {
            Ok(bytes.take(32))
        },
    }
}

/// The contents of a result that carries a signing key.
pub open spec fn signing_key_result(r: Result<SigningKey, KmError>) -> Result<Seq<u8>, KmError> {
    match r {
        Ok(k) => Ok(k@),
        Err(e) => Err(e),
    }
}

impl StoredIdentity {
    /// Decrypts the identity's secret key under `password`. An identity
    /// saved from a key under the same password gives that key back.
    pub fn decrypt_signing_key(&self, password: &str) -> (key: Result<SigningKey, KmError>)
        ensures
            signing_key_result(key) == unlocked_secret(self.encrypted@, password@),
            forall|secret: Seq<u8>, salt: Seq<u8>, nonce: Seq<u8>|
                secret.len() == 32 && salt.len() == 32 && nonce.len() == 12
                    && #[trigger] encryption(secret, password@, salt, nonce)
                    == Ok::<EncryptedPayloadView, KmError>(self.encrypted@)
                    ==> signing_key_result(key) == Ok::<Seq<u8>, KmError>(secret),
    {
        let bytes = decrypt(&self.encrypted, password)?;
        if bytes.len() < 32 {
            return Err(KmError::DecryptedKeyTooShort);
        }
        let secret: [u8; 32] = prefix_array(bytes.as_slice());
        proof {
            assert forall|s: Seq<u8>, salt: Seq<u8>, nonce: Seq<u8>|
                s.len() == 32 && salt.len() == 32 && nonce.len() == 12 && #[trigger] encryption(
                    s,
                    password@,
                    salt,
                    nonce,
                ) == Ok::<EncryptedPayloadView, KmError>(self.encrypted@) implies secret@ == s by {
                assert(bytes@ == s);
                assert(s.take(32) =~= s);
            }
        }
        Ok(SigningKey::from_bytes(&secret))
    }
}

/// Builds the record under which `signing_key` is saved as `name`: its
/// public key in base58 and the secret key encrypted under `password` with
/// a fresh salt and nonce. Writing the record to `identity_path` is left to
/// the caller.
pub fn save_identity(name: &str, signing_key: &SigningKey, password: &str, has_mnemonic: bool) -> (identity: Result<StoredIdentity, KmError>)
    ensures
        exists|salt: Seq<u8>, nonce: Seq<u8>|
            salt.len() == 32 && nonce.len() == 12 && identity_result(identity)
                == #[trigger] stored_identity(name@, signing_key@, password@, has_mnemonic, salt, nonce),
{
    let secret = signing_key.to_bytes();
    let encrypted = encrypt(secret.as_slice(), password);
    let ghost (salt, nonce) = choose|salt: Seq<u8>, nonce: Seq<u8>|
        salt.len() == 32 && nonce.len() == 12 && payload_result(encrypted)
            == #[trigger] encryption(secret@, password@, salt, nonce);
    let encrypted = match encrypted {
        Ok(e) => e,
        Err(e) => {
            assert(identity_result(Err(e)) == stored_identity(name@, signing_key@, password@, has_mnemonic, salt, nonce));
            return Err(e);
        },
    };
    let identity = StoredIdentity {
        name: name.to_owned(),
        pubkey: pubkey_to_base58(&signing_key.verifying_key()),
        has_mnemonic,
        encrypted,
    };
    assert(identity_result(Ok(identity)) == stored_identity(name@, signing_key@, password@, has_mnemonic, salt, nonce));
    Ok(identity)
}

/// The outcome of loading `identity` with `password`: the identity itself
/// where its secret key decrypts, else the decryption error wrapped as
/// `WrongPasswordOrCorrupted`.
pub open spec fn loading(identity: StoredIdentityView, password: Seq<char>) -> Result<StoredIdentityView, KmError> {
    match unlocked_secret(identity.encrypted, password) {
        Ok(_) => Ok(identity),
        Err(e) => Err(KmError::WrongPasswordOrCorrupted(Box::new(e))),
    }
}

/// Checks `password` against the identity read from its file: the identity
/// where its secret key decrypts under the password. An identity saved by
/// `save_identity` under the same password loads.
pub fn load_identity(identity: StoredIdentity, password: &str) -> (loaded: Result<StoredIdentity, KmError>)
    ensures
        identity_result(loaded) == loading(identity@, password@),
        forall|name: Seq<char>, secret: Seq<u8>, has_mnemonic: bool, salt: Seq<u8>, nonce: Seq<u8>|
            secret.len() == 32 && salt.len() == 32 && nonce.len() == 12
                && #[trigger] stored_identity(name, secret, password@, has_mnemonic, salt, nonce)
                == Ok::<StoredIdentityView, KmError>(identity@)
                ==> identity_result(loaded) == Ok::<StoredIdentityView, KmError>(identity@),
{
    match identity.decrypt_signing_key(password) {
        Ok(_) => Ok(identity),
        Err(e) => {
            proof {
                assert forall|name: Seq<char>, secret: Seq<u8>, has_mnemonic: bool, salt: Seq<u8>, nonce: Seq<u8>|
                    secret.len() == 32 && salt.len() == 32 && nonce.len() == 12 && #[trigger] stored_identity(
                        name,
                        secret,
                        password@,
                        has_mnemonic,
                        salt,
                        nonce,
                    ) == Ok::<StoredIdentityView, KmError>(identity@) implies false by {
                    assert(encryption(secret, password@, salt, nonce) == Ok::<EncryptedPayloadView, KmError>(identity@.encrypted));
                }
            }
            Err(KmError::WrongPasswordOrCorrupted(Box::new(e)))
        },
    }
}

// ------------------------------------------------------------ listing

/// What the list of identities shows of one identity.
#[derive(Debug)]
pub struct IdentitySummary {
    pub name: String,
    pub pubkey: String,
    pub has_mnemonic: bool,
}

/// The contents of an `IdentitySummary`.
pub struct IdentitySummaryView {
    pub name: Seq<char>,
    pub pubkey: Seq<char>,
    pub has_mnemonic: bool,
}

impl View for IdentitySummary {
    type V = IdentitySummaryView;

    open spec fn view(&self) -> IdentitySummaryView {
        IdentitySummaryView { name: self.name@, pubkey: self.pubkey@, has_mnemonic: self.has_mnemonic }
    }
}

/// The summary of a stored identity.
pub open spec fn summary_of(identity: StoredIdentity) -> IdentitySummaryView {
    IdentitySummaryView { name: identity.name@, pubkey: identity.pubkey@, has_mnemonic: identity.has_mnemonic }
}

/// The summaries of the stored identities `found`, in their order.
pub open spec fn found_summaries(found: Seq<StoredIdentity>) -> Seq<IdentitySummaryView> {
    found.map_values(|i: StoredIdentity| summary_of(i))
}

/// The summaries in `s` are in the order of their names.
pub open spec fn sorted_by_name(s: Seq<IdentitySummary>) -> bool {
    forall|i: int, j: int| 0 <= i < j < s.len() ==> lex_le(#[trigger] s[i].name@, #[trigger] s[j].name@)
}

/// The views of a sequence of summaries.
pub open spec fn summary_views(s: Seq<IdentitySummary>) -> Seq<IdentitySummaryView> {
    s.map_values(|x: IdentitySummary| x@)
}

/// Whether `a` comes before `b`, or equals it, as `String`'s order has it.
fn name_le(a: &str, b: &str) -> (le: bool)
    ensures
        le == lex_le(a@, b@),
{
    let alen = a.unicode_len();
    let blen = b.unicode_len();
    let mut i: usize = 0;
    assert(a@.skip(0) =~= a@);
    assert(b@.skip(0) =~= b@);
    while i < alen && i < blen
        invariant
            alen == a@.len(),
            blen == b@.len(),
            i <= alen,
            i <= blen,
            lex_le(a@, b@) == lex_le(a@.skip(i as int), b@.skip(i as int)),
        decreases alen - i,
    {
        let ca = a.get_char(i) as u32;
        let cb = b.get_char(i) as u32;
        if ca != cb {
            return ca < cb;
        }
        assert(a@.skip(i as int).drop_first() =~= a@.skip(i + 1));
        assert(b@.skip(i as int).drop_first() =~= b@.skip(i + 1));
        i = i + 1;
    }
    i == alen
}

/// `order` tells, for each summary of `out`, which summary of `items` it
/// is: `out` holds each of `items` exactly once, and summaries with the
/// same name keep the order they had in `items`.
pub open spec fn stable_arrangement(
    out: Seq<IdentitySummaryView>,
    items: Seq<IdentitySummaryView>,
    order: Seq<int>,
) -> bool {
    &&& out.len() == items.len()
    &&& order.len() == out.len()
    &&& forall|m: int| 0 <= m < out.len() ==> 0 <= #[trigger] order[m] < items.len() && out[m] == items[order[m]]
    &&& forall|a: int, b: int| 0 <= a < b < out.len() ==> #[trigger] order[a] != #[trigger] order[b]
    &&& forall|a: int, b: int|
        0 <= a < b < out.len() && #[trigger] out[a].name == #[trigger] out[b].name ==> order[a] < order[b]
}

/// The summaries of the identities found in the wallet, in the order of
/// their names; identities with the same name keep the order in which they
/// were found.
pub fn list_identities(found: Vec<StoredIdentity>) -> (summaries: Vec<IdentitySummary>)
    ensures
        sorted_by_name(summaries@),
        exists|order: Seq<int>|
            #[trigger] stable_arrangement(
                summary_views(summaries@),
                found_summaries(found@),
                order,
            ),
        summary_views(summaries@).to_multiset() =~= found_summaries(found@).to_multiset(),
{
    let ghost wanted = found_summaries(found@);
    let mut summaries: Vec<IdentitySummary> = Vec::new();
    let ghost mut order: Seq<int> = Seq::empty();
    let mut k: usize = 0;
    assert(summary_views(summaries@) =~= wanted.take(0));
    while k < found.len()
        invariant
            k <= found@.len(),
            wanted == found_summaries(found@),
            sorted_by_name(summaries@),
            stable_arrangement(summary_views(summaries@), wanted.take(k as int), order),
            summary_views(summaries@).to_multiset() =~= wanted.take(k as int).to_multiset(),
        decreases found@.len() - k,
    {
        let entry = IdentitySummary {
            name: found[k].name.clone(),
            pubkey: found[k].pubkey.clone(),
            has_mnemonic: found[k].has_mnemonic,
        };
        assert(entry@ == wanted[k as int]);
        let mut j: usize = 0;
        while j < summaries.len() && name_le(summaries[j].name.as_str(), entry.name.as_str())
            invariant
                j <= summaries@.len(),
                forall|m: int| 0 <= m < j ==> lex_le(#[trigger] summaries@[m].name@, entry.name@),
            decreases summaries@.len() - j,
        {
            j = j + 1;
        }
        let ghost before = summaries@;
        let ghost old_order = order;
        proof {
            if j < before.len() {
                assert(!lex_le(before[j as int].name@, entry.name@));
                lemma_lex_le_total(before[j as int].name@, entry.name@);
                assert forall|m: int| j <= m < before.len() implies lex_le(entry.name@, #[trigger] before[m].name@)
                    && before[m].name@ != entry.name@ by {
                    if m > j {
                        lemma_lex_le_transitive(entry.name@, before[j as int].name@, before[m].name@);
                    }
                    if before[m].name@ == entry.name@ {
                        lemma_lex_le_transitive(before[j as int].name@, before[m].name@, entry.name@);
                    }
                }
            }
        }
        summaries.insert(j, entry);
        proof {
            order = old_order.insert(j as int, k as int);
            assert forall|a: int, b: int| 0 <= a < b < summaries@.len() implies lex_le(
                #[trigger] summaries@[a].name@,
                #[trigger] summaries@[b].name@,
            ) by {
                if a < j && b > j {
                    lemma_lex_le_transitive(before[a].name@, entry.name@, before[b - 1].name@);
                }
            }
            let views = summary_views(summaries@);
            let items = wanted.take(k + 1);
            assert(views =~= summary_views(before).insert(j as int, entry@));
            assert forall|m: int| 0 <= m < views.len() implies 0 <= #[trigger] order[m] < items.len()
                && views[m] == items[order[m]] by {
                if m > j {
                    assert(order[m] == old_order[m - 1]);
                }
            }
            assert forall|a: int, b: int| 0 <= a < b < views.len() implies #[trigger] order[a]
                != #[trigger] order[b] by {
                if a != j && b != j {
                    let oa = if a < j { a } else { a - 1 };
                    let ob = if b < j { b } else { b - 1 };
                    assert(old_order[oa] != old_order[ob]);
                }
            }
            assert forall|a: int, b: int|
                0 <= a < b < views.len() && #[trigger] views[a].name == #[trigger] views[b].name implies order[a]
                < order[b] by {
                if a != j && b != j {
                    let oa = if a < j { a } else { a - 1 };
                    let ob = if b < j { b } else { b - 1 };
                    assert(summary_views(before)[oa].name == summary_views(before)[ob].name);
                }
            }
            assert(stable_arrangement(views, items, order));
            vstd::seq_lib::to_multiset_insert(summary_views(before), j as int, entry@);
            assert(wanted.take(k + 1) =~= wanted.take(k as int).push(entry@));
            vstd::seq_lib::to_multiset_build(wanted.take(k as int), entry@);
        }
        k = k + 1;
    }
    assert(wanted.take(found@.len() as int) =~= wanted);
    summaries
}

} // verus!
