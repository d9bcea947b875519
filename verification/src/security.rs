//! Authentication results, certificates, and the no-op and shared-secret
//! security providers' computations.

use vstd::prelude::*;
use std::hash::{Hash, Hasher};
use std::time::{Duration, SystemTime};
use crate::clock::{duration_as_millis, duration_from_secs, millis_of, secs_duration, system_now};
use crate::ids::{random_uuid_string, uuid_text};
use crate::net_error::NetworkError;
use crate::peer_addr::PeerAddress;
use crate::program_types::bytes_to_vec;
use crate::session::{Session, SessionTable, SessionView};
use crate::text::{concat_str, same_str};
use vstd::string::StringSliceAdditionalSpecFns;

verus! {

/// The outcome of authenticating a peer.
#[derive(Debug, Clone)]
pub struct AuthenticationResult {
    pub success: bool,
    pub peer_id: Option<String>,
    pub session_token: Option<String>,
    /// When the session ends, in milliseconds since the Unix epoch.
    pub expires_at_ms: Option<u64>,
    pub metadata: Vec<(String, String)>,
}

/// TLS protocol versions, oldest first.
#[derive(Debug, Clone, Copy, PartialEq, Eq, PartialOrd, Ord, Hash)]
pub enum TlsVersion {
    V1_0,
    V1_1,
    V1_2,
    V1_3,
}

/// Settings of the TLS provider.
#[derive(Debug, Clone)]
pub struct TlsConfig {
    pub cert_path: String,
    pub key_path: String,
    pub ca_path: Option<String>,
    pub require_client_cert: bool,
    pub session_timeout: Duration,
    pub cipher_suites: Vec<String>,
    pub min_version: TlsVersion,
    pub max_version: TlsVersion,
}

/// A certificate and its validity period.
#[derive(Debug, Clone)]
pub struct Certificate {
    pub data: Vec<u8>,
    pub subject: String,
    pub issuer: String,
    /// Start of the validity period, in milliseconds since the Unix epoch.
    pub valid_from_ms: u64,
    /// End of the validity period, in milliseconds since the Unix epoch.
    pub valid_until_ms: u64,
    pub serial_number: String,
    pub fingerprint: String,
}

/// The 64-bit hash of a byte string with the standard library's
/// `DefaultHasher::new()` and its fixed keys, fed as `<[u8]>::hash` feeds it.
pub uninterp spec fn bytes_hash(data: Seq<u8>) -> u64;

/// The 64-bit hash, with `DefaultHasher::new()`, of one byte string fed
/// after another.
pub uninterp spec fn keyed_bytes_hash(data: Seq<u8>, key: Seq<u8>) -> u64;

/// Hashes the bytes with a fresh `DefaultHasher`.
#[verifier::external_body]
pub(crate) fn hash_bytes(data: &[u8]) -> (res: u64)
    ensures
        res == bytes_hash(data@),
{
    let mut hasher = std::collections::hash_map::DefaultHasher::new();
    data.hash(&mut hasher);
    hasher.finish()
}

/// Hashes the bytes, then the key, with one fresh `DefaultHasher`.
#[verifier::external_body]
fn hash_bytes_keyed(data: &[u8], key: &[u8]) -> (res: u64)
    ensures
        res == keyed_bytes_hash(data@, key@),
{
    let mut hasher = std::collections::hash_map::DefaultHasher::new();
    data.hash(&mut hasher);
    key.hash(&mut hasher);
    hasher.finish()
}

/// Hashes a clock reading with a fresh `DefaultHasher`. The reading is
/// opaque here, so nothing is stated of the result.
#[verifier::external_body]
fn hash_time(t: &SystemTime) -> (res: u64) {
    let mut hasher = std::collections::hash_map::DefaultHasher::new();
    t.hash(&mut hasher);
    hasher.finish()
}

/// The eight bytes of a 64-bit value, least significant first.
pub open spec fn le_bytes(x: u64) -> Seq<u8> {
    Seq::new(8, |i: int| ((x >> ((8 * i) as u64)) & 0xff) as u8)
}

/// The eight bytes of the value, least significant first.
pub fn u64_le_bytes(x: u64) -> (res: Vec<u8>)
    ensures
        res@ == le_bytes(x),
{
    let mut out: Vec<u8> = Vec::new();
    let mut i: u64 = 0;
    while i < 8
        invariant
            i <= 8,
            out@ == le_bytes(x).subrange(0, i as int),
        decreases 8 - i,
    {
        out.push(((x >> (8 * i)) & 0xff) as u8);
        i = i + 1;
        assert(out@ =~= le_bytes(x).subrange(0, i as int));
    }
    out
}

/// Whether two byte strings are equal.
fn same_bytes(a: &[u8], b: &[u8]) -> (res: bool)
    ensures
        res <==> a@ == b@,
{
    if a.len() != b.len() {
        return false;
    }
    let mut i: usize = 0;
    while i < a.len()
        invariant
            a@.len() == b@.len(),
            i <= a@.len(),
            forall|j: int| 0 <= j < i ==> a@[j] == b@[j],
        decreases a@.len() - i,
    {
        if a[i] != b[i] {
            return false;
        }
        i = i + 1;
    }
    assert(a@ =~= b@);
    true
}

/// The result of a refused authentication.
pub open spec fn refused(r: AuthenticationResult) -> bool {
    &&& !r.success
    &&& r.peer_id is None
    &&& r.session_token is None
    &&& r.expires_at_ms is None
    &&& r.metadata@.len() == 0
}

fn refusal() -> (res: AuthenticationResult)
    ensures
        refused(res),
{
    AuthenticationResult {
        success: false,
        peer_id: None,
        session_token: None,
        expires_at_ms: None,
        metadata: Vec::new(),
    }
}

/// Each byte combined by exclusive or with the key, the key repeated; an
/// empty key gives no bytes.
pub open spec fn xor_cycle(data: Seq<u8>, key: Seq<u8>) -> Seq<u8> {
    if key.len() == 0 {
        Seq::empty()
    } else {
        Seq::new(data.len(), |i: int| data[i] ^ key[i % (key.len() as int)])
    }
}

/// Exclusive or of the data with the repeated key.
pub fn xor_with_key(data: &[u8], key: &[u8]) -> (res: Vec<u8>)
    ensures
        res@ == xor_cycle(data@, key@),
{
    let mut out: Vec<u8> = Vec::new();
    if key.len() == 0 {
        assert(out@ =~= xor_cycle(data@, key@));
        return out;
    }
    let mut i: usize = 0;
    let mut k: usize = 0;
    let ghost mut q: int = 0;
    while i < data.len()
        invariant
            key@.len() > 0,
            i <= data@.len(),
            k < key@.len(),
            i == q * (key@.len() as int) + k,
            out@ == xor_cycle(data@, key@).subrange(0, i as int),
        decreases data@.len() - i,
    {
        proof {
            vstd::arithmetic::div_mod::lemma_fundamental_div_mod_converse(i as int, key@.len() as int, q, k as int);
        }
        out.push(data[i] ^ key[k]);
        proof {
            assert(out@ =~= xor_cycle(data@, key@).subrange(0, i + 1));
        }
        i = i + 1;
        if k + 1 == key.len() {
            k = 0;
            proof {
                let n = key@.len() as int;
                assert((q + 1) * n == q * n + n) by (nonlinear_arith);
                q = q + 1;
            }
        } else {
            k = k + 1;
        }
    }
    assert(out@ =~= xor_cycle(data@, key@));
    out
}

/// Combining twice with the same non-empty key gives the data back.
pub proof fn law_xor_cycle_involutive(data: Seq<u8>, key: Seq<u8>)
    requires
        key.len() > 0,
    ensures
        xor_cycle(xor_cycle(data, key), key) == data,
{
    let once = xor_cycle(data, key);
    let twice = xor_cycle(once, key);
    assert forall|i: int| 0 <= i < data.len() implies twice[i] == data[i] by {
        let d = data[i];
        let k = key[i % (key.len() as int)];
        assert((d ^ k) ^ k == d) by (bit_vector);
    }
    assert(twice =~= data);
}

/// The provider that lets everyone in and leaves data as it is.
pub struct NoOpSecurityProvider;

impl NoOpSecurityProvider {
    /// Every peer is authenticated as "anonymous", without session.
    pub fn authenticate(&self) -> (res: AuthenticationResult)
        ensures
            res.success,
            res.peer_id matches Some(p) && p@ == "anonymous"@,
            res.session_token is None,
            res.expires_at_ms is None,
            res.metadata@.len() == 0,
    {
        AuthenticationResult {
            success: true,
            peer_id: Some("anonymous".to_owned()),
            session_token: None,
            expires_at_ms: None,
            metadata: Vec::new(),
        }
    }

    /// The data unchanged.
    pub fn encrypt(&self, data: &[u8]) -> (res: Vec<u8>)
        ensures
            res@ == data@,
    {
        bytes_to_vec(data)
    }

    /// The data unchanged.
    pub fn decrypt(&self, data: &[u8]) -> (res: Vec<u8>)
        ensures
            res@ == data@,
    {
        bytes_to_vec(data)
    }

    /// Thirty-two zero bytes.
    pub fn generate_session_key(&self) -> (res: Vec<u8>)
        ensures
            res@ == Seq::new(32, |i: int| 0u8),
    {
        let mut v: Vec<u8> = Vec::new();
        let mut i: usize = 0;
        while i < 32
            invariant
                i <= 32,
                v@ == Seq::new(i as nat, |j: int| 0u8),
            decreases 32 - i,
        {
            v.push(0);
            i = i + 1;
            assert(v@ =~= Seq::new(i as nat, |j: int| 0u8));
        }
        v
    }

    /// Every signature is accepted.
    pub fn verify_integrity(&self, data: &[u8], signature: &[u8]) -> (res: bool)
        ensures
            res,
    {
        true
    }

    /// The data itself is the signature.
    pub fn sign_data(&self, data: &[u8]) -> (res: Vec<u8>)
        ensures
            res@ == data@,
    {
        bytes_to_vec(data)
    }

    pub fn name(&self) -> (res: &'static str)
        ensures
            res@ == "noop"@,
    {
        "noop"
    }
}

/// The provider that admits peers presenting a shared secret and combines
/// data with it.
pub struct SharedSecretProvider {
    secret: Vec<u8>,
    session_timeout: Duration,
    timeout_ms: u64,
    sessions: SessionTable,
}

impl SharedSecretProvider {
    pub closed spec fn spec_secret(&self) -> Seq<u8> {
        self.secret@
    }

    pub closed spec fn spec_timeout(&self) -> Duration {
        self.session_timeout
    }

    /// The session length in milliseconds.
    pub closed spec fn spec_timeout_ms(&self) -> u64 {
        self.timeout_ms
    }

    /// The sessions by peer.
    pub closed spec fn spec_sessions(&self) -> Map<PeerAddress, SessionView> {
        self.sessions@
    }

    pub closed spec fn wf(&self) -> bool {
        self.sessions.wf()
    }

    /// A provider with the secret, sessions of one hour and none open.
    pub fn new(secret: Vec<u8>) -> (res: Self)
        ensures
            res.wf(),
            res.spec_secret() == secret@,
            res.spec_timeout() == secs_duration(3600),
            res.spec_timeout_ms() == 3_600_000,
            res.spec_sessions() == Map::<PeerAddress, SessionView>::empty(),
    {
        SharedSecretProvider {
            secret,
            session_timeout: duration_from_secs(3600),
            timeout_ms: 3_600_000,
            sessions: SessionTable::new(),
        }
    }

    /// A provider whose secret is the text's bytes.
    pub fn from_string(secret: &str) -> (res: Self)
        ensures
            res.wf(),
            res.spec_secret() == secret.spec_bytes(),
            res.spec_timeout() == secs_duration(3600),
            res.spec_timeout_ms() == 3_600_000,
            res.spec_sessions() == Map::<PeerAddress, SessionView>::empty(),
    {
        Self::new(bytes_to_vec(secret.as_bytes()))
    }

    /// The same provider with sessions of the given length.
    pub fn with_timeout(self, timeout: Duration) -> (res: Self)
        requires
            self.wf(),
        ensures
            res.wf(),
            res.spec_secret() == self.spec_secret(),
            res.spec_timeout() == timeout,
            millis_of(timeout, res.spec_timeout_ms()),
            res.spec_sessions() == self.spec_sessions(),
    {
        let ms = duration_as_millis(&timeout);
        SharedSecretProvider { secret: self.secret, session_timeout: timeout, timeout_ms: ms, sessions: self.sessions }
    }

    /// The session length.
    pub fn session_timeout(&self) -> (res: Duration)
        ensures
            res == self.spec_timeout(),
    {
        self.session_timeout
    }

    /// Admits a peer that presents the secret: it gets the identity
    /// `peer_` and its address, a session `shared_` and a random UUID whose
    /// key is the secret, replacing any earlier session of the peer, and
    /// lasting the session length from `now_ms`. Anyone else is refused and
    /// nothing changes.
    pub fn authenticate(&mut self, peer: &PeerAddress, credentials: &[u8], now_ms: u64) -> (res: AuthenticationResult)
        requires
            old(self).wf(),
        ensures
            final(self).wf(),
            final(self).spec_secret() == old(self).spec_secret(),
            final(self).spec_timeout() == old(self).spec_timeout(),
            final(self).spec_timeout_ms() == old(self).spec_timeout_ms(),
            credentials@ != old(self).spec_secret() ==> refused(res) && final(self).spec_sessions() == old(self).spec_sessions(),
            credentials@ == old(self).spec_secret() ==> {
                let expiry = now_ms.saturating_add(old(self).spec_timeout_ms());
                let identity = "peer_"@ + peer.text();
                &&& res.success
                &&& res.peer_id matches Some(p) && p@ == identity
                &&& res.session_token matches Some(t) && (exists|v: u128| t@ == "shared_"@ + uuid_text(v))
                    && final(self).spec_sessions() == old(self).spec_sessions().insert(*peer, SessionView {
                        id: t@,
                        key: old(self).spec_secret(),
                        created_at_ms: now_ms,
                        last_used_ms: now_ms,
                        expires_at_ms: expiry,
                        peer_identity: Some(identity),
                    })
                &&& res.expires_at_ms == Some(expiry)
                &&& res.metadata@.len() == 0
            },
    {
        if !self.credentials_match(credentials) {
            return refusal();
        }
        let uuid = random_uuid_string();
        let id = concat_str("shared_", uuid.as_str());
        let expiry = now_ms.saturating_add(self.timeout_ms);
        let addr = peer.to_text();
        let identity = concat_str("peer_", addr.as_str());
        let session = Session {
            id: id.clone(),
            peer: *peer,
            key: self.secret.clone(),
            created_at_ms: now_ms,
            last_used_ms: now_ms,
            expires_at_ms: expiry,
            peer_identity: Some(identity.clone()),
        };
        self.sessions.insert(session);
        AuthenticationResult {
            success: true,
            peer_id: Some(identity),
            session_token: Some(id),
            expires_at_ms: Some(expiry),
            metadata: Vec::new(),
        }
    }

    /// The signature of the data: the eight little-endian bytes of the
    /// default hash of the data followed by the secret.
    pub fn sign_data(&self, data: &[u8]) -> (res: Vec<u8>)
        ensures
            res@ == le_bytes(keyed_bytes_hash(data@, self.spec_secret())),
    {
        u64_le_bytes(hash_bytes_keyed(data, self.secret.as_slice()))
    }

    /// Whether the signature is the one `sign_data` gives for the data.
    pub fn verify_integrity(&self, data: &[u8], signature: &[u8]) -> (res: bool)
        ensures
            res <==> signature@ == le_bytes(keyed_bytes_hash(data@, self.spec_secret())),
    {
        let expected = self.sign_data(data);
        same_bytes(signature, expected.as_slice())
    }

    /// Whether the credentials are the secret.
    pub fn credentials_match(&self, credentials: &[u8]) -> (res: bool)
        ensures
            res <==> credentials@ == self.spec_secret(),
    {
        if credentials.len() != self.secret.len() {
            return false;
        }
        let mut i: usize = 0;
        while i < credentials.len()
            invariant
                credentials@.len() == self.secret@.len(),
                i <= credentials@.len(),
                forall|j: int| 0 <= j < i ==> credentials@[j] == self.secret@[j],
            decreases credentials@.len() - i,
        {
            if credentials[i] != self.secret[i] {
                return false;
            }
            i = i + 1;
        }
        assert(credentials@ =~= self.secret@);
        true
    }

    /// The data combined with the secret.
    pub fn encrypt(&self, data: &[u8]) -> (res: Vec<u8>)
        ensures
            res@ == xor_cycle(data@, self.spec_secret()),
    {
        xor_with_key(data, self.secret.as_slice())
    }

    /// The data combined with the secret again, which undoes `encrypt`.
    pub fn decrypt(&self, data: &[u8]) -> (res: Vec<u8>)
        ensures
            res@ == xor_cycle(data@, self.spec_secret()),
    {
        self.encrypt(data)
    }

    /// The secret is every session's key.
    pub fn generate_session_key(&self) -> (res: Vec<u8>)
        ensures
            res@ == self.spec_secret(),
    {
        self.secret.clone()
    }

    pub fn name(&self) -> (res: &'static str)
        ensures
            res@ == "shared_secret"@,
    {
        "shared_secret"
    }
}

/// Whether some entry of the list has the id.
pub open spec fn holds_cert(v: Seq<(String, Certificate)>, id: Seq<char>) -> bool {
    exists|i: int| 0 <= i < v.len() && (#[trigger] v[i]).0@ == id
}

/// No id occurs twice in the list.
pub open spec fn cert_ids_distinct(v: Seq<(String, Certificate)>) -> bool {
    forall|i: int, j: int| 0 <= i < v.len() && 0 <= j < v.len() && i != j ==> (#[trigger] v[i]).0@ != (#[trigger] v[j]).0@
}

/// The certificates of the list by id.
pub open spec fn cert_map(v: Seq<(String, Certificate)>) -> Map<Seq<char>, Certificate> {
    Map::new(
        |id: Seq<char>| holds_cert(v, id),
        |id: Seq<char>| v[choose|i: int| 0 <= i < v.len() && (#[trigger] v[i]).0@ == id].1,
    )
}

proof fn lemma_cert_at(v: Seq<(String, Certificate)>, j: int)
    requires
        cert_ids_distinct(v),
        0 <= j < v.len(),
    ensures
        cert_map(v).contains_key(v[j].0@),
        cert_map(v)[v[j].0@] == v[j].1,
{
    let id = v[j].0@;
    assert(holds_cert(v, id));
    let i = choose|i: int| 0 <= i < v.len() && (#[trigger] v[i]).0@ == id;
    assert(i == j);
}

/// The certificate check of a TLS provider's trust store: `Ok` when `now_ms`
/// lies within the validity period, else the reason it does not.
pub open spec fn cert_check(cert: Certificate, now_ms: u64) -> Result<(), Seq<char>> {
    if now_ms < cert.valid_from_ms {
        Err("Certificate not yet valid"@)
    } else if now_ms > cert.valid_until_ms {
        Err("Certificate has expired"@)
    } else {
        Ok(())
    }
}

/// The provider that keeps a session per peer and combines data with the
/// session's key. Its sessions last the configured timeout.
pub struct TlsProvider {
    config: TlsConfig,
    timeout_ms: u64,
    sessions: SessionTable,
    trusted_certs: Vec<(String, Certificate)>,
}

impl TlsProvider {
    pub closed spec fn spec_config(&self) -> TlsConfig {
        self.config
    }

    /// The session length in milliseconds.
    pub closed spec fn spec_timeout_ms(&self) -> u64 {
        self.timeout_ms
    }

    /// The sessions by peer.
    pub closed spec fn spec_sessions(&self) -> Map<PeerAddress, SessionView> {
        self.sessions@
    }

    /// The trusted certificates by id.
    pub closed spec fn spec_certs(&self) -> Map<Seq<char>, Certificate> {
        cert_map(self.trusted_certs@)
    }

    /// One session per peer, each with an eight-byte key, and one
    /// certificate per id.
    pub closed spec fn wf(&self) -> bool {
        &&& self.sessions.wf()
        &&& forall|p: PeerAddress| #[trigger] self.sessions@.contains_key(p) ==> self.sessions@[p].key.len() == 8
        &&& cert_ids_distinct(self.trusted_certs@)
    }

    /// Every session's key has eight bytes.
    pub proof fn lemma_keys(&self, peer: PeerAddress)
        requires
            self.wf(),
            self.spec_sessions().contains_key(peer),
        ensures
            self.spec_sessions()[peer].key.len() == 8,
    {
    }

    /// A provider with the configuration, no session and no trusted
    /// certificate. It is always made.
    pub fn new(config: TlsConfig) -> (res: Result<Self, NetworkError>)
        ensures
            res matches Ok(p) && {
                &&& p.wf()
                &&& p.spec_config() == config
                &&& millis_of(config.session_timeout, p.spec_timeout_ms())
                &&& p.spec_sessions() == Map::<PeerAddress, SessionView>::empty()
                &&& p.spec_certs() == Map::<Seq<char>, Certificate>::empty()
            },
    {
        let ms = duration_as_millis(&config.session_timeout);
        let p = TlsProvider { config, timeout_ms: ms, sessions: SessionTable::new(), trusted_certs: Vec::new() };
        assert(p.spec_certs() =~= Map::<Seq<char>, Certificate>::empty());
        Ok(p)
    }

    /// Whether the server's certificate and key files can be loaded, given
    /// whether each exists: the certificate is looked for first.
    pub fn check_server_files(&self, cert_exists: bool, key_exists: bool) -> (res: Result<(), NetworkError>)
        ensures
            !cert_exists ==> (res matches Err(NetworkError::CertificateError { reason })
                && reason@ == "Certificate file not found: "@ + self.spec_config().cert_path@),
            cert_exists && !key_exists ==> (res matches Err(NetworkError::CertificateError { reason })
                && reason@ == "Private key file not found: "@ + self.spec_config().key_path@),
            cert_exists && key_exists ==> res is Ok,
    {
        if !cert_exists {
            return Err(NetworkError::CertificateError {
                reason: concat_str("Certificate file not found: ", self.config.cert_path.as_str()),
            });
        }
        if !key_exists {
            return Err(NetworkError::CertificateError {
                reason: concat_str("Private key file not found: ", self.config.key_path.as_str()),
            });
        }
        Ok(())
    }

    /// Trusts the certificate under the id, in place of any earlier one, if
    /// it is valid at `now_ms`; else refuses it with the reason and nothing
    /// changes.
    pub fn add_trusted_cert(&mut self, cert_id: String, cert: Certificate, now_ms: u64) -> (res: Result<(), NetworkError>)
        requires
            old(self).wf(),
        ensures
            final(self).wf(),
            final(self).spec_config() == old(self).spec_config(),
            final(self).spec_timeout_ms() == old(self).spec_timeout_ms(),
            final(self).spec_sessions() == old(self).spec_sessions(),
            match cert_check(cert, now_ms) {
                Ok(()) => res is Ok && final(self).spec_certs() == old(self).spec_certs().insert(cert_id@, cert),
                Err(why) => res matches Err(NetworkError::CertificateError { reason }) && reason@ == why
                    && final(self).spec_certs() == old(self).spec_certs(),
            },
    {
        if now_ms < cert.valid_from_ms {
            let r = "Certificate not yet valid";
            proof {
                reveal_strlit("Certificate not yet valid");
            }
            return Err(NetworkError::CertificateError { reason: r.to_owned() });
        }
        if now_ms > cert.valid_until_ms {
            let r = "Certificate has expired";
            proof {
                reveal_strlit("Certificate has expired");
            }
            return Err(NetworkError::CertificateError { reason: r.to_owned() });
        }
        let ghost old_v = self.trusted_certs@;
        let ghost id = cert_id@;
        let ghost c = cert;
        let found = self.cert_position(cert_id.as_str());
        match found {
            Some(k) => {
                self.trusted_certs.set(k, (cert_id, cert));
                proof {
                    self.lemma_certs_after_set(old_v, k as int, id, c);
                }
            },
            None => {
                self.trusted_certs.push((cert_id, cert));
                proof {
                    assert(!holds_cert(old_v, id));
                    self.lemma_certs_after_set(old_v, old_v.len() as int, id, c);
                }
            },
        }
        Ok(())
    }

    fn cert_position(&self, id: &str) -> (res: Option<usize>)
        ensures
            match res {
                Some(i) => i < self.trusted_certs@.len() && self.trusted_certs@[i as int].0@ == id@,
                None => !holds_cert(self.trusted_certs@, id@),
            },
    {
        let mut i: usize = 0;
        while i < self.trusted_certs.len()
            invariant
                i <= self.trusted_certs@.len(),
                forall|j: int| 0 <= j < i ==> (#[trigger] self.trusted_certs@[j]).0@ != id@,
            decreases self.trusted_certs@.len() - i,
        {
            if same_str(self.trusted_certs[i].0.as_str(), id) {
                return Some(i);
            }
            i = i + 1;
        }
        None
    }

    proof fn lemma_certs_after_set(&self, old_v: Seq<(String, Certificate)>, i: int, id: Seq<char>, c: Certificate)
        requires
            cert_ids_distinct(old_v),
            0 <= i < self.trusted_certs@.len(),
            self.trusted_certs@.len() == old_v.len() || (self.trusted_certs@.len() == old_v.len() + 1 && i == old_v.len()
                && !holds_cert(old_v, id)),
            i < old_v.len() ==> old_v[i].0@ == id,
            self.trusted_certs@[i].0@ == id,
            self.trusted_certs@[i].1 == c,
            forall|j: int| 0 <= j < old_v.len() && j != i ==> self.trusted_certs@[j] == old_v[j],
        ensures
            cert_ids_distinct(self.trusted_certs@),
            cert_map(self.trusted_certs@) == cert_map(old_v).insert(id, c),
    {
        let v = self.trusted_certs@;
        assert(cert_ids_distinct(v)) by {
            assert forall|a: int, b: int| 0 <= a < v.len() && 0 <= b < v.len() && a != b implies
                (#[trigger] v[a]).0@ != (#[trigger] v[b]).0@ by {
                if a < old_v.len() && b < old_v.len() {
                    assert(old_v[a].0@ != old_v[b].0@);
                } else if a < old_v.len() {
                    assert(v[a] == old_v[a]);
                    assert(!holds_cert(old_v, id));
                } else {
                    assert(v[b] == old_v[b]);
                    assert(!holds_cert(old_v, id));
                }
            }
        }
        lemma_cert_at(v, i);
        let target = cert_map(old_v).insert(id, c);
        assert forall|k: Seq<char>| #[trigger] cert_map(v).contains_key(k) <==> target.contains_key(k) by {
            if k != id {
                if holds_cert(v, k) {
                    let j = choose|j: int| 0 <= j < v.len() && (#[trigger] v[j]).0@ == k;
                    assert(j != i);
                    assert(old_v[j].0@ == k);
                }
                if holds_cert(old_v, k) {
                    let j = choose|j: int| 0 <= j < old_v.len() && (#[trigger] old_v[j]).0@ == k;
                    assert(j != i);
                    assert(v[j].0@ == k);
                }
            }
        }
        assert forall|k: Seq<char>| #[trigger] cert_map(v).contains_key(k) implies cert_map(v)[k] == target[k] by {
            if k != id {
                let j = choose|j: int| 0 <= j < v.len() && (#[trigger] v[j]).0@ == k;
                assert(j != i);
                lemma_cert_at(v, j);
                lemma_cert_at(old_v, j);
            }
        }
        assert(cert_map(v) =~= target);
    }

    /// Opens a session with the peer, in place of any earlier one: its id is
    /// `tls_` and a random UUID, its key eight bytes drawn from the clock,
    /// and it lasts the session length from `now_ms`.
    fn create_session(&mut self, peer: &PeerAddress, peer_identity: Option<String>, now_ms: u64) -> (res: String)
        requires
            old(self).wf(),
        ensures
            final(self).wf(),
            final(self).spec_config() == old(self).spec_config(),
            final(self).spec_timeout_ms() == old(self).spec_timeout_ms(),
            final(self).spec_certs() == old(self).spec_certs(),
            exists|v: u128| res@ == "tls_"@ + uuid_text(v),
            final(self).spec_sessions()[*peer].key.len() == 8,
            final(self).spec_sessions() == old(self).spec_sessions().insert(*peer, SessionView {
                id: res@,
                key: final(self).spec_sessions()[*peer].key,
                created_at_ms: now_ms,
                last_used_ms: now_ms,
                expires_at_ms: now_ms.saturating_add(old(self).spec_timeout_ms()),
                peer_identity: match peer_identity {
                    Some(p) => Some(p@),
                    None => None,
                },
            }),
    {
        let uuid = random_uuid_string();
        let id = concat_str("tls_", uuid.as_str());
        let key = u64_le_bytes(hash_time(&system_now()));
        let session = Session {
            id: id.clone(),
            peer: *peer,
            key,
            created_at_ms: now_ms,
            last_used_ms: now_ms,
            expires_at_ms: now_ms.saturating_add(self.timeout_ms),
            peer_identity,
        };
        self.sessions.insert(session);
        id
    }

    /// Drops the sessions that have run out at `now_ms`.
    pub fn cleanup_sessions(&mut self, now_ms: u64)
        requires
            old(self).wf(),
        ensures
            final(self).wf(),
            final(self).spec_config() == old(self).spec_config(),
            final(self).spec_timeout_ms() == old(self).spec_timeout_ms(),
            final(self).spec_certs() == old(self).spec_certs(),
            final(self).spec_sessions() == old(self).spec_sessions().restrict(Set::new(|p: PeerAddress|
                old(self).spec_sessions().contains_key(p) && !(now_ms > old(self).spec_sessions()[p].expires_at_ms))),
    {
        self.sessions.retain_live(now_ms);
    }

    /// Admits any peer that presents credentials: it gets the identity
    /// `peer_` and its IP, and a fresh session. Empty credentials are
    /// refused and nothing changes.
    pub fn authenticate(&mut self, peer: &PeerAddress, credentials: &[u8], now_ms: u64) -> (res: Result<AuthenticationResult, NetworkError>)
        requires
            old(self).wf(),
        ensures
            final(self).wf(),
            final(self).spec_config() == old(self).spec_config(),
            final(self).spec_timeout_ms() == old(self).spec_timeout_ms(),
            final(self).spec_certs() == old(self).spec_certs(),
            credentials@.len() == 0 ==> (res matches Ok(r) && refused(r)
                && final(self).spec_sessions() == old(self).spec_sessions()),
            credentials@.len() > 0 ==> (res matches Ok(r) && {
                let expiry = now_ms.saturating_add(old(self).spec_timeout_ms());
                let identity = "peer_"@ + peer.ip.text();
                &&& r.success
                &&& r.peer_id matches Some(p) && p@ == identity
                &&& r.session_token matches Some(t) && (exists|v: u128| t@ == "tls_"@ + uuid_text(v))
                    && final(self).spec_sessions() == old(self).spec_sessions().insert(*peer, SessionView {
                        id: t@,
                        key: final(self).spec_sessions()[*peer].key,
                        created_at_ms: now_ms,
                        last_used_ms: now_ms,
                        expires_at_ms: expiry,
                        peer_identity: Some(identity),
                    })
                &&& final(self).spec_sessions()[*peer].key.len() == 8
                &&& r.expires_at_ms == Some(expiry)
                &&& r.metadata@.len() == 0
            }),
    {
        if credentials.len() == 0 {
            return Ok(refusal());
        }
        let ip = peer.ip.to_text();
        let identity = concat_str("peer_", ip.as_str());
        let token = self.create_session(peer, Some(identity.clone()), now_ms);
        Ok(AuthenticationResult {
            success: true,
            peer_id: Some(identity),
            session_token: Some(token),
            expires_at_ms: Some(now_ms.saturating_add(self.timeout_ms)),
            metadata: Vec::new(),
        })
    }

    /// The data combined with the key of the peer's session, if the peer
    /// has a session that has not run out at `now_ms`.
    pub fn encrypt(&self, data: &[u8], peer: &PeerAddress, now_ms: u64) -> (res: Result<Vec<u8>, NetworkError>)
        requires
            self.wf(),
        ensures
            !self.spec_sessions().contains_key(*peer) ==> (res matches Err(NetworkError::EncryptionError { reason })
                && reason@ == "No session found for peer"@),
            self.spec_sessions().contains_key(*peer) && now_ms > self.spec_sessions()[*peer].expires_at_ms
                ==> (res matches Err(NetworkError::EncryptionError { reason }) && reason@ == "Session expired"@),
            self.spec_sessions().contains_key(*peer) && !(now_ms > self.spec_sessions()[*peer].expires_at_ms)
                ==> (res matches Ok(v) && v@ == xor_cycle(data@, self.spec_sessions()[*peer].key)),
    {
        match self.sessions.get(peer) {
            None => {
                let r = "No session found for peer";
                proof {
                    reveal_strlit("No session found for peer");
                }
                Err(NetworkError::EncryptionError { reason: r.to_owned() })
            },
            Some(session) => {
                if now_ms > session.expires_at_ms {
                    let r = "Session expired";
                    proof {
                        reveal_strlit("Session expired");
                    }
                    Err(NetworkError::EncryptionError { reason: r.to_owned() })
                } else {
                    Ok(xor_with_key(data, session.key.as_slice()))
                }
            },
        }
    }

    /// The data combined again with the key of the peer's session, which
    /// undoes `encrypt`; the session is marked as used at `now_ms`. The
    /// errors are those of `encrypt`, and on them nothing changes.
    pub fn decrypt(&mut self, data: &[u8], peer: &PeerAddress, now_ms: u64) -> (res: Result<Vec<u8>, NetworkError>)
        requires
            old(self).wf(),
        ensures
            final(self).wf(),
            final(self).spec_config() == old(self).spec_config(),
            final(self).spec_timeout_ms() == old(self).spec_timeout_ms(),
            final(self).spec_certs() == old(self).spec_certs(),
            !old(self).spec_sessions().contains_key(*peer) ==> (res matches Err(NetworkError::EncryptionError { reason })
                && reason@ == "No session found for peer"@ && final(self).spec_sessions() == old(self).spec_sessions()),
            old(self).spec_sessions().contains_key(*peer) && now_ms > old(self).spec_sessions()[*peer].expires_at_ms
                ==> (res matches Err(NetworkError::EncryptionError { reason }) && reason@ == "Session expired"@
                && final(self).spec_sessions() == old(self).spec_sessions()),
            old(self).spec_sessions().contains_key(*peer) && !(now_ms > old(self).spec_sessions()[*peer].expires_at_ms)
                ==> (res matches Ok(v) && v@ == xor_cycle(data@, old(self).spec_sessions()[*peer].key)
                && final(self).spec_sessions() == old(self).spec_sessions().insert(*peer,
                    SessionView { last_used_ms: now_ms, ..old(self).spec_sessions()[*peer] })),
    {
        let out = self.encrypt(data, peer, now_ms);
        if out.is_ok() {
            self.sessions.touch(peer, now_ms);
        }
        out
    }

    /// The key of the peer's session.
    pub fn generate_session_key(&self, peer: &PeerAddress) -> (res: Result<Vec<u8>, NetworkError>)
        requires
            self.wf(),
        ensures
            !self.spec_sessions().contains_key(*peer) ==> (res matches Err(NetworkError::EncryptionError { reason })
                && reason@ == "No session found for peer"@),
            self.spec_sessions().contains_key(*peer) ==> (res matches Ok(k) && k@ == self.spec_sessions()[*peer].key),
    {
        match self.sessions.get(peer) {
            None => {
                let r = "No session found for peer";
                proof {
                    reveal_strlit("No session found for peer");
                }
                Err(NetworkError::EncryptionError { reason: r.to_owned() })
            },
            Some(session) => Ok(session.key.clone()),
        }
    }

    /// The signature of the data: the eight little-endian bytes of its
    /// default hash.
    pub fn sign_data(&self, data: &[u8]) -> (res: Vec<u8>)
        ensures
            res@ == le_bytes(bytes_hash(data@)),
    {
        u64_le_bytes(hash_bytes(data))
    }

    /// Whether the signature is the one `sign_data` gives for the data.
    pub fn verify_integrity(&self, data: &[u8], signature: &[u8]) -> (res: bool)
        ensures
            res <==> signature@ == le_bytes(bytes_hash(data@)),
    {
        let expected = self.sign_data(data);
        same_bytes(signature, expected.as_slice())
    }

    pub fn name(&self) -> (res: &'static str)
        ensures
            res@ == "tls"@,
    {
        "tls"
    }
}


/// Decrypting what was encrypted for a peer with a session gives the data
/// back: both combine it with the session's key, and that key is never
/// empty.
pub proof fn law_tls_round_trip(p: TlsProvider, peer: PeerAddress, data: Seq<u8>)
    requires
        p.wf(),
        p.spec_sessions().contains_key(peer),
    ensures
        xor_cycle(xor_cycle(data, p.spec_sessions()[peer].key), p.spec_sessions()[peer].key) == data,
{
    p.lemma_keys(peer);
    law_xor_cycle_involutive(data, p.spec_sessions()[peer].key);
}

} // verus!
