//! The pairing state machine: a five-phase HTTP exchange that binds a
//! client certificate to a symmetric key derived from a salt and a PIN.
//! Each phase is keyed by the client's unique id; the store of client
//! records is modelled as a map from id to record.

use vstd::prelude::*;
use vstd::map::*;
use crate::crypto;
use crate::hexcode;
use crate::wire;

verus! {

/// The phases of a pairing exchange, in the order they are reached.
#[derive(Clone, Copy, Debug, PartialEq, Eq, Structural)]
pub enum PairingPhase {
    /// Record created by `getservercert`; no PIN seen yet.
    AwaitingPin,
    /// A PIN arrived and the AES key was derived from salt and PIN.
    PinSet,
    /// The client's challenge was answered; server secret and server
    /// challenge were drawn.
    ChallengeIssued,
    /// The client answered the server challenge; its hash is on file and
    /// the pairing secret went out.
    SecretExchanged,
    /// The client's pairing secret checked out against its hash.
    Verified,
}

/// One paired (or pairing) client, as the phase handlers see it.
pub struct ClientRecord {
    /// 16-byte salt from `getservercert`.
    pub salt: Vec<u8>,
    /// Signature field of the client's certificate.
    pub cert_signature: Vec<u8>,
    /// How far the exchange has come.
    pub phase: PairingPhase,
    /// AES-128 key derived from salt and PIN.
    pub key: Option<Vec<u8>>,
    /// 16-byte secret drawn while answering the client challenge.
    pub server_secret: Option<Vec<u8>>,
    /// 16-byte challenge drawn while answering the client challenge.
    pub server_challenge: Option<Vec<u8>>,
    /// Hash the client committed to in `serverchallengeresp`.
    pub client_hash: Option<Vec<u8>>,
}

/// The mathematical value of a `ClientRecord`.
pub struct ClientRecordView {
    pub salt: Seq<u8>,
    pub cert_signature: Seq<u8>,
    pub phase: PairingPhase,
    pub key: Option<Seq<u8>>,
    pub server_secret: Option<Seq<u8>>,
    pub server_challenge: Option<Seq<u8>>,
    pub client_hash: Option<Seq<u8>>,
}

/// How far along the exchange a phase is, in the strict order the
/// phases are reached.
pub open spec fn phase_rank(p: PairingPhase) -> int {
    match p {
        PairingPhase::AwaitingPin => 0,
        PairingPhase::PinSet => 1,
        PairingPhase::ChallengeIssued => 2,
        PairingPhase::SecretExchanged => 3,
        PairingPhase::Verified => 4,
    }
}

impl ClientRecordView {
    /// What every stored record satisfies: the salt is 16 bytes, and a
    /// record holds exactly the material of the phases it has passed.
    pub open spec fn wf(self) -> bool {
        &&& self.salt.len() == 16
        &&& (self.key is Some <==> phase_rank(self.phase) >= 1)
        &&& (self.key is Some ==> self.key->0.len() == 16)
        &&& (self.server_secret is Some <==> phase_rank(self.phase) >= 2)
        &&& (self.server_secret is Some ==> self.server_secret->0.len() == 16)
        &&& (self.server_challenge is Some <==> phase_rank(self.phase) >= 2)
        &&& (self.server_challenge is Some ==> self.server_challenge->0.len() == 16)
        &&& (self.client_hash is Some <==> phase_rank(self.phase) >= 3)
    }
}

/// The value of an optional byte vector.
pub open spec fn opt_view(o: Option<Vec<u8>>) -> Option<Seq<u8>> {
    match o {
        Some(v) => Some(v@),
        None => None,
    }
}

impl View for ClientRecord {
    type V = ClientRecordView;

    open spec fn view(&self) -> ClientRecordView {
        ClientRecordView {
            salt: self.salt@,
            cert_signature: self.cert_signature@,
            phase: self.phase,
            key: opt_view(self.key),
            server_secret: opt_view(self.server_secret),
            server_challenge: opt_view(self.server_challenge),
            client_hash: opt_view(self.client_hash),
        }
    }
}

/// All client records, looked up by unique id. Abstractly a map from id
/// bytes to record.
pub struct ClientStore {
    entries: Vec<(Vec<u8>, ClientRecord)>,
}

impl ClientStore {
    /// Some entry carries the id.
    pub closed spec fn contains_id(self, id: Seq<u8>) -> bool {
        exists|i: int| 0 <= i < self.entries@.len() && self.entries@[i].0@ == id
    }

    /// Ids are unique, so the store denotes a map, and every record is
    /// well formed.
    pub closed spec fn wf(self) -> bool {
        &&& forall|i: int, j: int|
            0 <= i < j < self.entries@.len() ==> self.entries@[i].0@ != self.entries@[j].0@
        &&& forall|i: int| 0 <= i < self.entries@.len() ==> (#[trigger] self.entries@[i].1)@.wf()
    }

    /// Every record a well-formed store holds is well formed.
    pub proof fn lemma_wf_records(self)
        requires
            self.wf(),
        ensures
            forall|id: Seq<u8>| self@.contains_key(id) ==> (#[trigger] self@[id]).wf(),
    {
        assert forall|id: Seq<u8>| self@.contains_key(id) implies (#[trigger] self@[id]).wf() by {
            let i = self.idx_of(id);
            assert(0 <= i < self.entries@.len() && self.entries@[i].0@ == id);
            self.lemma_view_at(i);
        }
    }

    spec fn idx_of(self, id: Seq<u8>) -> int {
        choose|i: int| 0 <= i < self.entries@.len() && self.entries@[i].0@ == id
    }

    proof fn lemma_view_at(self, i: int)
        requires
            self.wf(),
            0 <= i < self.entries@.len(),
        ensures
            self@.contains_key(self.entries@[i].0@),
            self@[self.entries@[i].0@] == self.entries@[i].1@,
    {
        let id = self.entries@[i].0@;
        assert(self.contains_id(id));
        let j = self.idx_of(id);
        assert(0 <= j < self.entries@.len() && self.entries@[j].0@ == id);
        if i != j {
            assert(self.entries@[i].0@ != self.entries@[j].0@);
        }
        assert(j == i);
    }

    /// An empty store.
    pub fn new() -> (r: ClientStore)
        ensures
            r.wf(),
            r@ == Map::<Seq<u8>, ClientRecordView>::empty(),
    {
        let r = ClientStore { entries: Vec::new() };
        proof {
            assert_maps_equal!(r@, Map::<Seq<u8>, ClientRecordView>::empty());
        }
        r
    }

    /// Index of the entry carrying `id`, if any.
    fn find(&self, id: &[u8]) -> (r: Option<usize>)
        ensures
            (r is Some) == self.contains_id(id@),
            r matches Some(i) ==> i < self.entries@.len() && self.entries@[i as int].0@ == id@,
    {
        let mut i: usize = 0;
        while i < self.entries.len()
            invariant
                i <= self.entries@.len(),
                forall|j: int| 0 <= j < i ==> self.entries@[j].0@ != id@,
            decreases self.entries@.len() - i,
        {
            if wire::bytes_eq(self.entries[i].0.as_slice(), id) {
                return Some(i);
            }
            i = i + 1;
        }
        proof {
            assert(!self.contains_id(id@));
        }
        None
    }

    /// Replace the record of the entry at `idx`, keeping its id.
    fn set_record_at(&mut self, idx: usize, rec: ClientRecord)
        requires
            old(self).wf(),
            rec@.wf(),
            idx < old(self).entries@.len(),
        ensures
            final(self).wf(),
            final(self)@ == old(self)@.insert(old(self).entries@[idx as int].0@, rec@),
    {
        let entry = self.entries.remove(idx);
        let id_ghost = Ghost(entry.0@);
        self.entries.push((entry.0, rec));
        proof {
            let id = id_ghost@;
            let oldself = *old(self);
            let pre = oldself.entries@;
            let now = self.entries@;
            assert(now == pre.remove(idx as int).push((old(self).entries@[idx as int].0, rec)));
            assert forall|i: int| 0 <= i < now.len() implies (#[trigger] now[i].1)@.wf() by {
                if i < now.len() - 1 {
                    let pi = if i < idx as int { i } else { i + 1 };
                    assert(now[i] == pre[pi]);
                }
            }
            // uniqueness is kept: every surviving entry had a distinct id
            assert forall|i: int, j: int| 0 <= i < j < now.len() implies now[i].0@ != now[j].0@ by {
                if j < now.len() - 1 {
                    let pi = if i < idx as int { i } else { i + 1 };
                    let pj = if j < idx as int { j } else { j + 1 };
                    assert(now[i] == pre[pi]);
                    assert(now[j] == pre[pj]);
                } else {
                    let pi = if i < idx as int { i } else { i + 1 };
                    assert(now[i] == pre[pi]);
                    assert(now[j].0@ == id);
                    assert(pre[idx as int].0@ == id);
                }
            }
            assert forall|q: Seq<u8>| #[trigger] self.contains_id(q) == (oldself.contains_id(q) || q == id) by {
                if self.contains_id(q) {
                    let i = choose|i: int| 0 <= i < now.len() && now[i].0@ == q;
                    if i == now.len() - 1 {
                        assert(q == id);
                    } else {
                        let pi = if i < idx as int { i } else { i + 1 };
                        assert(pre[pi].0@ == q);
                        assert(oldself.contains_id(q));
                    }
                } else {
                    if oldself.contains_id(q) {
                        let i = choose|i: int| 0 <= i < pre.len() && pre[i].0@ == q;
                        if i == idx as int {
                            assert(now[now.len() - 1].0@ == q);
                        } else {
                            let ni = if i < idx as int { i } else { i - 1 };
                            assert(now[ni].0@ == q);
                        }
                        assert(false);
                    }
                    if q == id {
                        assert(now[now.len() - 1].0@ == q);
                        assert(false);
                    }
                }
            }
            assert forall|q: Seq<u8>| self@.contains_key(q) implies self@[q] == old(self)@.insert(id, rec@)[q] by {
                let i = self.idx_of(q);
                assert(0 <= i < now.len() && now[i].0@ == q);
                self.lemma_view_at(i);
                if q == id {
                    if i != now.len() - 1 {
                        let pi = if i < idx as int { i } else { i + 1 };
                        assert(pre[pi].0@ == id);
                        assert(pre[idx as int].0@ == id);
                        assert(pi != idx as int);
                        assert(false);
                    }
                    assert(self@[q] == rec@);
                } else {
                    assert(i != now.len() - 1);
                    let pi = if i < idx as int { i } else { i + 1 };
                    assert(now[i] == pre[pi]);
                    oldself.lemma_view_at(pi);
                }
            }
            assert_maps_equal!(self@, old(self)@.insert(old(self).entries@[idx as int].0@, rec@));
        }
    }
    /// Insert a record for `id`, replacing any existing one.
    fn insert_record(&mut self, id: Vec<u8>, rec: ClientRecord)
        requires
            old(self).wf(),
            rec@.wf(),
        ensures
            final(self).wf(),
            final(self)@ == old(self)@.insert(id@, rec@),
    {
        match self.find(id.as_slice()) {
            Some(idx) => {
                proof {
                    assert(old(self).entries@[idx as int].0@ == id@);
                }
                self.set_record_at(idx, rec);
            },
            None => {
                self.entries.push((id, rec));
                proof {
                    let oldself = *old(self);
                    let pre = oldself.entries@;
                    let now = self.entries@;
                    assert forall|i: int, j: int| 0 <= i < j < now.len() implies now[i].0@ != now[j].0@ by {
                        if j == now.len() - 1 {
                            assert(now[i] == pre[i]);
                            assert(oldself.contains_id(pre[i].0@));
                        }
                    }
                    assert forall|i: int| 0 <= i < now.len() implies (#[trigger] now[i].1)@.wf() by {
                        if i < now.len() - 1 {
                            assert(now[i] == pre[i]);
                        }
                    }
                    assert forall|q: Seq<u8>| #[trigger] self.contains_id(q) == (oldself.contains_id(q) || q == id@) by {
                        if self.contains_id(q) {
                            let i = choose|i: int| 0 <= i < now.len() && now[i].0@ == q;
                            if i < now.len() - 1 {
                                assert(pre[i].0@ == q);
                                assert(oldself.contains_id(q));
                            }
                        } else {
                            if oldself.contains_id(q) {
                                let i = choose|i: int| 0 <= i < pre.len() && pre[i].0@ == q;
                                assert(now[i].0@ == q);
                                assert(false);
                            }
                            if q == id@ {
                                assert(now[now.len() - 1].0@ == q);
                                assert(false);
                            }
                        }
                    }
                    assert forall|q: Seq<u8>| self@.contains_key(q) implies self@[q] == old(self)@.insert(id@, rec@)[q] by {
                        let i = self.idx_of(q);
                        assert(0 <= i < now.len() && now[i].0@ == q);
                        self.lemma_view_at(i);
                        if q == id@ {
                            if i != now.len() - 1 {
                                assert(pre[i].0@ == q);
                                assert(oldself.contains_id(q));
                                assert(false);
                            }
                            assert(self@[q] == rec@);
                        } else {
                            assert(i != now.len() - 1);
                            assert(now[i] == pre[i]);
                            oldself.lemma_view_at(i);
                        }
                    }
                    assert_maps_equal!(self@, old(self)@.insert(id@, rec@));
                }
            },
        }
    }

    /// Remove the record for `id`; reports whether one was there.
    fn remove_record(&mut self, id: &[u8]) -> (r: bool)
        requires
            old(self).wf(),
        ensures
            final(self).wf(),
            r == old(self).contains_id(id@),
            final(self)@ == old(self)@.remove(id@),
    {
        match self.find(id) {
            Some(idx) => {
                self.entries.remove(idx);
                proof {
                    let oldself = *old(self);
                    let pre = oldself.entries@;
                    let now = self.entries@;
                    assert(now == pre.remove(idx as int));
                    assert forall|i: int| 0 <= i < now.len() implies (#[trigger] now[i].1)@.wf() by {
                        let pi = if i < idx as int { i } else { i + 1 };
                        assert(now[i] == pre[pi]);
                    }
                    assert forall|i: int, j: int| 0 <= i < j < now.len() implies now[i].0@ != now[j].0@ by {
                        let pi = if i < idx as int { i } else { i + 1 };
                        let pj = if j < idx as int { j } else { j + 1 };
                        assert(now[i] == pre[pi]);
                        assert(now[j] == pre[pj]);
                    }
                    assert forall|q: Seq<u8>| #[trigger] self.contains_id(q) == (oldself.contains_id(q) && q != id@) by {
                        if self.contains_id(q) {
                            let i = choose|i: int| 0 <= i < now.len() && now[i].0@ == q;
                            let pi = if i < idx as int { i } else { i + 1 };
                            assert(pre[pi].0@ == q);
                            assert(oldself.contains_id(q));
                            if q == id@ {
                                assert(pre[idx as int].0@ == id@);
                                assert(pi != idx as int);
                                assert(false);
                            }
                        } else {
                            if oldself.contains_id(q) && q != id@ {
                                let i = choose|i: int| 0 <= i < pre.len() && pre[i].0@ == q;
                                assert(i != idx as int);
                                let ni = if i < idx as int { i } else { i - 1 };
                                assert(now[ni].0@ == q);
                                assert(false);
                            }
                        }
                    }
                    assert forall|q: Seq<u8>| self@.contains_key(q) implies self@[q] == old(self)@.remove(id@)[q] by {
                        let i = self.idx_of(q);
                        assert(0 <= i < now.len() && now[i].0@ == q);
                        self.lemma_view_at(i);
                        let pi = if i < idx as int { i } else { i + 1 };
                        assert(now[i] == pre[pi]);
                        oldself.lemma_view_at(pi);
                    }
                    assert_maps_equal!(self@, old(self)@.remove(id@));
                }
                true
            },
            None => {
                proof {
                    assert_maps_equal!(self@, old(self)@.remove(id@));
                }
                false
            },
        }
    }
}

impl View for ClientStore {
    type V = Map<Seq<u8>, ClientRecordView>;

    closed spec fn view(&self) -> Map<Seq<u8>, ClientRecordView> {
        Map::new(|id: Seq<u8>| self.contains_id(id), |id: Seq<u8>| self.entries@[self.idx_of(id)].1@)
    }
}

/// The server's own certificate and private key, as the pairing
/// handlers need them: the PEM bytes and the certificate's signature
/// field.
pub struct ServerIdentity {
    /// PEM text of the server certificate, handed to clients.
    pub cert_pem: Vec<u8>,
    /// Signature field of that certificate, bound into challenge hashes.
    pub cert_signature: Vec<u8>,
    /// PEM text of the server's RSA private key.
    pub key_pem: Vec<u8>,
}

/// The mathematical value of a `ServerIdentity`.
pub struct ServerIdentityView {
    pub cert_pem: Seq<u8>,
    pub cert_signature: Seq<u8>,
    pub key_pem: Seq<u8>,
}

impl View for ServerIdentity {
    type V = ServerIdentityView;

    open spec fn view(&self) -> ServerIdentityView {
        ServerIdentityView {
            cert_pem: self.cert_pem@,
            cert_signature: self.cert_signature@,
            key_pem: self.key_pem@,
        }
    }
}

impl ServerIdentity {
    /// The signature field is the one of the certificate.
    pub open spec fn wf(self) -> bool {
        self.cert_signature@ == crypto::x509_signature_of(self.cert_pem@)
    }

    /// Build the identity from the two PEM files' bytes; fails exactly
    /// when the certificate does not parse.
    pub fn from_pem(cert_pem: Vec<u8>, key_pem: Vec<u8>) -> (r: Result<ServerIdentity, ()>)
        ensures
            (r is Ok) == crypto::x509_pem_parses(cert_pem@),
            r matches Ok(s) ==> s.wf() && s.cert_pem@ == cert_pem@ && s.key_pem@ == key_pem@,
    {
        let cert_signature = match crypto::x509_signature_from_pem(cert_pem.as_slice()) {
            Ok(s) => s,
            Err(()) => {
                return Err(());
            },
        };
        Ok(ServerIdentity { cert_pem, cert_signature, key_pem })
    }
}

/// Why a pairing request was turned away; every variant maps to an
/// HTTP 400 at the web layer.
#[derive(Clone, Copy, Debug, PartialEq, Eq, Structural)]
pub enum PairingError {
    /// A query parameter the phase needs is absent.
    MissingParameter,
    /// A hex-encoded parameter held a non-digit or an odd digit count.
    BadHex,
    /// No record exists for the unique id.
    UnknownClient,
    /// The record is not in the phase this request belongs to.
    WrongPhase,
    /// A binary quantity had the wrong size.
    BadLength,
    /// The client certificate did not parse.
    BadCertificate,
    /// The server's private key could not be used to sign.
    BadKey,
    /// The client's pairing secret does not match its committed hash.
    HashMismatch,
    /// No pairing phase could be recognized in the request.
    UnrecognizedRequest,
}

/// The `phrase` parameter of a `/pair` request.
#[derive(Clone, Copy, Debug, PartialEq, Eq, Structural)]
pub enum PairPhrase {
    GetServerCert,
    PairChallenge,
    /// Present but not a known phrase.
    Unknown,
}

/// The query parameters of a `/pair` request, each absent or its raw
/// bytes (hex text where the protocol says so).
pub struct PairParams {
    pub phrase: Option<PairPhrase>,
    pub uniqueid: Option<Vec<u8>>,
    pub clientcert: Option<Vec<u8>>,
    pub salt: Option<Vec<u8>>,
    pub clientchallenge: Option<Vec<u8>>,
    pub serverchallengeresp: Option<Vec<u8>>,
    pub clientpairingsecret: Option<Vec<u8>>,
}

/// The mathematical value of `PairParams`.
pub struct PairParamsView {
    pub phrase: Option<PairPhrase>,
    pub uniqueid: Option<Seq<u8>>,
    pub clientcert: Option<Seq<u8>>,
    pub salt: Option<Seq<u8>>,
    pub clientchallenge: Option<Seq<u8>>,
    pub serverchallengeresp: Option<Seq<u8>>,
    pub clientpairingsecret: Option<Seq<u8>>,
}

impl View for PairParams {
    type V = PairParamsView;

    open spec fn view(&self) -> PairParamsView {
        PairParamsView {
            phrase: self.phrase,
            uniqueid: opt_view(self.uniqueid),
            clientcert: opt_view(self.clientcert),
            salt: opt_view(self.salt),
            clientchallenge: opt_view(self.clientchallenge),
            serverchallengeresp: opt_view(self.serverchallengeresp),
            clientpairingsecret: opt_view(self.clientpairingsecret),
        }
    }
}

/// What `get_server_cert` promises: a fresh record keyed by the unique
/// id, holding the decoded salt and the client certificate's signature,
/// awaiting a PIN; the reply is the server certificate, hex-encoded.
pub open spec fn get_server_cert_post(
    pre: Map<Seq<u8>, ClientRecordView>,
    post: Map<Seq<u8>, ClientRecordView>,
    server: ServerIdentityView,
    p: PairParamsView,
    r: Result<Vec<u8>, PairingError>,
) -> bool {
    if p.clientcert is None || p.uniqueid is None || p.salt is None {
        r == Err::<Vec<u8>, PairingError>(PairingError::MissingParameter) && post == pre
    } else {
        let id = p.uniqueid->0;
        let cc = p.clientcert->0;
        let salt_hex = p.salt->0;
        if !hexcode::hex_text_ok(cc) || !hexcode::hex_text_ok(salt_hex) {
            r == Err::<Vec<u8>, PairingError>(PairingError::BadHex) && post == pre
        } else if hexcode::hex_bytes_of(salt_hex).len() != 16 {
            r == Err::<Vec<u8>, PairingError>(PairingError::BadLength) && post == pre
        } else if !crypto::x509_pem_parses(hexcode::hex_bytes_of(cc)) {
            r == Err::<Vec<u8>, PairingError>(PairingError::BadCertificate) && post == pre
        } else {
            &&& r matches Ok(v)
            &&& post == pre.insert(id, (ClientRecordView {
                salt: hexcode::hex_bytes_of(salt_hex),
                cert_signature: crypto::x509_signature_of(hexcode::hex_bytes_of(cc)),
                phase: PairingPhase::AwaitingPin,
                key: None,
                server_secret: None,
                server_challenge: None,
                client_hash: None,
            }))
            &&& v@ == hexcode::hex_text_of(server.cert_pem)
        }
    }
}

/// First pairing phase: create the client record and hand back the
/// server certificate. The web layer then holds the reply until a PIN
/// arrives at `/pin`.
pub fn get_server_cert(store: &mut ClientStore, server: &ServerIdentity, params: &PairParams) -> (r: Result<
    Vec<u8>,
    PairingError,
>)
    requires
        old(store).wf(),
    ensures
        final(store).wf(),
        get_server_cert_post(old(store)@, final(store)@, server@, params@, r),
{
    let client_cert_hex = match &params.clientcert {
        Some(c) => c,
        None => {
            return Err(PairingError::MissingParameter);
        },
    };
    let unique_id = match &params.uniqueid {
        Some(u) => u,
        None => {
            return Err(PairingError::MissingParameter);
        },
    };
    let salt_hex = match &params.salt {
        Some(s) => s,
        None => {
            return Err(PairingError::MissingParameter);
        },
    };
    let client_cert = match hexcode::hex_decode(client_cert_hex.as_slice()) {
        Ok(c) => c,
        Err(()) => {
            return Err(PairingError::BadHex);
        },
    };
    let salt = match hexcode::hex_decode(salt_hex.as_slice()) {
        Ok(s) => s,
        Err(()) => {
            return Err(PairingError::BadHex);
        },
    };
    if salt.len() != 16 {
        return Err(PairingError::BadLength);
    }
    let cert_signature = match crypto::x509_signature_from_pem(client_cert.as_slice()) {
        Ok(s) => s,
        Err(()) => {
            return Err(PairingError::BadCertificate);
        },
    };
    let record = ClientRecord {
        salt,
        cert_signature,
        phase: PairingPhase::AwaitingPin,
        key: None,
        server_secret: None,
        server_challenge: None,
        client_hash: None,
    };
    store.insert_record(wire::bytes_of(unique_id.as_slice()), record);
    Ok(hexcode::hex_encode(server.cert_pem.as_slice()))
}

/// What `pin` promises: the record moves from `AwaitingPin` to
/// `PinSet`, with the key derived from its salt and the PIN.
pub open spec fn pin_post(
    pre: Map<Seq<u8>, ClientRecordView>,
    post: Map<Seq<u8>, ClientRecordView>,
    uniqueid: Option<Seq<u8>>,
    pin: Option<Seq<u8>>,
    r: Result<(), PairingError>,
) -> bool {
    if uniqueid is None || pin is None {
        r == Err::<(), PairingError>(PairingError::MissingParameter) && post == pre
    } else {
        let id = uniqueid->0;
        if !pre.contains_key(id) {
            r == Err::<(), PairingError>(PairingError::UnknownClient) && post == pre
        } else if pre[id].phase != PairingPhase::AwaitingPin {
            r == Err::<(), PairingError>(PairingError::WrongPhase) && post == pre
        } else {
            &&& r is Ok
            &&& post == pre.insert(id, (ClientRecordView {
                phase: PairingPhase::PinSet,
                key: Some(crypto::sha256_of(pre[id].salt + pin->0).subrange(0, 16)),
                ..pre[id]
            }))
        }
    }
}

/// Second pairing phase: the PIN the user typed arrives and the AES
/// key is derived from salt and PIN.
pub fn pin(store: &mut ClientStore, uniqueid: &Option<Vec<u8>>, pin_text: &Option<Vec<u8>>) -> (r: Result<
    (),
    PairingError,
>)
    requires
        old(store).wf(),
    ensures
        final(store).wf(),
        pin_post(old(store)@, final(store)@, opt_view(*uniqueid), opt_view(*pin_text), r),
{
    let unique_id = match uniqueid {
        Some(u) => u,
        None => {
            return Err(PairingError::MissingParameter);
        },
    };
    let pin_bytes = match pin_text {
        Some(p) => p,
        None => {
            return Err(PairingError::MissingParameter);
        },
    };
    let idx = match store.find(unique_id.as_slice()) {
        Some(i) => i,
        None => {
            return Err(PairingError::UnknownClient);
        },
    };
    proof {
        old(store).lemma_view_at(idx as int);
    }
    match store.entries[idx].1.phase {
        PairingPhase::AwaitingPin => {},
        _ => {
            return Err(PairingError::WrongPhase);
        },
    }
    let salt = wire::bytes_of(store.entries[idx].1.salt.as_slice());
    let cert_signature = wire::bytes_of(store.entries[idx].1.cert_signature.as_slice());
    let key = create_key(salt.as_slice(), pin_bytes.as_slice());
    let record = ClientRecord {
        salt,
        cert_signature,
        phase: PairingPhase::PinSet,
        key: Some(key),
        server_secret: None,
        server_challenge: None,
        client_hash: None,
    };
    proof {
        let old_rec = old(store)@[unique_id@];
        assert(old_rec.wf());
        assert(record@ == ClientRecordView { phase: PairingPhase::PinSet, key: record@.key, ..old_rec });
    }
    store.set_record_at(idx, record);
    Ok(())
}

/// What `client_challenge` promises: fresh 16-byte server secret and
/// server challenge are drawn and stored, and the reply is
/// `ECB-encrypt(SHA-256(decrypted challenge ‖ server cert signature ‖
/// server secret) ‖ server challenge)`, hex-encoded.
pub open spec fn client_challenge_post(
    pre: Map<Seq<u8>, ClientRecordView>,
    post: Map<Seq<u8>, ClientRecordView>,
    server: ServerIdentityView,
    p: PairParamsView,
    r: Result<Vec<u8>, PairingError>,
) -> bool {
    if p.uniqueid is None || p.clientchallenge is None {
        r == Err::<Vec<u8>, PairingError>(PairingError::MissingParameter) && post == pre
    } else {
        let id = p.uniqueid->0;
        let cc = p.clientchallenge->0;
        if !hexcode::hex_text_ok(cc) {
            r == Err::<Vec<u8>, PairingError>(PairingError::BadHex) && post == pre
        } else if !pre.contains_key(id) {
            r == Err::<Vec<u8>, PairingError>(PairingError::UnknownClient) && post == pre
        } else if pre[id].phase != PairingPhase::PinSet {
            r == Err::<Vec<u8>, PairingError>(PairingError::WrongPhase) && post == pre
        } else if hexcode::hex_bytes_of(cc).len() % 16 != 0 {
            r == Err::<Vec<u8>, PairingError>(PairingError::BadLength) && post == pre
        } else {
            let key = pre[id].key->0;
            let new_rec = post[id];
            &&& r is Ok
            &&& post.contains_key(id)
            &&& post == pre.insert(id, new_rec)
            &&& new_rec == (ClientRecordView {
                phase: PairingPhase::ChallengeIssued,
                server_secret: new_rec.server_secret,
                server_challenge: new_rec.server_challenge,
                ..pre[id]
            })
            &&& new_rec.server_secret is Some
            &&& new_rec.server_secret->0.len() == 16
            &&& new_rec.server_challenge is Some
            &&& new_rec.server_challenge->0.len() == 16
            &&& r->Ok_0@ == hexcode::hex_text_of(crypto::aes_ecb_encrypt_of(key, crypto::sha256_of(
                crypto::aes_ecb_decrypt_of(key, hexcode::hex_bytes_of(cc)) + server.cert_signature
                    + new_rec.server_secret->0,
            ) + new_rec.server_challenge->0))
        }
    }
}

/// Third pairing phase: decrypt the client's challenge, bind the
/// server certificate and a fresh secret into its hash, and answer with
/// a challenge of our own.
pub fn client_challenge(store: &mut ClientStore, server: &ServerIdentity, params: &PairParams) -> (r: Result<
    Vec<u8>,
    PairingError,
>)
    requires
        old(store).wf(),
    ensures
        final(store).wf(),
        client_challenge_post(old(store)@, final(store)@, server@, params@, r),
{
    let unique_id = match &params.uniqueid {
        Some(u) => u,
        None => {
            return Err(PairingError::MissingParameter);
        },
    };
    let challenge_hex = match &params.clientchallenge {
        Some(c) => c,
        None => {
            return Err(PairingError::MissingParameter);
        },
    };
    let challenge = match hexcode::hex_decode(challenge_hex.as_slice()) {
        Ok(c) => c,
        Err(()) => {
            return Err(PairingError::BadHex);
        },
    };
    let idx = match store.find(unique_id.as_slice()) {
        Some(i) => i,
        None => {
            return Err(PairingError::UnknownClient);
        },
    };
    proof {
        old(store).lemma_view_at(idx as int);
    }
    match store.entries[idx].1.phase {
        PairingPhase::PinSet => {},
        _ => {
            return Err(PairingError::WrongPhase);
        },
    }
    if challenge.len() % 16 != 0 {
        return Err(PairingError::BadLength);
    }
    let key = match &store.entries[idx].1.key {
        Some(k) => wire::bytes_of(k.as_slice()),
        None => {
            return Err(PairingError::WrongPhase);
        },
    };
    let salt = wire::bytes_of(store.entries[idx].1.salt.as_slice());
    let cert_signature = wire::bytes_of(store.entries[idx].1.cert_signature.as_slice());

    let server_secret = crypto::random_bytes_16();
    let server_challenge = crypto::random_bytes_16();

    let mut data = crypto::decrypt(challenge.as_slice(), key.as_slice());
    wire::append_bytes(&mut data, server.cert_signature.as_slice());
    wire::append_bytes(&mut data, server_secret.as_slice());

    let mut challenge_response = crypto::sha256(data.as_slice());
    wire::append_bytes(&mut challenge_response, server_challenge.as_slice());

    let encrypted = crypto::encrypt(challenge_response.as_slice(), key.as_slice());
    let out = hexcode::hex_encode(encrypted.as_slice());

    let record = ClientRecord {
        salt,
        cert_signature,
        phase: PairingPhase::ChallengeIssued,
        key: Some(key),
        server_secret: Some(server_secret),
        server_challenge: Some(server_challenge),
        client_hash: None,
    };
    proof {
        let old_rec = old(store)@[unique_id@];
        assert(old_rec.wf());
        assert(record@ == ClientRecordView {
            phase: PairingPhase::ChallengeIssued,
            server_secret: record@.server_secret,
            server_challenge: record@.server_challenge,
            ..old_rec
        });
    }
    store.set_record_at(idx, record);
    Ok(out)
}

/// What `server_challenge_response` promises: the decrypted response is
/// stored as the client's committed hash, and the reply is the server
/// secret followed by its RSA-SHA256 signature, hex-encoded.
pub open spec fn server_challenge_response_post(
    pre: Map<Seq<u8>, ClientRecordView>,
    post: Map<Seq<u8>, ClientRecordView>,
    server: ServerIdentityView,
    p: PairParamsView,
    r: Result<Vec<u8>, PairingError>,
) -> bool {
    if p.uniqueid is None || p.serverchallengeresp is None {
        r == Err::<Vec<u8>, PairingError>(PairingError::MissingParameter) && post == pre
    } else {
        let id = p.uniqueid->0;
        let resp = p.serverchallengeresp->0;
        if !hexcode::hex_text_ok(resp) {
            r == Err::<Vec<u8>, PairingError>(PairingError::BadHex) && post == pre
        } else if !pre.contains_key(id) {
            r == Err::<Vec<u8>, PairingError>(PairingError::UnknownClient) && post == pre
        } else if pre[id].phase != PairingPhase::ChallengeIssued {
            r == Err::<Vec<u8>, PairingError>(PairingError::WrongPhase) && post == pre
        } else if hexcode::hex_bytes_of(resp).len() % 16 != 0 {
            r == Err::<Vec<u8>, PairingError>(PairingError::BadLength) && post == pre
        } else if !crypto::rsa_key_signs(server.key_pem) {
            r == Err::<Vec<u8>, PairingError>(PairingError::BadKey) && post == pre
        } else {
            let key = pre[id].key->0;
            let secret = pre[id].server_secret->0;
            &&& r matches Ok(v)
            &&& post == pre.insert(id, (ClientRecordView {
                phase: PairingPhase::SecretExchanged,
                client_hash: Some(crypto::aes_ecb_decrypt_of(key, hexcode::hex_bytes_of(resp))),
                ..pre[id]
            }))
            &&& v@ == hexcode::hex_text_of(
                secret + crypto::rsa_sha256_signature(server.key_pem, secret),
            )
        }
    }
}

/// Fourth pairing phase: record the client's committed hash and hand
/// out the signed server secret.
pub fn server_challenge_response(store: &mut ClientStore, server: &ServerIdentity, params: &PairParams) -> (r: Result<
    Vec<u8>,
    PairingError,
>)
    requires
        old(store).wf(),
    ensures
        final(store).wf(),
        server_challenge_response_post(old(store)@, final(store)@, server@, params@, r),
{
    let unique_id = match &params.uniqueid {
        Some(u) => u,
        None => {
            return Err(PairingError::MissingParameter);
        },
    };
    let resp_hex = match &params.serverchallengeresp {
        Some(c) => c,
        None => {
            return Err(PairingError::MissingParameter);
        },
    };
    let resp = match hexcode::hex_decode(resp_hex.as_slice()) {
        Ok(c) => c,
        Err(()) => {
            return Err(PairingError::BadHex);
        },
    };
    let idx = match store.find(unique_id.as_slice()) {
        Some(i) => i,
        None => {
            return Err(PairingError::UnknownClient);
        },
    };
    proof {
        old(store).lemma_view_at(idx as int);
    }
    match store.entries[idx].1.phase {
        PairingPhase::ChallengeIssued => {},
        _ => {
            return Err(PairingError::WrongPhase);
        },
    }
    if resp.len() % 16 != 0 {
        return Err(PairingError::BadLength);
    }
    let key = match &store.entries[idx].1.key {
        Some(k) => wire::bytes_of(k.as_slice()),
        None => {
            return Err(PairingError::WrongPhase);
        },
    };
    let server_secret = match &store.entries[idx].1.server_secret {
        Some(s) => wire::bytes_of(s.as_slice()),
        None => {
            return Err(PairingError::WrongPhase);
        },
    };
    let server_challenge = match &store.entries[idx].1.server_challenge {
        Some(s) => wire::bytes_of(s.as_slice()),
        None => {
            return Err(PairingError::WrongPhase);
        },
    };
    let server_secret_kept = wire::bytes_of(server_secret.as_slice());
    let salt = wire::bytes_of(store.entries[idx].1.salt.as_slice());
    let cert_signature = wire::bytes_of(store.entries[idx].1.cert_signature.as_slice());

    // sign first, so that a failure leaves the record untouched
    let signature = match crypto::sign(server_secret.as_slice(), server.key_pem.as_slice()) {
        Ok(s) => s,
        Err(()) => {
            return Err(PairingError::BadKey);
        },
    };
    let client_hash = crypto::decrypt(resp.as_slice(), key.as_slice());

    let mut pairing_secret = server_secret;
    wire::append_bytes(&mut pairing_secret, signature.as_slice());
    let out = hexcode::hex_encode(pairing_secret.as_slice());

    let record = ClientRecord {
        salt,
        cert_signature,
        phase: PairingPhase::SecretExchanged,
        key: Some(key),
        server_secret: Some(server_secret_kept),
        server_challenge: Some(server_challenge),
        client_hash: Some(client_hash),
    };
    proof {
        let old_rec = old(store)@[unique_id@];
        assert(old_rec.wf());
        assert(record@ == ClientRecordView {
            phase: PairingPhase::SecretExchanged,
            client_hash: record@.client_hash,
            ..old_rec
        });
    }
    store.set_record_at(idx, record);
    Ok(out)
}

/// What `client_pairing_secret` promises: with the record in
/// `SecretExchanged`, the request succeeds exactly when
/// `SHA-256(server challenge ‖ client cert signature ‖ client secret)`
/// equals the hash the client committed to; success moves the record
/// to `Verified`, a mismatch changes nothing.
pub open spec fn client_pairing_secret_post(
    pre: Map<Seq<u8>, ClientRecordView>,
    post: Map<Seq<u8>, ClientRecordView>,
    p: PairParamsView,
    r: Result<(), PairingError>,
) -> bool {
    if p.uniqueid is None || p.clientpairingsecret is None {
        r == Err::<(), PairingError>(PairingError::MissingParameter) && post == pre
    } else {
        let id = p.uniqueid->0;
        let cps = p.clientpairingsecret->0;
        if !hexcode::hex_text_ok(cps) {
            r == Err::<(), PairingError>(PairingError::BadHex) && post == pre
        } else if !pre.contains_key(id) {
            r == Err::<(), PairingError>(PairingError::UnknownClient) && post == pre
        } else if pre[id].phase != PairingPhase::SecretExchanged {
            r == Err::<(), PairingError>(PairingError::WrongPhase) && post == pre
        } else if hexcode::hex_bytes_of(cps).len() != 272 {
            r == Err::<(), PairingError>(PairingError::BadLength) && post == pre
        } else {
            let rec = pre[id];
            let client_secret = hexcode::hex_bytes_of(cps).subrange(0, 16);
            let expected = crypto::sha256_of(
                rec.server_challenge->0 + rec.cert_signature + client_secret,
            );
            if expected == rec.client_hash->0 {
                &&& r is Ok
                &&& post == pre.insert(id, (ClientRecordView { phase: PairingPhase::Verified, ..rec }))
            } else {
                r == Err::<(), PairingError>(PairingError::HashMismatch) && post == pre
            }
        }
    }
}

/// Fifth pairing phase: check the client's pairing secret against its
/// committed hash; a mismatch is the mark of a man in the middle.
pub fn client_pairing_secret(store: &mut ClientStore, params: &PairParams) -> (r: Result<
    (),
    PairingError,
>)
    requires
        old(store).wf(),
    ensures
        final(store).wf(),
        client_pairing_secret_post(old(store)@, final(store)@, params@, r),
{
    let unique_id = match &params.uniqueid {
        Some(u) => u,
        None => {
            return Err(PairingError::MissingParameter);
        },
    };
    let secret_hex = match &params.clientpairingsecret {
        Some(c) => c,
        None => {
            return Err(PairingError::MissingParameter);
        },
    };
    let secret = match hexcode::hex_decode(secret_hex.as_slice()) {
        Ok(c) => c,
        Err(()) => {
            return Err(PairingError::BadHex);
        },
    };
    let idx = match store.find(unique_id.as_slice()) {
        Some(i) => i,
        None => {
            return Err(PairingError::UnknownClient);
        },
    };
    proof {
        old(store).lemma_view_at(idx as int);
    }
    match store.entries[idx].1.phase {
        PairingPhase::SecretExchanged => {},
        _ => {
            return Err(PairingError::WrongPhase);
        },
    }
    if secret.len() != 272 {
        return Err(PairingError::BadLength);
    }
    let client_secret = wire::bytes_prefix(secret.as_slice(), 16);

    let server_challenge = match &store.entries[idx].1.server_challenge {
        Some(s) => wire::bytes_of(s.as_slice()),
        None => {
            return Err(PairingError::WrongPhase);
        },
    };
    let mut data = server_challenge;
    wire::append_bytes(&mut data, store.entries[idx].1.cert_signature.as_slice());
    wire::append_bytes(&mut data, client_secret.as_slice());
    let expected = crypto::sha256(data.as_slice());

    let matches_hash = match &store.entries[idx].1.client_hash {
        Some(h) => wire::bytes_eq(expected.as_slice(), h.as_slice()),
        None => {
            return Err(PairingError::WrongPhase);
        },
    };
    if !matches_hash {
        return Err(PairingError::HashMismatch);
    }

    let key = match &store.entries[idx].1.key {
        Some(k) => wire::bytes_of(k.as_slice()),
        None => {
            return Err(PairingError::WrongPhase);
        },
    };
    let server_secret = match &store.entries[idx].1.server_secret {
        Some(s) => wire::bytes_of(s.as_slice()),
        None => {
            return Err(PairingError::WrongPhase);
        },
    };
    let server_challenge_kept = match &store.entries[idx].1.server_challenge {
        Some(s) => wire::bytes_of(s.as_slice()),
        None => {
            return Err(PairingError::WrongPhase);
        },
    };
    let client_hash = match &store.entries[idx].1.client_hash {
        Some(h) => wire::bytes_of(h.as_slice()),
        None => {
            return Err(PairingError::WrongPhase);
        },
    };
    let record = ClientRecord {
        salt: wire::bytes_of(store.entries[idx].1.salt.as_slice()),
        cert_signature: wire::bytes_of(store.entries[idx].1.cert_signature.as_slice()),
        phase: PairingPhase::Verified,
        key: Some(key),
        server_secret: Some(server_secret),
        server_challenge: Some(server_challenge_kept),
        client_hash: Some(client_hash),
    };
    proof {
        let old_rec = old(store)@[unique_id@];
        assert(old_rec.wf());
        assert(record@ == ClientRecordView { phase: PairingPhase::Verified, ..old_rec });
    }
    store.set_record_at(idx, record);
    Ok(())
}

/// What `pair_challenge` promises: succeeds exactly for a known,
/// verified client; the store never changes.
pub open spec fn pair_challenge_post(
    pre: Map<Seq<u8>, ClientRecordView>,
    post: Map<Seq<u8>, ClientRecordView>,
    p: PairParamsView,
    r: Result<(), PairingError>,
) -> bool {
    &&& post == pre
    &&& if p.uniqueid is None {
        r == Err::<(), PairingError>(PairingError::MissingParameter)
    } else if !pre.contains_key(p.uniqueid->0) {
        r == Err::<(), PairingError>(PairingError::UnknownClient)
    } else if pre[p.uniqueid->0].phase != PairingPhase::Verified {
        r == Err::<(), PairingError>(PairingError::WrongPhase)
    } else {
        r is Ok
    }
}

/// Idempotent check that a client exists and has completed pairing.
pub fn pair_challenge(store: &mut ClientStore, params: &PairParams) -> (r: Result<(), PairingError>)
    requires
        old(store).wf(),
    ensures
        final(store).wf(),
        pair_challenge_post(old(store)@, final(store)@, params@, r),
{
    let unique_id = match &params.uniqueid {
        Some(u) => u,
        None => {
            return Err(PairingError::MissingParameter);
        },
    };
    let idx = match store.find(unique_id.as_slice()) {
        Some(i) => i,
        None => {
            return Err(PairingError::UnknownClient);
        },
    };
    proof {
        old(store).lemma_view_at(idx as int);
    }
    match store.entries[idx].1.phase {
        PairingPhase::Verified => Ok(()),
        _ => Err(PairingError::WrongPhase),
    }
}

/// What `unpair` promises: the record for the id is gone; succeeds
/// exactly when one existed.
pub open spec fn unpair_post(
    pre: Map<Seq<u8>, ClientRecordView>,
    post: Map<Seq<u8>, ClientRecordView>,
    uniqueid: Option<Seq<u8>>,
    r: Result<(), PairingError>,
) -> bool {
    if uniqueid is None {
        r == Err::<(), PairingError>(PairingError::MissingParameter) && post == pre
    } else if !pre.contains_key(uniqueid->0) {
        r == Err::<(), PairingError>(PairingError::UnknownClient) && post == pre
    } else {
        r is Ok && post == pre.remove(uniqueid->0)
    }
}

/// Drop a client's pairing record.
pub fn unpair(store: &mut ClientStore, uniqueid: &Option<Vec<u8>>) -> (r: Result<(), PairingError>)
    requires
        old(store).wf(),
    ensures
        final(store).wf(),
        unpair_post(old(store)@, final(store)@, opt_view(*uniqueid), r),
{
    let unique_id = match uniqueid {
        Some(u) => u,
        None => {
            return Err(PairingError::MissingParameter);
        },
    };
    let existed = store.remove_record(unique_id.as_slice());
    if existed {
        Ok(())
    } else {
        proof {
            assert_maps_equal!(old(store)@.remove(unique_id@), old(store)@);
        }
        Err(PairingError::UnknownClient)
    }
}

/// A successful `/pair` reply; the web layer wraps it in the fixed XML
/// envelope.
#[derive(Debug)]
pub enum PairResponse {
    /// The hex-encoded server certificate (`plaincert`).
    ServerCert(Vec<u8>),
    /// The hex-encoded encrypted challenge answer (`challengeresponse`).
    ChallengeResponse(Vec<u8>),
    /// The hex-encoded signed server secret (`pairingsecret`).
    PairingSecret(Vec<u8>),
    /// A bare `<paired>1</paired>` acknowledgement.
    Paired,
}

/// What `pair` promises: the request is routed by which parameter is
/// present — `phrase` first, then `clientchallenge`,
/// `serverchallengeresp`, `clientpairingsecret` — and the routed
/// phase's own promise holds; anything else is turned away unchanged.
pub open spec fn pair_post(
    pre: Map<Seq<u8>, ClientRecordView>,
    post: Map<Seq<u8>, ClientRecordView>,
    server: ServerIdentityView,
    p: PairParamsView,
    r: Result<PairResponse, PairingError>,
) -> bool {
    match p.phrase {
        Some(PairPhrase::GetServerCert) => match r {
            Ok(PairResponse::ServerCert(v)) => get_server_cert_post(pre, post, server, p, Ok(v)),
            Ok(_) => false,
            Err(e) => get_server_cert_post(pre, post, server, p, Err(e)),
        },
        Some(PairPhrase::PairChallenge) => match r {
            Ok(PairResponse::Paired) => pair_challenge_post(pre, post, p, Ok(())),
            Ok(_) => false,
            Err(e) => pair_challenge_post(pre, post, p, Err(e)),
        },
        Some(PairPhrase::Unknown) => r == Err::<PairResponse, PairingError>(
            PairingError::UnrecognizedRequest,
        ) && post == pre,
        None => {
            if p.clientchallenge is Some {
                match r {
                    Ok(PairResponse::ChallengeResponse(v)) => client_challenge_post(pre, post, server, p, Ok(v)),
                    Ok(_) => false,
                    Err(e) => client_challenge_post(pre, post, server, p, Err(e)),
                }
            } else if p.serverchallengeresp is Some {
                match r {
                    Ok(PairResponse::PairingSecret(v)) => server_challenge_response_post(pre, post, server, p, Ok(v)),
                    Ok(_) => false,
                    Err(e) => server_challenge_response_post(pre, post, server, p, Err(e)),
                }
            } else if p.clientpairingsecret is Some {
                match r {
                    Ok(PairResponse::Paired) => client_pairing_secret_post(pre, post, p, Ok(())),
                    Ok(_) => false,
                    Err(e) => client_pairing_secret_post(pre, post, p, Err(e)),
                }
            } else {
                r == Err::<PairResponse, PairingError>(PairingError::UnrecognizedRequest) && post
                    == pre
            }
        },
    }
}

/// Route a `/pair` request to its phase by the parameters it carries.
pub fn pair(store: &mut ClientStore, server: &ServerIdentity, params: &PairParams) -> (r: Result<
    PairResponse,
    PairingError,
>)
    requires
        old(store).wf(),
    ensures
        final(store).wf(),
        pair_post(old(store)@, final(store)@, server@, params@, r),
{
    match &params.phrase {
        Some(PairPhrase::GetServerCert) => match get_server_cert(store, server, params) {
            Ok(v) => Ok(PairResponse::ServerCert(v)),
            Err(e) => Err(e),
        },
        Some(PairPhrase::PairChallenge) => match pair_challenge(store, params) {
            Ok(()) => Ok(PairResponse::Paired),
            Err(e) => Err(e),
        },
        Some(PairPhrase::Unknown) => Err(PairingError::UnrecognizedRequest),
        None => {
            if params.clientchallenge.is_some() {
                match client_challenge(store, server, params) {
                    Ok(v) => Ok(PairResponse::ChallengeResponse(v)),
                    Err(e) => Err(e),
                }
            } else if params.serverchallengeresp.is_some() {
                match server_challenge_response(store, server, params) {
                    Ok(v) => Ok(PairResponse::PairingSecret(v)),
                    Err(e) => Err(e),
                }
            } else if params.clientpairingsecret.is_some() {
                match client_pairing_secret(store, params) {
                    Ok(()) => Ok(PairResponse::Paired),
                    Err(e) => Err(e),
                }
            } else {
                Err(PairingError::UnrecognizedRequest)
            }
        },
    }
}

/// Law: a full five-phase exchange in which every phase succeeds for
/// one unique id leaves that client's record `Verified`, under the key
/// derived from its salt and PIN.
pub proof fn lemma_five_phases_verify(
    m0: Map<Seq<u8>, ClientRecordView>,
    m1: Map<Seq<u8>, ClientRecordView>,
    m2: Map<Seq<u8>, ClientRecordView>,
    m3: Map<Seq<u8>, ClientRecordView>,
    m4: Map<Seq<u8>, ClientRecordView>,
    m5: Map<Seq<u8>, ClientRecordView>,
    server: ServerIdentityView,
    p_cert: PairParamsView,
    pin_text: Option<Seq<u8>>,
    p_cc: PairParamsView,
    p_scr: PairParamsView,
    p_cps: PairParamsView,
    cert_reply: Vec<u8>,
    cc_reply: Vec<u8>,
    scr_reply: Vec<u8>,
    id: Seq<u8>,
)
    requires
        get_server_cert_post(m0, m1, server, p_cert, Ok(cert_reply)),
        pin_post(m1, m2, Some(id), pin_text, Ok(())),
        client_challenge_post(m2, m3, server, p_cc, Ok(cc_reply)),
        server_challenge_response_post(m3, m4, server, p_scr, Ok(scr_reply)),
        client_pairing_secret_post(m4, m5, p_cps, Ok(())),
        p_cert.uniqueid == Some(id),
        p_cc.uniqueid == Some(id),
        p_scr.uniqueid == Some(id),
        p_cps.uniqueid == Some(id),
    ensures
        m5.contains_key(id),
        m5[id].phase == PairingPhase::Verified,
        m5[id].key == Some(
            crypto::sha256_of(hexcode::hex_bytes_of(p_cert.salt->0) + pin_text->0).subrange(0, 16),
        ),
{
    assert(m1[id].salt == hexcode::hex_bytes_of(p_cert.salt->0));
    assert(m2[id].key == Some(
        crypto::sha256_of(hexcode::hex_bytes_of(p_cert.salt->0) + pin_text->0).subrange(0, 16),
    ));
    assert(m3[id].key == m2[id].key);
    assert(m4[id].key == m3[id].key);
    assert(m5[id].key == m4[id].key);
}

/// The AES-128 pairing key derived from a salt and a PIN: the first 16
/// bytes of SHA-256(salt ‖ pin).
pub fn create_key(salt: &[u8], pin: &[u8]) -> (r: Vec<u8>)
    ensures
        r@ == crypto::sha256_of(salt@ + pin@).subrange(0, 16),
        r@.len() == 16,
{
    let mut data = wire::bytes_of(salt);
    wire::append_bytes(&mut data, pin);
    let mut digest = crypto::sha256(data.as_slice());
    digest.truncate(16);
    digest
}

} // verus!
