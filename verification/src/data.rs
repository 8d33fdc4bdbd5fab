use vstd::prelude::*;

verus! {

/// An exit-relay descriptor, kept exactly as the authority serialized it.
/// The cache never interprets its bytes.
pub type ExitDescriptor = Vec<u8>;

/// A bridge descriptor, kept exactly as the authority serialized it.
/// The cache never interprets its bytes.
pub type BridgeDescriptor = Vec<u8>;

/// The mathematical content of a list of opaque descriptors: one byte
/// sequence per descriptor, in order.
pub open spec fn bytes_seq_view(v: Seq<Vec<u8>>) -> Seq<Seq<u8>> {
    Seq::new(v.len(), |i: int| v[i]@)
}

/// A time-boxed, unlinkable authorization credential, bound to one
/// entitlement level and one epoch.
#[derive(Debug)]
pub struct Token {
    /// The account record the authority reported, kept as opaque bytes.
    pub user_info: Vec<u8>,
    /// The entitlement level the token was granted for: "plus" or "free".
    pub level: String,
    /// The epoch (day number) the token is valid in.
    pub epoch: u16,
    /// The full-domain-hash digest that was blind-signed.
    pub unblinded_digest: Vec<u8>,
    /// The unblinded signature over the digest, verified against the
    /// level's long-term public key.
    pub unblinded_signature: mizaru::UnblindedSignature,
}

/// The mathematical content of a `Token`.
#[verifier::ext_equal]
pub struct TokenView {
    pub user_info: Seq<u8>,
    pub level: Seq<char>,
    pub epoch: u16,
    pub unblinded_digest: Seq<u8>,
    pub unblinded_signature: mizaru::UnblindedSignature,
}

impl View for Token {
    type V = TokenView;

    open spec fn view(&self) -> TokenView {
        TokenView {
            user_info: self.user_info@,
            level: self.level@,
            epoch: self.epoch,
            unblinded_digest: self.unblinded_digest@,
            unblinded_signature: self.unblinded_signature,
        }
    }
}

/// One value the cache can hold, tagged by kind.
pub enum CacheValue {
    AuthToken(Token),
    Exits(Vec<ExitDescriptor>),
    Bridges(Vec<BridgeDescriptor>),
}

/// The mathematical content of a `CacheValue`.
#[verifier::ext_equal]
pub enum CacheValueView {
    AuthToken(TokenView),
    Exits(Seq<Seq<u8>>),
    Bridges(Seq<Seq<u8>>),
}

impl View for CacheValue {
    type V = CacheValueView;

    open spec fn view(&self) -> CacheValueView {
        match self {
            CacheValue::AuthToken(t) => CacheValueView::AuthToken(t@),
            CacheValue::Exits(v) => CacheValueView::Exits(bytes_seq_view(v@)),
            CacheValue::Bridges(v) => CacheValueView::Bridges(bytes_seq_view(v@)),
        }
    }
}

/// Everything that can go wrong while reading through the cache or
/// acquiring a token.
#[derive(Debug, Clone, PartialEq, Eq)]
pub enum CacheError {
    /// A single network call exceeded its hard deadline.
    Timeout,
    /// The authority reported a failure other than a wrong entitlement
    /// level, or answered with an unexpected response kind.
    Transport(String),
    /// The authority reported that the account is not entitled at the
    /// requested level.
    WrongLevel,
    /// No entitlement level yielded a token.
    LevelsExhausted,
    /// The unblinded signature did not verify against the level's
    /// long-term public key: fatal, never retried at another level.
    SignatureVerification,
}

/// How a single authority request failed, as the transport reports it.
#[derive(Debug, Clone, PartialEq, Eq)]
pub enum TransportError {
    /// The account is not entitled at the level named in the request.
    WrongLevel,
    /// The call exceeded its hard deadline.
    Timeout,
    /// Any other transport or authority failure.
    Other(String),
}

/// How a `TransportError` surfaces to cache callers.
pub open spec fn transport_to_cache(e: TransportError) -> CacheError {
    match e {
        TransportError::WrongLevel => CacheError::WrongLevel,
        TransportError::Timeout => CacheError::Timeout,
        TransportError::Other(s) => CacheError::Transport(s),
    }
}

/// Maps a transport failure to the error the cache reports.
pub fn map_transport_err(e: TransportError) -> (r: CacheError)
    ensures
        r == transport_to_cache(e),
{
    match e {
        TransportError::WrongLevel => CacheError::WrongLevel,
        TransportError::Timeout => CacheError::Timeout,
        TransportError::Other(s) => CacheError::Transport(s),
    }
}

/// One request to the remote authority.
pub enum BinderRequest {
    GetEpochKey { level: String, epoch: u16 },
    Authenticate {
        username: String,
        password: String,
        level: String,
        epoch: u16,
        blinded_digest: Vec<u8>,
    },
    GetBridges {
        level: String,
        unblinded_digest: Vec<u8>,
        unblinded_signature: mizaru::UnblindedSignature,
        exit_hostname: String,
    },
    GetExits,
    GetFreeExits,
}

/// One successful response from the remote authority.
pub enum BinderResponse {
    GetEpochKeyResp(rsa::RSAPublicKey),
    AuthenticateResp { user_info: Vec<u8>, blind_signature: mizaru::BlindedSignature },
    GetBridgesResp(Vec<BridgeDescriptor>),
    GetExitsResp(Vec<ExitDescriptor>),
}

/// The remote authority as the cache sees it: one request capability.
///
/// Implementations are expected to put a hard deadline on every call and
/// answer `Err(TransportError::Timeout)` when it passes; no contract is
/// assumed here, so every caller in this crate states what holds of its
/// own result whatever the implementation answers.
pub trait AuthorityClient {
    fn request(&self, req: BinderRequest) -> Result<BinderResponse, TransportError>;
}

/// Copies a byte vector.
pub fn clone_bytes(v: &Vec<u8>) -> (r: Vec<u8>)
    ensures
        r@ == v@,
{
    let mut r: Vec<u8> = Vec::new();
    let mut i: usize = 0;
    while i < v.len()
        invariant
            i <= v.len(),
            r@ == v@.take(i as int),
        decreases v.len() - i,
    {
        r.push(v[i]);
        i = i + 1;
        proof {
            assert(r@ =~= v@.take(i as int));
        }
    }
    proof {
        assert(v@.take(v.len() as int) =~= v@);
    }
    r
}

/// Copies a list of opaque descriptors.
pub fn clone_descriptors(v: &Vec<Vec<u8>>) -> (r: Vec<Vec<u8>>)
    ensures
        bytes_seq_view(r@) == bytes_seq_view(v@),
{
    let mut r: Vec<Vec<u8>> = Vec::new();
    let mut i: usize = 0;
    while i < v.len()
        invariant
            i <= v.len(),
            r@.len() == i,
            forall|j: int| 0 <= j < i ==> r@[j]@ == v@[j]@,
        decreases v.len() - i,
    {
        r.push(clone_bytes(&v[i]));
        i = i + 1;
    }
    proof {
        assert(bytes_seq_view(r@) =~= bytes_seq_view(v@));
    }
    r
}

impl Clone for Token {
    /// Copies the token; the copy has the same mathematical content.
    fn clone(&self) -> (r: Self)
        ensures
            r@ == self@,
    {
        Token {
            user_info: clone_bytes(&self.user_info),
            level: self.level.clone(),
            epoch: self.epoch,
            unblinded_digest: clone_bytes(&self.unblinded_digest),
            unblinded_signature: crate::outside::clone_signature(&self.unblinded_signature),
        }
    }
}

impl Clone for CacheValue {
    /// Copies the value; the copy has the same mathematical content.
    fn clone(&self) -> (r: Self)
        ensures
            r@ == self@,
    {
        match self {
            CacheValue::AuthToken(t) => CacheValue::AuthToken(t.clone()),
            CacheValue::Exits(v) => CacheValue::Exits(clone_descriptors(v)),
            CacheValue::Bridges(v) => CacheValue::Bridges(clone_descriptors(v)),
        }
    }
}

} // verus!
