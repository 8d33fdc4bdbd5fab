use vstd::prelude::*;
use vstd::string::StringExecFns;
use crate::data::AuthorityClient;
use crate::data::BinderRequest;
use crate::data::BinderResponse;
use crate::data::BridgeDescriptor;
use crate::data::CacheError;
use crate::data::CacheValue;
use crate::data::CacheValueView;
use crate::data::ExitDescriptor;
use crate::data::Token;
use crate::data::TransportError;
use crate::data::bytes_seq_view;
use crate::data::clone_descriptors;
use crate::data::map_transport_err;
use crate::data::transport_to_cache;
use crate::kv::CacheStore;
use crate::kv::RecordView;
use crate::outside::blind_digest;
use crate::outside::fdh_hash;
use crate::outside::fresh_digest;
use crate::outside::unblind_signature;
use crate::outside::unix_now;
use crate::outside::verify_of;
use crate::outside::verify_signature;
use crate::protocol::AttemptResult;
use crate::protocol::epoch_of;
use crate::protocol::spec_acquire;
use crate::protocol::spec_epoch_of;

verus! {

/// Hard deadline expected of every single authority request.
pub const NETWORK_TIMEOUT_SECS: u64 = 120;

/// Grace period of the bounded-latency read: after this long, a stored
/// value may substitute for a still-running refresh.
pub const STALE_TIMEOUT_SECS: u64 = 3;

/// How long a cached token stays fresh.
pub const AUTH_TOKEN_TTL_SECS: u64 = 86400;

/// How long a cached exit list stays fresh.
pub const EXIT_LIST_TTL_SECS: u64 = 3600;

/// How long a cached bridge list stays fresh.
pub const BRIDGE_LIST_TTL_SECS: u64 = 300;

/// The composite key a logical key is stored under: the logical key, a
/// dash, and the account's username, so two accounts never share an
/// entry.
pub open spec fn composite_key(logical: Seq<char>, user: Seq<char>) -> Seq<char> {
    logical + seq!['-'] + user
}

/// The logical key of the bridge list cached for one exit hostname.
pub open spec fn bridges_logical_key(exit_hostname: Seq<char>) -> Seq<char> {
    "cache.bridges."@ + exit_hostname
}

/// What a fresh read yields: the stored value, exactly when a record
/// exists under `k`, its age at `now` is within `ttl`, and no full
/// refresh is forced.
pub open spec fn fresh_hit(
    m: Map<Seq<char>, RecordView>,
    k: Seq<char>,
    now: u64,
    ttl: u64,
    force: bool,
) -> Option<CacheValueView> {
    if !force && m.contains_key(k) && now < m[k].timestamp + ttl {
        Some(m[k].value)
    } else {
        None
    }
}

/// What a staleness-tolerant read yields: the stored value regardless of
/// age, unless a full refresh is forced or no record exists.
pub open spec fn stale_view(m: Map<Seq<char>, RecordView>, k: Seq<char>, force: bool) -> Option<
    CacheValueView,
> {
    if force {
        None
    } else if m.contains_key(k) {
        Some(m[k].value)
    } else {
        None
    }
}

/// Two stores hold the same record (or jointly none) under `k`.
pub open spec fn stores_agree_at(
    m1: Map<Seq<char>, RecordView>,
    m2: Map<Seq<char>, RecordView>,
    k: Seq<char>,
) -> bool {
    m1.contains_key(k) == m2.contains_key(k) && (m1.contains_key(k) ==> m1[k] == m2[k])
}

/// Everything `get_auth_token_at` promises of the caches before and
/// after the call, its result, and the moment `now` of the read.
pub open spec fn auth_token_post<C: AuthorityClient>(
    pre: ClientCache<C>,
    post: ClientCache<C>,
    r: Result<Token, CacheError>,
    now: u64,
) -> bool {
    let k = composite_key("cache.auth_token"@, pre.spec_username());
    let hit = fresh_hit(pre.spec_store(), k, now, AUTH_TOKEN_TTL_SECS, pre.spec_force_sync());
    &&& post.spec_username() == pre.spec_username()
    &&& post.spec_force_sync() == pre.spec_force_sync()
    &&& (hit matches Some(CacheValueView::AuthToken(tv)) ==> r matches Ok(t) && t@ == tv
        && post.spec_store() == pre.spec_store())
    &&& (!(hit matches Some(CacheValueView::AuthToken(_))) ==> match r {
        Ok(t) => post.spec_store() == pre.spec_store().insert(
            k,
            RecordView { value: CacheValueView::AuthToken(t@), timestamp: now },
        ) && (t@.level == "plus"@ || t@.level == "free"@) && t@.epoch == spec_epoch_of(now)
            && verify_of(
            if t@.level == "plus"@ {
                pre.spec_plus_pk()
            } else {
                pre.spec_free_pk()
            },
            t@.unblinded_digest,
            t@.unblinded_signature,
        ),
        Err(_) => post.spec_store() == pre.spec_store(),
    })
}

/// Everything the exit-list reads promise of the caches before and after
/// the call, for the exits or free-exits key, the result, and the moment
/// `now` of the read.
pub open spec fn exit_list_post<C: AuthorityClient>(
    pre: ClientCache<C>,
    post: ClientCache<C>,
    logical: Seq<char>,
    r: Result<Vec<ExitDescriptor>, CacheError>,
    now: u64,
) -> bool {
    let k = composite_key(logical, pre.spec_username());
    let hit = fresh_hit(pre.spec_store(), k, now, EXIT_LIST_TTL_SECS, pre.spec_force_sync());
    &&& post.spec_username() == pre.spec_username()
    &&& post.spec_force_sync() == pre.spec_force_sync()
    &&& (hit matches Some(CacheValueView::Exits(p)) ==> r matches Ok(v) && bytes_seq_view(v@)
        == p && post.spec_store() == pre.spec_store())
    &&& (!(hit matches Some(CacheValueView::Exits(_))) ==> match r {
        Ok(v) => post.spec_store() == pre.spec_store().insert(
            k,
            RecordView { value: CacheValueView::Exits(bytes_seq_view(v@)), timestamp: now },
        ),
        Err(_) => post.spec_store() == pre.spec_store(),
    })
}

/// Everything `get_bridges_at` promises of the caches before and after
/// the call, for one exit hostname, the result, and the moment `now` of
/// the read: only the token key and this hostname's bridges key may
/// change; with a fresh token and a fresh bridge list stored, the stored
/// list is returned and nothing changes; on failure the bridge entry is
/// untouched; a returned list is exactly the one then stored, either the
/// prior record or one committed with fetch time `now`; and the call
/// passes through a token stage first — when that stage fails, its error
/// is returned verbatim and nothing at all has changed since the stage
/// ended.
pub open spec fn bridges_post<C: AuthorityClient>(
    pre: ClientCache<C>,
    post: ClientCache<C>,
    exit_hostname: Seq<char>,
    r: Result<Vec<BridgeDescriptor>, CacheError>,
    now: u64,
) -> bool {
    let tk = composite_key("cache.auth_token"@, pre.spec_username());
    let bk = composite_key(bridges_logical_key(exit_hostname), pre.spec_username());
    let token_hit = fresh_hit(pre.spec_store(), tk, now, AUTH_TOKEN_TTL_SECS, pre.spec_force_sync());
    let bridge_hit = fresh_hit(pre.spec_store(), bk, now, BRIDGE_LIST_TTL_SECS, pre.spec_force_sync());
    &&& post.spec_username() == pre.spec_username()
    &&& post.spec_force_sync() == pre.spec_force_sync()
    &&& (forall|k2: Seq<char>|
        k2 != tk && k2 != bk ==> #[trigger] stores_agree_at(
            pre.spec_store(),
            post.spec_store(),
            k2,
        ))
    &&& (match (token_hit, bridge_hit) {
        (Some(CacheValueView::AuthToken(_)), Some(CacheValueView::Bridges(p))) => r matches Ok(v)
            && bytes_seq_view(v@) == p && post.spec_store() == pre.spec_store(),
        _ => true,
    })
    &&& (r matches Err(_) ==> stores_agree_at(pre.spec_store(), post.spec_store(), bk))
    &&& (r matches Ok(v) ==> post.spec_store().contains_key(bk) && post.spec_store()[bk].value
        == CacheValueView::Bridges(bytes_seq_view(v@)) && (stores_agree_at(
        pre.spec_store(),
        post.spec_store(),
        bk,
    ) || post.spec_store()[bk].timestamp == now))
    &&& (exists|mid: ClientCache<C>, tr: Result<Token, CacheError>|
        {
            &&& #[trigger] auth_token_post(pre, mid, tr, now)
            &&& (tr matches Err(e) ==> r == Err::<Vec<BridgeDescriptor>, CacheError>(e) && post
                == mid)
        })
}

/// The token key and a hostname's bridges key never coincide: their
/// logical keys differ at a fixed position.
proof fn lemma_token_bridge_keys_differ(exit_hostname: Seq<char>, user: Seq<char>)
    ensures
        composite_key("cache.auth_token"@, user) != composite_key(
            bridges_logical_key(exit_hostname),
            user,
        ),
{
    reveal_strlit("cache.auth_token");
    reveal_strlit("cache.bridges.");
    let tl = "cache.auth_token"@;
    let bl = bridges_logical_key(exit_hostname);
    let tk = composite_key(tl, user);
    let bk = composite_key(bl, user);
    if tk == bk {
        assert(tk[6] == (tl + seq!['-'])[6]);
        assert((tl + seq!['-'])[6] == tl[6]);
        assert(bk[6] == (bl + seq!['-'])[6]);
        assert((bl + seq!['-'])[6] == bl[6]);
        assert(bl[6] == "cache.bridges."@[6]);
        assert(tl[6] == 'a');
        assert("cache.bridges."@[6] == 'b');
    }
}

/// Whether `now` still falls inside the freshness window that opened at
/// `timestamp` and lasts `ttl` seconds.
pub fn within_ttl(timestamp: u64, now: u64, ttl: u64) -> (b: bool)
    ensures
        b == (now < timestamp + ttl),
{
    if now < timestamp {
        true
    } else {
        now - timestamp < ttl
    }
}

/// Law: after a record `(v, written)` is stored under a key, a fresh
/// read at any moment within the TTL returns exactly `v`; being a hit,
/// the read consults no fallback.
pub proof fn lemma_write_then_read_fresh(
    m: Map<Seq<char>, RecordView>,
    k: Seq<char>,
    v: CacheValueView,
    written: u64,
    now: u64,
    ttl: u64,
)
    requires
        now < written + ttl,
    ensures
        fresh_hit(m.insert(k, RecordView { value: v, timestamp: written }), k, now, ttl, false)
            == Some(v),
{
}

/// Law: the same logical key under two distinct usernames yields two
/// distinct composite keys, so two accounts never share a cache entry.
pub proof fn lemma_user_isolation(logical: Seq<char>, u1: Seq<char>, u2: Seq<char>)
    requires
        u1 != u2,
    ensures
        composite_key(logical, u1) != composite_key(logical, u2),
{
    let c1 = composite_key(logical, u1);
    let c2 = composite_key(logical, u2);
    if c1 == c2 {
        assert(c1.len() == logical.len() + 1 + u1.len());
        assert(c2.len() == logical.len() + 1 + u2.len());
        assert forall|i: int| 0 <= i < u1.len() implies u1[i] == u2[i] by {
            assert(c1[logical.len() + 1 + i] == u1[i]);
            assert(c2[logical.len() + 1 + i] == u2[i]);
        }
        assert(u1 =~= u2);
    }
}

/// Law: purging one composite key leaves every other key's record
/// intact, and leaves nothing under the purged key.
pub proof fn lemma_purge_preserves_others(
    m: Map<Seq<char>, RecordView>,
    k: Seq<char>,
    k2: Seq<char>,
)
    requires
        k2 != k,
    ensures
        m.remove(k).contains_key(k2) == m.contains_key(k2),
        m.contains_key(k2) ==> m.remove(k)[k2] == m[k2],
        !m.remove(k).contains_key(k),
{
}

/// Maps an authority response to the exit list it carries; any other
/// response kind is a transport-level failure.
pub fn exits_from_response(resp: Result<BinderResponse, TransportError>) -> (r: Result<
    Vec<ExitDescriptor>,
    CacheError,
>)
    ensures
        match resp {
            Ok(BinderResponse::GetExitsResp(v)) => r == Ok::<Vec<ExitDescriptor>, CacheError>(v),
            Ok(_) => r matches Err(e) && e matches CacheError::Transport(_),
            Err(te) => r == Err::<Vec<ExitDescriptor>, CacheError>(transport_to_cache(te)),
        },
{
    match resp {
        Ok(BinderResponse::GetExitsResp(v)) => Ok(v),
        Ok(_) => Err(CacheError::Transport("unexpected response".to_owned())),
        Err(te) => Err(map_transport_err(te)),
    }
}

/// Maps an authority response to the bridge list it carries; any other
/// response kind is a transport-level failure.
pub fn bridges_from_response(resp: Result<BinderResponse, TransportError>) -> (r: Result<
    Vec<BridgeDescriptor>,
    CacheError,
>)
    ensures
        match resp {
            Ok(BinderResponse::GetBridgesResp(v)) => r == Ok::<
                Vec<BridgeDescriptor>,
                CacheError,
            >(v),
            Ok(_) => r matches Err(e) && e matches CacheError::Transport(_),
            Err(te) => r == Err::<Vec<BridgeDescriptor>, CacheError>(transport_to_cache(te)),
        },
{
    match resp {
        Ok(BinderResponse::GetBridgesResp(v)) => Ok(v),
        Ok(_) => Err(CacheError::Transport("unexpected response".to_owned())),
        Err(te) => Err(map_transport_err(te)),
    }
}

/// One branch of the bounded-latency race reports completion.
pub enum RaceEvent {
    /// The fresh branch (the read-through with its fallback) finished
    /// first, with this result.
    FreshFinished(Result<CacheValue, CacheError>),
    /// The grace period elapsed before the fresh branch finished.
    GraceExpired,
}

/// How the bounded-latency race resolves on an event.
pub enum RaceOutcome {
    /// The fresh branch's result is returned as is.
    Settled(Result<CacheValue, CacheError>),
    /// The grace period passed and a previously stored value substitutes
    /// for the still-running refresh.
    StaleServed(CacheValue),
    /// The grace period passed but nothing was ever stored: the race
    /// keeps waiting for the fresh branch.
    StillPending,
}

/// A cached client of the remote authority: per-account, TTL-aware
/// read-through storage for tokens, exit lists and bridge lists.
pub struct ClientCache<C: AuthorityClient> {
    username: String,
    password: String,
    binder_client: C,
    free_pk: mizaru::PublicKey,
    plus_pk: mizaru::PublicKey,
    database: CacheStore,
    /// When set, every read bypasses stored records and refreshes.
    pub force_sync: bool,
}

impl<C: AuthorityClient> ClientCache<C> {
    /// The username whose entries this cache serves.
    pub closed spec fn spec_username(&self) -> Seq<char> {
        self.username@
    }

    /// The records currently stored.
    pub closed spec fn spec_store(&self) -> Map<Seq<char>, RecordView> {
        self.database@
    }

    /// Whether every read currently bypasses stored records.
    pub closed spec fn spec_force_sync(&self) -> bool {
        self.force_sync
    }

    /// The password sent with every authentication request.
    pub closed spec fn spec_password(&self) -> Seq<char> {
        self.password@
    }

    /// The long-term public key tokens of the "plus" level verify under.
    pub closed spec fn spec_plus_pk(&self) -> mizaru::PublicKey {
        self.plus_pk
    }

    /// The long-term public key tokens of the "free" level verify under.
    pub closed spec fn spec_free_pk(&self) -> mizaru::PublicKey {
        self.free_pk
    }

    /// The authority capability requests go through.
    pub closed spec fn spec_client(&self) -> C {
        self.binder_client
    }

    /// Creates a cache over the given store for one account.
    pub fn new(
        username: &str,
        password: &str,
        free_pk: mizaru::PublicKey,
        plus_pk: mizaru::PublicKey,
        binder_client: C,
        database: CacheStore,
    ) -> (r: Self)
        ensures
            r.spec_username() == username@,
            r.spec_password() == password@,
            r.spec_free_pk() == free_pk,
            r.spec_plus_pk() == plus_pk,
            r.spec_client() == binder_client,
            r.spec_store() == database@,
            r.spec_force_sync() == false,
    {
        ClientCache {
            username: username.to_owned(),
            password: password.to_owned(),
            binder_client,
            free_pk,
            plus_pk,
            database,
            force_sync: false,
        }
    }

    /// The composite key a logical key is stored under for this account.
    pub fn to_key(&self, key: &str) -> (r: String)
        ensures
            r@ == composite_key(key@, self.spec_username()),
    {
        let mut r = key.to_owned();
        r.append("-");
        r.append(self.username.as_str());
        proof {
            reveal_strlit("-");
            assert(r@ =~= composite_key(key@, self.username@));
        }
        r
    }

    /// Snapshot read that tolerates staleness: the stored value under the
    /// composite key, whatever its age; nothing when a full refresh is
    /// forced or no record exists. Never touches the network.
    pub fn get_cached_stale(&self, key: &str) -> (r: Option<CacheValue>)
        ensures
            match stale_view(
                self.spec_store(),
                composite_key(key@, self.spec_username()),
                self.spec_force_sync(),
            ) {
                Some(v) => r matches Some(out) && out@ == v,
                None => r is None,
            },
    {
        if self.force_sync {
            return None;
        }
        let k = self.to_key(key);
        match self.database.read(&k) {
            Some(p) => Some(p.0),
            None => None,
        }
    }

    /// Fresh-only read of a composite key: the stored value exactly when
    /// it is within `ttl` and no full refresh is forced.
    pub fn read_fresh(&self, key: &String, now: u64, ttl: u64) -> (r: Option<CacheValue>)
        ensures
            match fresh_hit(self.spec_store(), key@, now, ttl, self.spec_force_sync()) {
                Some(v) => r matches Some(out) && out@ == v,
                None => r is None,
            },
    {
        if self.force_sync {
            return None;
        }
        match self.database.read(key) {
            Some(p) => {
                if within_ttl(p.1, now, ttl) {
                    Some(p.0)
                } else {
                    None
                }
            },
            None => None,
        }
    }

    /// Stores `(value, now)` under a composite key, replacing any prior
    /// record and touching nothing else.
    pub fn cache_commit(&mut self, key: String, value: CacheValue, now: u64)
        ensures
            final(self).spec_store() == old(self).spec_store().insert(
                key@,
                RecordView { value: value@, timestamp: now },
            ),
            final(self).spec_username() == old(self).spec_username(),
            final(self).spec_force_sync() == old(self).spec_force_sync(),
            final(self).spec_plus_pk() == old(self).spec_plus_pk(),
            final(self).spec_free_pk() == old(self).spec_free_pk(),
    {
        self.database.write(key, value, now);
    }

    /// Resolves the two-branch bounded-latency race on whichever branch
    /// completed first: a finished fresh branch settles the race with its
    /// own result; an expired grace period serves the stored value when
    /// one exists and otherwise keeps waiting, yielding to the fresh
    /// branch.
    pub fn resolve_bounded_latency(&self, key: &str, event: RaceEvent) -> (r: RaceOutcome)
        ensures
            (event matches RaceEvent::FreshFinished(res) ==> r == RaceOutcome::Settled(res)),
            (event is GraceExpired ==> match stale_view(
                self.spec_store(),
                composite_key(key@, self.spec_username()),
                self.spec_force_sync(),
            ) {
                Some(v) => r matches RaceOutcome::StaleServed(out) && out@ == v,
                None => r is StillPending,
            }),
    {
        match event {
            RaceEvent::FreshFinished(res) => RaceOutcome::Settled(res),
            RaceEvent::GraceExpired => match self.get_cached_stale(key) {
                Some(v) => RaceOutcome::StaleServed(v),
                None => RaceOutcome::StillPending,
            },
        }
    }

    /// Removes exactly the bridge-cache entry for `exit_hostname`; every
    /// other record — tokens, exit lists, other hostnames' bridges — is
    /// untouched. Meant for the connection layer when a bridge proves
    /// unreachable, forcing fresh discovery on the next attempt.
    pub fn purge_bridges(&mut self, exit_hostname: &str) -> (r: Result<(), CacheError>)
        ensures
            r is Ok,
            final(self).spec_store() == old(self).spec_store().remove(
                composite_key(bridges_logical_key(exit_hostname@), old(self).spec_username()),
            ),
            final(self).spec_username() == old(self).spec_username(),
            final(self).spec_force_sync() == old(self).spec_force_sync(),
    {
        let mut logical = String::new();
        logical.append("cache.bridges.");
        logical.append(exit_hostname);
        proof {
            assert(logical@ =~= bridges_logical_key(exit_hostname@));
        }
        let key = self.to_key(logical.as_str());
        self.database.erase(&key);
        Ok(())
    }

    /// One fresh "list exits" request against the authority.
    fn get_exits_fresh(&self) -> Result<Vec<ExitDescriptor>, CacheError> {
        exits_from_response(self.binder_client.request(BinderRequest::GetExits))
    }

    /// One fresh "list free exits" request against the authority. The
    /// authority answers free-exit queries with the same response kind as
    /// full exit queries.
    fn get_free_exits_fresh(&self) -> Result<Vec<ExitDescriptor>, CacheError> {
        exits_from_response(self.binder_client.request(BinderRequest::GetFreeExits))
    }

    /// One acquisition attempt at one entitlement level: draws a fresh
    /// random digest, fetches the per-epoch subkey, blinds the
    /// full-domain hash, authenticates, unblinds the returned signature
    /// and verifies it against the level's long-term key.
    fn attempt_level(&self, plus: bool, now: u64) -> (r: AttemptResult)
        ensures
            r matches AttemptResult::Granted(t) ==> t@.level == (if plus {
                "plus"@
            } else {
                "free"@
            }) && t@.epoch == spec_epoch_of(now) && verify_of(
                if plus {
                    self.spec_plus_pk()
                } else {
                    self.spec_free_pk()
                },
                t@.unblinded_digest,
                t@.unblinded_signature,
            ),
    {
        let level: &str = if plus {
            "plus"
        } else {
            "free"
        };
        let pk = if plus {
            &self.plus_pk
        } else {
            &self.free_pk
        };
        let digest = fresh_digest();
        let epoch = epoch_of(now);
        let subkey = match self.binder_client.request(
            BinderRequest::GetEpochKey { level: level.to_owned(), epoch },
        ) {
            Ok(BinderResponse::GetEpochKeyResp(sk)) => sk,
            Ok(_) => {
                // an unexpected response kind falls through to the next level
                return AttemptResult::WrongLevel;
            },
            Err(te) => {
                return AttemptResult::Failed(map_transport_err(te));
            },
        };
        let hashed = match fdh_hash(&subkey, &digest) {
            Ok(h) => h,
            Err(_) => {
                return AttemptResult::Failed(
                    CacheError::Transport("full-domain hash failed".to_owned()),
                );
            },
        };
        let blinded = match blind_digest(&subkey, &hashed) {
            Some(p) => p,
            None => {
                // a degenerate subkey from the authority is a transport-
                // level failure, fatal like any other
                return AttemptResult::Failed(
                    CacheError::Transport("degenerate epoch subkey".to_owned()),
                );
            },
        };
        let resp = self.binder_client.request(
            BinderRequest::Authenticate {
                username: self.username.clone(),
                password: self.password.clone(),
                level: level.to_owned(),
                epoch,
                blinded_digest: blinded.0,
            },
        );
        match resp {
            Ok(BinderResponse::AuthenticateResp { user_info, blind_signature }) => {
                let sig = match unblind_signature(blind_signature, &blinded.1) {
                    Some(sig) => sig,
                    None => {
                        // a signature under a degenerate embedded key can
                        // never verify: fatal, never retried at another
                        // level
                        return AttemptResult::Failed(CacheError::SignatureVerification);
                    },
                };
                let valid = verify_signature(pk, &hashed, &sig);
                crate::protocol::judge_signature(
                    valid,
                    user_info,
                    level.to_owned(),
                    epoch,
                    hashed,
                    sig,
                )
            },
            Ok(_) => AttemptResult::WrongLevel,
            Err(TransportError::WrongLevel) => AttemptResult::WrongLevel,
            Err(te) => AttemptResult::Failed(map_transport_err(te)),
        }
    }

    /// Acquires a brand-new token: tries "plus" first, then — only after
    /// a WrongLevel answer — "free", each attempt with its own fresh
    /// random digest; a signature that fails verification or any other
    /// transport failure aborts immediately; two WrongLevel answers
    /// exhaust the levels. The result is `protocol::spec_acquire` over a
    /// "plus" attempt and a "free" attempt, in that order, so the abort
    /// and fall-through laws beside `spec_acquire` govern this function.
    fn get_token_fresh(&self, now: u64) -> (r: Result<Token, CacheError>)
        ensures
            r matches Ok(t) ==> (t@.level == "plus"@ || t@.level == "free"@) && t@.epoch
                == spec_epoch_of(now) && verify_of(
                if t@.level == "plus"@ {
                    self.spec_plus_pk()
                } else {
                    self.spec_free_pk()
                },
                t@.unblinded_digest,
                t@.unblinded_signature,
            ),
            exists|first: AttemptResult, second: AttemptResult|
                {
                    &&& #[trigger] spec_acquire(first, second) == r
                    &&& (first matches AttemptResult::Granted(t) ==> t@.level == "plus"@
                        && t@.epoch == spec_epoch_of(now) && verify_of(
                        self.spec_plus_pk(),
                        t@.unblinded_digest,
                        t@.unblinded_signature,
                    ))
                    &&& (second matches AttemptResult::Granted(t) ==> t@.level == "free"@
                        && t@.epoch == spec_epoch_of(now) && verify_of(
                        self.spec_free_pk(),
                        t@.unblinded_digest,
                        t@.unblinded_signature,
                    ))
                },
    {
        proof {
            reveal_strlit("plus");
            reveal_strlit("free");
            assert("plus"@[0] == 'p' && "free"@[0] == 'f');
        }
        let first = self.attempt_level(true, now);
        let ghost gfirst = first;
        match first {
            AttemptResult::Granted(t) => {
                proof {
                    assert(spec_acquire(gfirst, AttemptResult::WrongLevel) == Ok::<
                        Token,
                        CacheError,
                    >(t));
                }
                Ok(t)
            },
            AttemptResult::Failed(e) => {
                proof {
                    assert(spec_acquire(gfirst, AttemptResult::WrongLevel) == Err::<
                        Token,
                        CacheError,
                    >(e));
                }
                Err(e)
            },
            AttemptResult::WrongLevel => {
                let second = self.attempt_level(false, now);
                let ghost gsecond = second;
                match second {
                    AttemptResult::Granted(t) => {
                        proof {
                            assert(spec_acquire(gfirst, gsecond) == Ok::<Token, CacheError>(t));
                        }
                        Ok(t)
                    },
                    AttemptResult::Failed(e) => {
                        proof {
                            assert(spec_acquire(gfirst, gsecond) == Err::<Token, CacheError>(e));
                        }
                        Err(e)
                    },
                    AttemptResult::WrongLevel => {
                        proof {
                            assert(spec_acquire(gfirst, gsecond) == Err::<Token, CacheError>(
                                CacheError::LevelsExhausted,
                            ));
                        }
                        Err(CacheError::LevelsExhausted)
                    },
                }
            },
        }
    }

    /// Obtains a token as of moment `now`: a stored token still within
    /// its 24-hour TTL is returned as is (a token must never be reused
    /// past its validity window, so this path tolerates no staleness);
    /// otherwise a new one is acquired and stored under this account's
    /// token key, timestamped `now`. On failure the store is unchanged.
    pub fn get_auth_token_at(&mut self, now: u64) -> (r: Result<Token, CacheError>)
        ensures
            auth_token_post(*old(self), *final(self), r, now),
    {
        let key = self.to_key("cache.auth_token");
        match self.read_fresh(&key, now, AUTH_TOKEN_TTL_SECS) {
            Some(CacheValue::AuthToken(t)) => {
                return Ok(t);
            },
            _ => {},
        }
        match self.get_token_fresh(now) {
            Ok(t) => {
                let copy = t.clone();
                self.cache_commit(key, CacheValue::AuthToken(copy), now);
                Ok(t)
            },
            Err(e) => Err(e),
        }
    }

    /// Obtains the exit list as of moment `now`: a stored list within its
    /// one-hour TTL is returned with no authority contact; otherwise the
    /// authority is asked and the answer stored under this account's
    /// exits key, timestamped `now`. On failure the store is unchanged.
    /// A caller that wants bounded latency races this refresh against a
    /// grace timer and resolves with `resolve_bounded_latency`.
    pub fn get_exits_at(&mut self, now: u64) -> (r: Result<Vec<ExitDescriptor>, CacheError>)
        ensures
            exit_list_post(*old(self), *final(self), "cache.exits"@, r, now),
    {
        let key = self.to_key("cache.exits");
        match self.read_fresh(&key, now, EXIT_LIST_TTL_SECS) {
            Some(CacheValue::Exits(v)) => {
                return Ok(v);
            },
            _ => {},
        }
        match self.get_exits_fresh() {
            Ok(v) => {
                let copy = clone_descriptors(&v);
                self.cache_commit(key, CacheValue::Exits(copy), now);
                Ok(v)
            },
            Err(e) => Err(e),
        }
    }

    /// Obtains the free-exit list as of moment `now`, exactly as
    /// `get_exits_at` but under the free-exits key.
    pub fn get_free_exits_at(&mut self, now: u64) -> (r: Result<Vec<ExitDescriptor>, CacheError>)
        ensures
            exit_list_post(*old(self), *final(self), "cache.freeexits"@, r, now),
    {
        let key = self.to_key("cache.freeexits");
        match self.read_fresh(&key, now, EXIT_LIST_TTL_SECS) {
            Some(CacheValue::Exits(v)) => {
                return Ok(v);
            },
            _ => {},
        }
        match self.get_free_exits_fresh() {
            Ok(v) => {
                let copy = clone_descriptors(&v);
                self.cache_commit(key, CacheValue::Exits(copy), now);
                Ok(v)
            },
            Err(e) => Err(e),
        }
    }

    /// Obtains the bridge list for one exit as of moment `now`. A token
    /// is obtained first; its failure propagates. A stored list within
    /// its five-minute TTL is returned with no authority contact;
    /// otherwise the token's credentials are sent and the answer stored
    /// under this account's per-hostname bridges key. No record besides
    /// this account's token key and this hostname's bridges key is
    /// touched, and a returned list is exactly the one then stored.
    pub fn get_bridges_at(&mut self, exit_hostname: &str, now: u64) -> (r: Result<
        Vec<BridgeDescriptor>,
        CacheError,
    >)
        ensures
            bridges_post(*old(self), *final(self), exit_hostname@, r, now),
    {
        proof {
            lemma_token_bridge_keys_differ(exit_hostname@, old(self).spec_username());
        }
        let token_stage = self.get_auth_token_at(now);
        let ghost mid = *self;
        let ghost token_outcome = token_stage;
        let tok = match token_stage {
            Ok(t) => t,
            Err(e) => {
                return Err(e);
            },
        };
        let mut logical = String::new();
        logical.append("cache.bridges.");
        logical.append(exit_hostname);
        proof {
            assert(logical@ =~= bridges_logical_key(exit_hostname@));
        }
        let key = self.to_key(logical.as_str());
        match self.read_fresh(&key, now, BRIDGE_LIST_TTL_SECS) {
            Some(CacheValue::Bridges(v)) => {
                return Ok(v);
            },
            _ => {},
        }
        let resp = self.binder_client.request(
            BinderRequest::GetBridges {
                level: tok.level,
                unblinded_digest: tok.unblinded_digest,
                unblinded_signature: tok.unblinded_signature,
                exit_hostname: exit_hostname.to_owned(),
            },
        );
        match bridges_from_response(resp) {
            Ok(v) => {
                let copy = clone_descriptors(&v);
                self.cache_commit(key, CacheValue::Bridges(copy), now);
                Ok(v)
            },
            Err(e) => Err(e),
        }
    }

    /// A copy of every stored record, for persistence: each returned
    /// entry is exactly the record the store holds under its key.
    pub fn export_entries(&self) -> (r: Vec<crate::kv::StoredEntry>)
        ensures
            forall|i: int|
                0 <= i < r@.len() ==> self.spec_store().contains_key(#[trigger] r@[i].key@)
                    && self.spec_store()[r@[i].key@] == crate::kv::entry_rec(r@[i]),
            forall|k: Seq<char>|
                self.spec_store().contains_key(k) ==> exists|i: int|
                    #![trigger r@[i]]
                    0 <= i < r@.len() && r@[i].key@ == k,
            forall|i: int, j: int| 0 <= i < j < r@.len() ==> r@[i].key@ != r@[j].key@,
    {
        self.database.snapshot()
    }

    /// Obtains a token as of the current wall-clock time.
    pub fn get_auth_token(&mut self) -> (r: Result<Token, CacheError>)
        ensures
            exists|now: u64| auth_token_post(*old(self), *final(self), r, now),
    {
        let now = unix_now();
        self.get_auth_token_at(now)
    }

    /// Obtains the exit list as of the current wall-clock time.
    pub fn get_exits(&mut self) -> (r: Result<Vec<ExitDescriptor>, CacheError>)
        ensures
            exists|now: u64| exit_list_post(*old(self), *final(self), "cache.exits"@, r, now),
    {
        let now = unix_now();
        self.get_exits_at(now)
    }

    /// Obtains the free-exit list as of the current wall-clock time.
    pub fn get_free_exits(&mut self) -> (r: Result<Vec<ExitDescriptor>, CacheError>)
        ensures
            exists|now: u64| exit_list_post(
                *old(self),
                *final(self),
                "cache.freeexits"@,
                r,
                now,
            ),
    {
        let now = unix_now();
        self.get_free_exits_at(now)
    }

    /// Obtains the bridge list for one exit as of the current wall-clock
    /// time.
    pub fn get_bridges(&mut self, exit_hostname: &str) -> (r: Result<
        Vec<BridgeDescriptor>,
        CacheError,
    >)
        ensures
            exists|now: u64| bridges_post(*old(self), *final(self), exit_hostname@, r, now),
    {
        let now = unix_now();
        self.get_bridges_at(exit_hostname, now)
    }
}

} // verus!
