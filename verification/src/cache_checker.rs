use vstd::prelude::*;
use vstd::string::StringExecFns;
use vstd::string::StrSliceExecFns;

use crate::checker::CheckRequest;
use crate::checker::CheckResult;
use crate::checker::CheckerError;
use crate::checker::spec_check;
use crate::checker::spec_matches_result;
use crate::checker::spec_visited_set;
use crate::local_checker::LocalChecker;
use crate::local_checker::spec_req_ctx;
use crate::tuple::TupleKey;
use crate::tuple::spec_cache_key;

verus! {

/// The in-process cache type of the moka crate, sized in entries and safe
/// for concurrent use.
#[verifier::external_type_specification]
#[verifier::external_body]
#[verifier::reject_recursive_types(K)]
#[verifier::reject_recursive_types(V)]
#[verifier::reject_recursive_types(S)]
pub struct ExMokaCache<K, V, S>(moka::sync::Cache<K, V, S>);

/// The entries a cache currently holds and answers `get` from, as a map from
/// fingerprint to decision.
pub uninterp spec fn spec_cache_map(c: moka::sync::Cache<String, bool>) -> Map<Seq<char>, bool>;

/// The entry capacity the cache was created with.
pub uninterp spec fn spec_cache_cap(c: moka::sync::Cache<String, bool>) -> nat;

/// Was the cache created by `Cache::new` alone: sized in entries, with no
/// expiry policy?  The contracts below hold of such caches only; nothing in
/// this crate builds any other kind.
pub uninterp spec fn spec_cache_plain(c: moka::sync::Cache<String, bool>) -> bool;

/// Relies on moka's `sync::Cache::new`: a fresh cache holds nothing and
/// stores up to `max_capacity` entries.
#[verifier::external_body]
fn cache_new(max_capacity: u64) -> (r: moka::sync::Cache<String, bool>)
    ensures
        spec_cache_plain(r),
        spec_cache_cap(r) == max_capacity as nat,
        spec_cache_map(r) =~= Map::empty(),
{
    moka::sync::Cache::new(max_capacity)
}

/// Relies on moka's `sync::Cache::get`: a returned value is the one the
/// cache holds under that key; reads add no entries, and while the cache is
/// within capacity its maintenance evicts nothing.
#[verifier::external_body]
fn cache_get(c: &mut moka::sync::Cache<String, bool>, key: &String) -> (r: Option<bool>)
    requires
        spec_cache_plain(*old(c)),
    ensures
        spec_cache_plain(*final(c)),
        spec_cache_cap(*final(c)) == spec_cache_cap(*old(c)),
        forall|k: Seq<char>| #[trigger]
            spec_cache_map(*final(c)).contains_key(k) ==> spec_cache_map(*old(c)).contains_key(k)
                && spec_cache_map(*final(c))[k] == spec_cache_map(*old(c))[k],
        spec_cache_map(*old(c)).len() <= spec_cache_cap(*old(c)) ==> spec_cache_map(*final(c))
            == spec_cache_map(*old(c)),
        match r {
            Some(v) => spec_cache_map(*old(c)).contains_pair(key@, v),
            None => !spec_cache_map(*final(c)).contains_key(key@),
        },
{
    c.get(key)
}

/// Relies on moka's `sync::Cache::insert`: the pair is written to the map at
/// once; maintenance may evict entries, but only when the cache is over
/// capacity, so within capacity the write is exactly an insert.
#[verifier::external_body]
fn cache_insert(c: &mut moka::sync::Cache<String, bool>, key: String, value: bool)
    requires
        spec_cache_plain(*old(c)),
    ensures
        spec_cache_plain(*final(c)),
        spec_cache_cap(*final(c)) == spec_cache_cap(*old(c)),
        forall|k: Seq<char>| #[trigger]
            spec_cache_map(*final(c)).contains_key(k) ==> (k == key@ && spec_cache_map(
                *final(c),
            )[k] == value) || (spec_cache_map(*old(c)).contains_key(k) && spec_cache_map(
                *final(c),
            )[k] == spec_cache_map(*old(c))[k]),
        spec_cache_map(*old(c)).len() < spec_cache_cap(*old(c)) ==> spec_cache_map(*final(c))
            == spec_cache_map(*old(c)).insert(key@, value),
{
    c.insert(key, value)
}

/// Relies on moka's `sync::Cache::invalidate_all`: afterwards no earlier
/// entry is returned by any retrieval.
#[verifier::external_body]
fn cache_invalidate_all(c: &mut moka::sync::Cache<String, bool>)
    requires
        spec_cache_plain(*old(c)),
    ensures
        spec_cache_plain(*final(c)),
        spec_cache_cap(*final(c)) == spec_cache_cap(*old(c)),
        spec_cache_map(*final(c)) =~= Map::empty(),
{
    c.invalidate_all()
}

/// What the standard base64 engine encodes a character string's UTF-8 bytes
/// to.  The result depends on the input alone.
pub uninterp spec fn spec_base64(s: Seq<char>) -> Seq<char>;

/// Relies on base64's `Engine::encode` with the `STANDARD` engine: the
/// encoding is a pure function of the input bytes.
#[verifier::external_body]
fn base64_encode(s: &String) -> (r: String)
    ensures
        r@ == spec_base64(s@),
{
    base64::Engine::encode(&base64::engine::general_purpose::STANDARD, s.as_bytes())
}

/// Lexicographic order on character strings, by code point.
pub open spec fn spec_chars_le(a: Seq<char>, b: Seq<char>) -> bool
    decreases a.len(),
{
    if a.len() == 0 {
        true
    } else if b.len() == 0 {
        false
    } else if a[0] != b[0] {
        (a[0] as u32) < (b[0] as u32)
    } else {
        spec_chars_le(a.drop_first(), b.drop_first())
    }
}

/// Is `a` lexicographically at most `b`?
fn str_le(a: &String, b: &String) -> (r: bool)
    ensures
        r == spec_chars_le(a@, b@),
{
    let la = a.as_str().unicode_len();
    let lb = b.as_str().unicode_len();
    let mut i: usize = 0;
    proof {
        assert(a@.skip(0) =~= a@);
        assert(b@.skip(0) =~= b@);
    }
    while i < la && i < lb
        invariant
            la == a@.len(),
            lb == b@.len(),
            i <= la,
            i <= lb,
            spec_chars_le(a@, b@) == spec_chars_le(a@.skip(i as int), b@.skip(i as int)),
        decreases la - i,
    {
        proof {
            assert(a@.skip(i as int)[0] == a@[i as int]);
            assert(b@.skip(i as int)[0] == b@[i as int]);
            assert(a@.skip(i as int).drop_first() =~= a@.skip(i + 1));
            assert(b@.skip(i as int).drop_first() =~= b@.skip(i + 1));
        }
        let ca = a.as_str().get_char(i);
        let cb = b.as_str().get_char(i);
        if ca != cb {
            return (ca as u32) < (cb as u32);
        }
        i += 1;
    }
    proof {
        if i == la {
            assert(a@.skip(i as int).len() == 0);
        } else {
            assert(b@.skip(i as int).len() == 0);
            assert(a@.skip(i as int).len() > 0);
        }
    }
    i == la
}

/// The views of a sequence of strings.
pub open spec fn spec_views(s: Seq<String>) -> Seq<Seq<char>> {
    Seq::new(s.len(), |i: int| s[i]@)
}

/// Insert `x` into the sorted string sequence `s`, keeping it sorted.
pub open spec fn spec_insert_key(x: Seq<char>, s: Seq<Seq<char>>) -> Seq<Seq<char>>
    decreases s.len(),
{
    if s.len() == 0 {
        seq![x]
    } else if spec_chars_le(x, s[0]) {
        seq![x] + s
    } else {
        seq![s[0]] + spec_insert_key(x, s.drop_first())
    }
}

/// Sort a sequence of strings lexicographically, by insertion.
pub open spec fn spec_sort_keys(s: Seq<Seq<char>>) -> Seq<Seq<char>>
    decreases s.len(),
{
    if s.len() == 0 {
        Seq::empty()
    } else {
        spec_insert_key(s[0], spec_sort_keys(s.drop_first()))
    }
}

/// Insert `x` into the sorted tail of `sorted` that starts at `from`.
fn insert_sorted(x: String, sorted: &Vec<String>, from: usize) -> (r: Vec<String>)
    requires
        from <= sorted@.len(),
    ensures
        spec_views(r@) == spec_insert_key(x@, spec_views(sorted@).skip(from as int)),
    decreases sorted@.len() - from,
{
    let ghost vs = spec_views(sorted@).skip(from as int);
    if from == sorted.len() {
        let mut out: Vec<String> = Vec::new();
        out.push(x);
        proof {
            assert(vs.len() == 0);
            assert(spec_views(out@) =~= seq![x@]);
        }
        out
    } else {
        proof {
            assert(vs[0] == sorted@[from as int]@);
            assert(vs.drop_first() =~= spec_views(sorted@).skip(from as int + 1));
        }
        if str_le(&x, &sorted[from]) {
            let mut out: Vec<String> = Vec::new();
            out.push(x);
            let n = sorted.len();
            let mut i: usize = from;
            while i < n
                invariant
                    n == sorted@.len(),
                    from <= i <= n,
                    out@.len() == 1 + i - from,
                    out@[0] == x,
                    forall|j: int| 1 <= j < out@.len() ==> out@[j] == sorted@[from + j - 1],
                decreases n - i,
            {
                out.push(sorted[i].clone());
                i += 1;
            }
            proof {
                assert(spec_views(out@) =~= seq![x@] + vs);
            }
            out
        } else {
            let mut out = insert_sorted(x, sorted, from + 1);
            out.insert(0, sorted[from].clone());
            proof {
                assert(spec_views(out@) =~= seq![vs[0]] + spec_insert_key(x@, vs.drop_first()));
            }
            out
        }
    }
}

/// Sort the tail of `keys` that starts at `from`, lexicographically.
fn sort_keys(keys: &Vec<String>, from: usize) -> (r: Vec<String>)
    requires
        from <= keys@.len(),
    ensures
        spec_views(r@) == spec_sort_keys(spec_views(keys@).skip(from as int)),
    decreases keys@.len() - from,
{
    let ghost vs = spec_views(keys@).skip(from as int);
    if from == keys.len() {
        let out: Vec<String> = Vec::new();
        proof {
            assert(vs.len() == 0);
            assert(spec_views(out@) =~= Seq::<Seq<char>>::empty());
        }
        out
    } else {
        proof {
            assert(vs[0] == keys@[from as int]@);
            assert(vs.drop_first() =~= spec_views(keys@).skip(from as int + 1));
        }
        let rest = sort_keys(keys, from + 1);
        let r = insert_sorted(keys[from].clone(), &rest, 0);
        proof {
            assert(spec_views(rest@).skip(0) =~= spec_views(rest@));
        }
        r
    }
}

/// The canonical cache keys of a request's contextual tuples, in order.
pub open spec fn spec_ctx_keys(keys: Seq<TupleKey>) -> Seq<Seq<char>> {
    Seq::new(keys.len(), |i: int| spec_cache_key(keys[i]))
}

/// The canonical cache keys of the contextual tuples.
fn ctx_cache_keys(keys: &Vec<TupleKey>) -> (r: Vec<String>)
    ensures
        spec_views(r@) == spec_ctx_keys(keys@),
{
    let n = keys.len();
    let mut out: Vec<String> = Vec::new();
    let mut i: usize = 0;
    while i < n
        invariant
            n == keys@.len(),
            i <= n,
            out@.len() == i,
            forall|j: int| 0 <= j < i ==> out@[j]@ == spec_cache_key(keys@[j]),
        decreases n - i,
    {
        out.push(keys[i].cache_key());
        i += 1;
    }
    proof {
        assert(spec_views(out@) =~= spec_ctx_keys(keys@));
    }
    out
}

/// The sorted keys, each preceded by a separator.
pub open spec fn spec_joined(s: Seq<Seq<char>>) -> Seq<char>
    decreases s.len(),
{
    if s.len() == 0 {
        Seq::empty()
    } else {
        "/"@ + s[0] + spec_joined(s.drop_first())
    }
}

/// The canonical content a request is fingerprinted over: tenant, model and
/// tuple key in fixed order, then the contextual tuples' canonical keys,
/// sorted lexicographically, each after a separator.
pub open spec fn spec_fingerprint_content(req: CheckRequest) -> Seq<char> {
    req.tenant_id@ + "/"@ + req.model_id@ + "/"@ + spec_cache_key(req.tuple_key) + spec_joined(
        spec_sort_keys(spec_ctx_keys(req.contextual_tuples@)),
    )
}

/// A request's cache fingerprint: the base64 encoding of its canonical
/// content.
pub open spec fn spec_fingerprint(req: CheckRequest) -> Seq<char> {
    spec_base64(spec_fingerprint_content(req))
}

/// A size-bounded memoizing layer over the local resolver: identical
/// fingerprints are answered from the cache at no datastore cost.
pub struct CacheChecker {
    pub delegate: LocalChecker,
    pub cache: moka::sync::Cache<String, bool>,
}

/// The entry capacity a cache checker is created with.
pub const CACHE_CAPACITY: u64 = 100;

impl CacheChecker {
    /// The cached decisions this checker currently holds.
    pub open spec fn cache_map(&self) -> Map<Seq<char>, bool> {
        spec_cache_map(self.cache)
    }

    /// The entry capacity of this checker's cache.
    pub open spec fn cache_cap(&self) -> nat {
        spec_cache_cap(self.cache)
    }

    /// Does this checker hold a cache as its constructor built it?  Every
    /// checker this module creates does; the caching contracts assume it.
    pub open spec fn cache_plain(&self) -> bool {
        spec_cache_plain(self.cache)
    }

    /// A cache of the default capacity over the given resolver.
    pub fn new(delegate: LocalChecker) -> (r: Self)
        ensures
            r.delegate == delegate,
            r.cache_plain(),
            r.cache_map() == Map::<Seq<char>, bool>::empty(),
            r.cache_cap() == CACHE_CAPACITY as nat,
    {
        CacheChecker { delegate, cache: cache_new(CACHE_CAPACITY) }
    }

    /// The fingerprint of a request.
    pub fn request_cache_key(&self, req: &CheckRequest) -> (r: String)
        ensures
            r@ == spec_fingerprint(*req),
    {
        let keys = ctx_cache_keys(&req.contextual_tuples);
        let sorted = sort_keys(&keys, 0);
        proof {
            assert(spec_views(keys@).skip(0) =~= spec_views(keys@));
        }
        let ghost vs = spec_views(sorted@);
        let mut s = req.tenant_id.clone();
        s.append("/");
        s.append(req.model_id.as_str());
        s.append("/");
        let ck = req.tuple_key.cache_key();
        s.append(ck.as_str());
        let ghost base = s@;
        let n = sorted.len();
        let mut i: usize = 0;
        proof {
            assert(vs.skip(0) =~= vs);
            assert(s@ + spec_joined(vs.skip(0)) == base + spec_joined(vs));
        }
        while i < n
            invariant
                n == sorted@.len(),
                i <= n,
                vs == spec_views(sorted@),
                s@ + spec_joined(vs.skip(i as int)) == base + spec_joined(vs),
            decreases n - i,
        {
            proof {
                assert(vs.skip(i as int)[0] == vs[i as int]);
                assert(vs[i as int] == sorted@[i as int]@);
                assert(vs.skip(i as int).drop_first() =~= vs.skip(i + 1));
            }
            let ghost before = s@;
            s.append("/");
            s.append(sorted[i].as_str());
            proof {
                assert(s@ + spec_joined(vs.skip(i + 1)) =~= before + spec_joined(
                    vs.skip(i as int),
                ));
            }
            i += 1;
        }
        proof {
            assert(vs.skip(n as int).len() == 0);
            assert(s@ =~= s@ + spec_joined(vs.skip(n as int)));
            assert(s@ == spec_fingerprint_content(*req));
        }
        base64_encode(&s)
    }

    /// Decide a check request through the cache.  A fingerprint the cache
    /// holds is answered from it, with the cached decision and no datastore
    /// cost; otherwise the delegate decides, exactly as its own contract
    /// states, and a successful decision is memoized while the cache has
    /// room.  A failure is never memoized.
    pub fn check(&mut self, req: &CheckRequest) -> (r: Result<CheckResult, CheckerError>)
        requires
            old(self).cache_plain(),
        ensures
            final(self).cache_plain(),
            final(self).delegate == old(self).delegate,
            final(self).cache_cap() == old(self).cache_cap(),
            (old(self).cache_map().len() <= old(self).cache_cap() && old(self).cache_map().contains_key(spec_fingerprint(*req))) ==> (r matches Ok(res)
                && res.allow == old(self).cache_map()[spec_fingerprint(*req)]
                && res.resolution_metadata.datastore_query_count == 0 && final(self).cache_map()
                == old(self).cache_map()),
            !old(self).cache_map().contains_key(spec_fingerprint(*req)) ==> spec_matches_result(
                spec_check(
                    spec_req_ctx(old(self).delegate, *req),
                    req.tuple_key,
                    req.resolution_metadata.depth as nat,
                    spec_visited_set(req.visited_paths@),
                ),
                r,
            ),
            (!old(self).cache_map().contains_key(spec_fingerprint(*req)) && old(self).cache_map().len() < old(self).cache_cap()) ==> (r matches Ok(res) ==> final(self).cache_map() == old(self).cache_map().insert(spec_fingerprint(*req), res.allow)),
            (r is Err && old(self).cache_map().len() <= old(self).cache_cap()) ==> final(self).cache_map() == old(self).cache_map(),
            forall|k: Seq<char>| #[trigger]
                final(self).cache_map().contains_key(k) ==> (old(self).cache_map().contains_key(k)
                    && final(self).cache_map()[k] == old(self).cache_map()[k]) || (k
                    == spec_fingerprint(*req) && (r matches Ok(res) && final(self).cache_map()[k]
                    == res.allow)),
    {
        let key = self.request_cache_key(req);
        match cache_get(&mut self.cache, &key) {
            Some(allow) => Ok(CheckResult::new(allow)),
            None => {
                match self.delegate.check(req) {
                    Ok(res) => {
                        cache_insert(&mut self.cache, key, res.allow);
                        Ok(res)
                    },
                    Err(e) => Err(e),
                }
            },
        }
    }

    /// Drop every cached decision.
    pub fn close(&mut self)
        requires
            old(self).cache_plain(),
        ensures
            final(self).cache_plain(),
            final(self).delegate == old(self).delegate,
            final(self).cache_map() == Map::<Seq<char>, bool>::empty(),
            final(self).cache_cap() == old(self).cache_cap(),
    {
        cache_invalidate_all(&mut self.cache)
    }

    /// The checker's name.
    pub fn name(&self) -> (r: &'static str)
        ensures
            r@ == "cache"@,
    {
        "cache"
    }
}

} // verus!
