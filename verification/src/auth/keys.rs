//! API keys: `osk_<id>_<secret>`. `id` is 8 hex chars and is the row's primary
//! key: it is what is looked up and what appears in logs and listings. The
//! secret is 32 random bytes as 64 hex chars, stored only as its SHA-256. A
//! 256-bit random secret does not need a slow key derivation; it needs a
//! constant-time comparison, which `verify` does on the hashes.

use crate::text::{all_hex, cat3, cat4, hex, hex_of, is_hex_digit, join, joined, pieces, same, split, strip_prefix, trim, trimmed};
use sha2::Digest;
use subtle::ConstantTimeEq;
use vstd::prelude::*;
use vstd::utf8::encode_utf8;

verus! {

/// What every key begins with.
pub const PREFIX: &'static str = "osk_";

/// The bytes that the id is written from.
pub const ID_BYTES: usize = 4;

/// The bytes that the secret is written from.
pub const SECRET_BYTES: usize = 32;

// ---- scopes -----------------------------------------------------------------

/// What a key may do. Deliberately no scope can create agents or environments
/// or change a budget: the API has no such routes at all.
#[derive(Debug, Clone, Copy, PartialEq, Eq, PartialOrd, Ord, Hash, Structural)]
pub enum Scope {
    /// `GET /v1/fleet/*`, `GET /v1/rig`.
    FleetRead,
    /// Read sessions, their events, and streams.
    SessionsRead,
    /// Start sessions, send messages, interrupt.
    SessionsWrite,
    /// `GET /v1/usage*`.
    UsageRead,
    /// `/v1/inference/*`: the rig's local models.
    Inference,
    /// `/v1/voice/*`: Jarvis's voice (text to speech).
    Voice,
    /// `/v1/ops*`: read-only status of the stack's services.
    OpsRead,
    /// `POST /v1/pair/{code}/approve`: mint a device key with the fixed device
    /// profile. Held by the Mac, never by a device.
    PairApprove,
    /// Manage keys. Never granted to a device.
    KeysAdmin,
}

/// The scope's name on the wire.
pub open spec fn scope_name(s: Scope) -> Seq<char> {
    match s {
        Scope::FleetRead => "fleet:read"@,
        Scope::SessionsRead => "sessions:read"@,
        Scope::SessionsWrite => "sessions:write"@,
        Scope::UsageRead => "usage:read"@,
        Scope::Inference => "inference"@,
        Scope::Voice => "voice"@,
        Scope::OpsRead => "ops:read"@,
        Scope::PairApprove => "pair:approve"@,
        Scope::KeysAdmin => "keys:admin"@,
    }
}

/// Where the scope stands in lists.
pub open spec fn rank(s: Scope) -> int {
    match s {
        Scope::FleetRead => 0,
        Scope::SessionsRead => 1,
        Scope::SessionsWrite => 2,
        Scope::UsageRead => 3,
        Scope::Inference => 4,
        Scope::Voice => 5,
        Scope::OpsRead => 6,
        Scope::PairApprove => 7,
        Scope::KeysAdmin => 8,
    }
}

/// Each scope stands after those before it: nothing occurs twice.
pub open spec fn ascending(scopes: Seq<Scope>) -> bool {
    forall|i: int, j: int|
        0 <= i < j < scopes.len() ==> rank(#[trigger] scopes[i]) < rank(#[trigger] scopes[j])
}

/// The scopes of the set, in order.
pub open spec fn in_order(scopes: Set<Scope>) -> Seq<Scope> {
    choose|list: Seq<Scope>| ascending(list) && list.to_set() == scopes
}

/// A set of scopes has one ordered list.
pub proof fn ascending_list_is_in_order(list: Seq<Scope>)
    requires
        ascending(list),
    ensures
        in_order(list.to_set()) == list,
{
    ascending_lists_agree(in_order(list.to_set()), list);
}

proof fn ascending_lists_agree(a: Seq<Scope>, b: Seq<Scope>)
    requires
        ascending(a),
        ascending(b),
        a.to_set() == b.to_set(),
    ensures
        a == b,
    decreases a.len(),
{
    if a.len() == 0 {
        if b.len() > 0 {
            assert(b.to_set().contains(b[0]));
            assert(a.contains(b[0]));
        }
        assert(a =~= b);
    } else {
        assert(a.to_set().contains(a.last()));
        assert(b.contains(a.last()));
        assert(b.to_set().contains(b.last()));
        assert(a.contains(b.last()));
        let i = choose|i: int| 0 <= i < b.len() && b[i] == a.last();
        let j = choose|j: int| 0 <= j < a.len() && a[j] == b.last();
        assert(rank(a.last()) <= rank(b[b.len() - 1]));
        assert(rank(b.last()) <= rank(a[a.len() - 1]));
        assert(a.last() == b.last());
        let a0 = a.drop_last();
        let b0 = b.drop_last();
        assert forall|x: Scope| a0.contains(x) == b0.contains(x) by {
            if a0.contains(x) {
                let k = choose|k: int| 0 <= k < a0.len() && a0[k] == x;
                assert(a[k] == x);
                assert(a.to_set().contains(x));
                assert(b.contains(x));
                let m = choose|m: int| 0 <= m < b.len() && b[m] == x;
                assert(rank(a[k]) < rank(a[a.len() - 1]));
                assert(b0[m] == x);
            }
            if b0.contains(x) {
                let k = choose|k: int| 0 <= k < b0.len() && b0[k] == x;
                assert(b[k] == x);
                assert(b.to_set().contains(x));
                assert(a.contains(x));
                let m = choose|m: int| 0 <= m < a.len() && a[m] == x;
                assert(rank(b[k]) < rank(b[b.len() - 1]));
                assert(a0[m] == x);
            }
        }
        assert(a0.to_set() =~= b0.to_set());
        ascending_lists_agree(a0, b0);
        assert(a =~= a0.push(a.last()));
        assert(b =~= b0.push(b.last()));
    }
}

/// The ordered list of some scopes holds those scopes.
pub proof fn in_order_holds_the_set(scopes: Seq<Scope>)
    ensures
        in_order(scopes.to_set()).to_set() == scopes.to_set(),
        ascending(in_order(scopes.to_set())),
{
    every_set_is_listed(scopes.to_set());
}

/// Every set of scopes has its ordered list.
pub proof fn every_set_is_listed(set: Set<Scope>)
    ensures
        in_order(set).to_set() == set,
        ascending(in_order(set)),
{
    let all = seq![
        Scope::FleetRead,
        Scope::SessionsRead,
        Scope::SessionsWrite,
        Scope::UsageRead,
        Scope::Inference,
        Scope::Voice,
        Scope::OpsRead,
        Scope::PairApprove,
        Scope::KeysAdmin,
    ];
    let list = ordered_part(all, set, 9);
    ordered_part_is_ordered(all, set, 9);
    assert(list.to_set() =~= set) by {
        assert forall|s: Scope| list.contains(s) == set.contains(s) by {
            assert(all[rank(s)] == s);
        }
    }
}

spec fn ordered_part(all: Seq<Scope>, set: Set<Scope>, n: nat) -> Seq<Scope>
    decreases n,
{
    if n == 0 {
        Seq::empty()
    } else {
        let earlier = ordered_part(all, set, (n - 1) as nat);
        if set.contains(all[n - 1]) {
            earlier.push(all[n - 1])
        } else {
            earlier
        }
    }
}

proof fn ordered_part_is_ordered(all: Seq<Scope>, set: Set<Scope>, n: nat)
    requires
        n <= all.len(),
        forall|i: int| 0 <= i < all.len() ==> rank(#[trigger] all[i]) == i,
    ensures
        ascending(ordered_part(all, set, n)),
        forall|s: Scope| #[trigger]
            ordered_part(all, set, n).contains(s) <==> set.contains(s) && rank(s) < n,
    decreases n,
{
    if n > 0 {
        let earlier = ordered_part(all, set, (n - 1) as nat);
        ordered_part_is_ordered(all, set, (n - 1) as nat);
        let list = ordered_part(all, set, n);
        assert forall|i: int, j: int| 0 <= i < j < list.len() implies rank(#[trigger] list[i])
            < rank(#[trigger] list[j]) by {
            if j == earlier.len() {
                assert(earlier.contains(earlier[i]));
            }
        }
        assert forall|s: Scope| #[trigger] list.contains(s) <==> set.contains(s) && rank(s) < n by {
            assert(rank(all[n - 1]) == n - 1);
            if list.contains(s) {
                let k = choose|k: int| 0 <= k < list.len() && list[k] == s;
                if k < earlier.len() {
                    assert(earlier[k] == s);
                    assert(earlier.contains(s));
                }
            }
            if set.contains(s) && rank(s) < n {
                if rank(s) < n - 1 {
                    assert(earlier.contains(s));
                    let k = choose|k: int| 0 <= k < earlier.len() && earlier[k] == s;
                    assert(list[k] == s);
                } else {
                    assert(s == all[n - 1]);
                    assert(list[earlier.len() as int] == s);
                }
            }
        }
    }
}

/// The scopes that the pieces of a list name. White space around a name is
/// ignored, and so is a piece without a name; the first piece that names no
/// scope spoils the list.
pub open spec fn scopes_named(parts: Seq<Seq<char>>) -> Result<Set<Scope>, Seq<char>>
    decreases parts.len(),
{
    if parts.len() == 0 {
        Ok(Set::empty())
    } else {
        match scopes_named(parts.drop_last()) {
            Err(bad) => Err(bad),
            Ok(scopes) => {
                let name = trimmed(parts.last());
                if name.len() == 0 {
                    Ok(scopes)
                } else if exists|s: Scope| scope_name(s) == name {
                    Ok(scopes.insert(choose|s: Scope| scope_name(s) == name))
                } else {
                    Err(name)
                }
            },
        }
    }
}

/// The scopes' names, in that order.
pub open spec fn scope_names(scopes: Seq<Scope>) -> Seq<Seq<char>> {
    scopes.map_values(|s: Scope| scope_name(s))
}

proof fn names_differ()
    ensures
        forall|a: Scope, b: Scope| #[trigger] scope_name(a) == #[trigger] scope_name(b) ==> a == b,
{
    reveal_strlit("fleet:read");
    reveal_strlit("sessions:read");
    reveal_strlit("sessions:write");
    reveal_strlit("usage:read");
    reveal_strlit("inference");
    reveal_strlit("voice");
    reveal_strlit("ops:read");
    reveal_strlit("pair:approve");
    reveal_strlit("keys:admin");
    assert forall|a: Scope, b: Scope| #[trigger] scope_name(a) == #[trigger] scope_name(b) implies a
        == b by {
        assert(scope_name(a).len() == scope_name(b).len());
        assert(scope_name(a)[0] == scope_name(b)[0]);
    }
}

impl Scope {
    pub const ALL: [Scope; 9] = [
        Scope::FleetRead,
        Scope::SessionsRead,
        Scope::SessionsWrite,
        Scope::UsageRead,
        Scope::Inference,
        Scope::Voice,
        Scope::OpsRead,
        Scope::PairApprove,
        Scope::KeysAdmin,
    ];

    /// The scope's name on the wire.
    pub fn as_str(self) -> (r: &'static str)
        ensures
            r@ == scope_name(self),
    {
        match self {
            Scope::FleetRead => "fleet:read",
            Scope::SessionsRead => "sessions:read",
            Scope::SessionsWrite => "sessions:write",
            Scope::UsageRead => "usage:read",
            Scope::Inference => "inference",
            Scope::Voice => "voice",
            Scope::OpsRead => "ops:read",
            Scope::PairApprove => "pair:approve",
            Scope::KeysAdmin => "keys:admin",
        }
    }

    fn rank(self) -> (r: u8)
        ensures
            r == rank(self),
    {
        match self {
            Scope::FleetRead => 0,
            Scope::SessionsRead => 1,
            Scope::SessionsWrite => 2,
            Scope::UsageRead => 3,
            Scope::Inference => 4,
            Scope::Voice => 5,
            Scope::OpsRead => 6,
            Scope::PairApprove => 7,
            Scope::KeysAdmin => 8,
        }
    }

    /// The scope of that name.
    pub fn parse(s: &str) -> (r: Option<Scope>)
        ensures
            match r {
                Some(scope) => scope_name(scope) == s@,
                None => forall|scope: Scope| #[trigger] scope_name(scope) != s@,
            },
    {
        let all = Scope::ALL;
        let mut i: usize = 0;
        while i < 9
            invariant
                i <= 9,
                all == Scope::ALL,
                forall|k: int| 0 <= k < i ==> scope_name(#[trigger] all@[k]) != s@,
            decreases 9 - i,
        {
            if same(all[i].as_str(), s) {
                return Some(all[i]);
            }
            i = i + 1;
        }
        assert forall|scope: Scope| #[trigger] scope_name(scope) != s@ by {
            assert(all@[rank(scope)] == scope);
        }
        None
    }

    /// Comma-separated, whitespace tolerated; `Err` names the first bad one.
    pub fn parse_list(s: &str) -> (r: Result<Vec<Scope>, String>)
        ensures
            match r {
                Ok(scopes) => scopes_named(pieces(s@, ',')) matches Ok(named) && scopes@
                    == in_order(named) && scopes@.to_set() == named,
                Err(message) => scopes_named(pieces(s@, ',')) matches Err(bad) && message@
                    == "unknown scope `"@ + bad + "`"@,
            },
    {
        let parts = split(s, ',');
        let mut out: Vec<Scope> = Vec::new();
        let n: usize = parts.len();
        assert(parts.deep_view().take(0) =~= Seq::empty());
        assert(out@.to_set() =~= Set::<Scope>::empty());
        for i in 0..n
            invariant
                n == parts@.len(),
                parts.deep_view() == pieces(s@, ','),
                ascending(out@),
                scopes_named(parts.deep_view().take(i as int)) == Ok::<Set<Scope>, Seq<char>>(
                    out@.to_set(),
                ),
        {
            let ghost all = parts.deep_view();
            let part = trim(parts[i].as_str());
            proof {
                assert(all.take(i + 1).drop_last() =~= all.take(i as int));
                assert(all.take(i + 1).last() == parts@[i as int]@);
                names_differ();
            }
            if !part.is_empty() {
                match Scope::parse(part) {
                    Some(scope) => {
                        insert_scope(&mut out, scope);
                    },
                    None => {
                        proof {
                            first_bad_spoils(all, i as int);
                        }
                        return Err(cat3("unknown scope `", part, "`"));
                    },
                }
            }
        }
        assert(parts.deep_view().take(n as int) =~= parts.deep_view());
        proof {
            ascending_list_is_in_order(out@);
        }
        Ok(out)
    }

    /// The scopes' names, comma-separated.
    pub fn join(scopes: &[Scope]) -> (r: String)
        ensures
            r@ == joined(scope_names(scopes@), ","@),
    {
        let mut names: Vec<String> = Vec::new();
        let n: usize = scopes.len();
        for i in 0..n
            invariant
                n == scopes@.len(),
                names.deep_view() == scope_names(scopes@.take(i as int)),
        {
            let ghost earlier = names.deep_view();
            names.push(scopes[i].as_str().to_owned());
            assert(names.deep_view() =~= earlier.push(scope_name(scopes@[i as int])));
            assert(scope_names(scopes@.take(i + 1)) =~= earlier.push(scope_name(scopes@[i as int])));
        }
        assert(scopes@.take(n as int) =~= scopes@);
        join(&names, ",")
    }
}

proof fn first_bad_spoils(parts: Seq<Seq<char>>, i: int)
    requires
        0 <= i < parts.len(),
        scopes_named(parts.take(i + 1)) is Err,
    ensures
        scopes_named(parts) == scopes_named(parts.take(i + 1)),
    decreases parts.len() - i,
{
    if i + 1 == parts.len() {
        assert(parts.take(i + 1) =~= parts);
    } else {
        assert(parts.take(i + 2).drop_last() =~= parts.take(i + 1));
        first_bad_spoils(parts, i + 1);
    }
}

/// Puts the scope in its place, unless it is there already.
fn insert_scope(scopes: &mut Vec<Scope>, s: Scope)
    requires
        ascending(old(scopes)@),
    ensures
        ascending(final(scopes)@),
        final(scopes)@.to_set() == old(scopes)@.to_set().insert(s),
{
    let ghost before = scopes@;
    let mut i: usize = 0;
    while i < scopes.len() && scopes[i].rank() < s.rank()
        invariant
            i <= scopes@.len(),
            scopes@ == before,
            forall|k: int| 0 <= k < i ==> rank(#[trigger] before[k]) < rank(s),
        decreases scopes@.len() - i,
    {
        i = i + 1;
    }
    if i < scopes.len() && scopes[i].rank() == s.rank() {
        proof {
            assert(before[i as int] == s);
            assert(before.to_set() =~= before.to_set().insert(s));
        }
        return;
    }
    scopes.insert(i, s);
    proof {
        let after = before.insert(i as int, s);
        assert(scopes@ == after);
        assert forall|a: int, b: int| 0 <= a < b < after.len() implies rank(#[trigger] after[a])
            < rank(#[trigger] after[b]) by {
            if b == i {
            } else if a == i {
                assert(rank(before[i as int]) > rank(s));
                assert(after[b] == before[b - 1]);
            } else {
            }
        }
        assert forall|x: Scope| after.contains(x) implies before.to_set().insert(s).contains(x) by {
            let k = choose|k: int| 0 <= k < after.len() && after[k] == x;
            if k < i {
                assert(before[k] == x);
            } else if k > i {
                assert(before[k - 1] == x);
            }
        }
        assert forall|x: Scope| before.to_set().insert(s).contains(x) implies after.contains(x) by {
            if x == s {
                assert(after[i as int] == s);
            } else {
                let k = choose|k: int| 0 <= k < before.len() && before[k] == x;
                assert(after[if k < i {
                    k
                } else {
                    k + 1
                }] == x);
            }
        }
        assert(after.to_set() =~= before.to_set().insert(s));
    }
}

/// A set of scopes.
#[derive(Debug, PartialEq, Eq)]
pub struct ScopeSet {
    scopes: Vec<Scope>,
}

impl View for ScopeSet {
    type V = Set<Scope>;

    closed spec fn view(&self) -> Set<Scope> {
        self.scopes@.to_set()
    }
}

impl ScopeSet {
    /// The set of the given scopes.
    pub fn from_scopes(scopes: &[Scope]) -> (r: ScopeSet)
        ensures
            r@ == scopes@.to_set(),
    {
        let mut out: Vec<Scope> = Vec::new();
        let n: usize = scopes.len();
        assert(out@.to_set() =~= scopes@.take(0).to_set());
        for i in 0..n
            invariant
                n == scopes@.len(),
                ascending(out@),
                out@.to_set() == scopes@.take(i as int).to_set(),
        {
            insert_scope(&mut out, scopes[i]);
            proof {
                let more = scopes@.take(i + 1);
                assert(more =~= scopes@.take(i as int).push(scopes@[i as int]));
                assert forall|x: Scope|
                    more.contains(x) == scopes@.take(i as int).to_set().insert(
                        scopes@[i as int],
                    ).contains(x) by {
                    if x == scopes@[i as int] {
                        assert(more[i as int] == x);
                    } else if scopes@.take(i as int).contains(x) {
                        let k = choose|k: int| 0 <= k < i && scopes@.take(i as int)[k] == x;
                        assert(more[k] == x);
                    } else if more.contains(x) {
                        let k = choose|k: int| 0 <= k < more.len() && more[k] == x;
                        assert(scopes@.take(i as int)[k] == x);
                    }
                }
                assert(more.to_set() =~= scopes@.take(i as int).to_set().insert(scopes@[i as int]));
            }
        }
        assert(scopes@.take(n as int) =~= scopes@);
        ScopeSet { scopes: out }
    }

    /// The scopes stand in order.
    #[verifier::type_invariant]
    spec fn ordered(self) -> bool {
        ascending(self.scopes@)
    }

    pub fn has(&self, s: Scope) -> (r: bool)
        ensures
            r == self@.contains(s),
    {
        let n: usize = self.scopes.len();
        for i in 0..n
            invariant
                n == self.scopes@.len(),
                forall|k: int| 0 <= k < i ==> #[trigger] self.scopes@[k] != s,
        {
            if self.scopes[i] == s {
                assert(self.scopes@[i as int] == s);
                return true;
            }
        }
        false
    }

    /// The scopes of the set, in order.
    pub fn iter(&self) -> (r: Vec<Scope>)
        ensures
            r@ == in_order(self@),
            r@.to_set() == self@,
            ascending(r@),
    {
        proof {
            use_type_invariant(self);
        }
        let mut out: Vec<Scope> = Vec::new();
        let n: usize = self.scopes.len();
        for i in 0..n
            invariant
                n == self.scopes@.len(),
                out@ == self.scopes@.take(i as int),
        {
            out.push(self.scopes[i]);
            assert(out@ =~= self.scopes@.take(i + 1));
        }
        assert(out@ =~= self.scopes@);
        proof {
            ascending_list_is_in_order(out@);
        }
        out
    }
}

impl Clone for ScopeSet {
    fn clone(&self) -> (r: ScopeSet)
        ensures
            r@ == self@,
    {
        ScopeSet { scopes: self.iter() }
    }
}

// ---- keys -------------------------------------------------------------------

/// `sha2::Sha256` of some bytes.
pub uninterp spec fn sha256(data: Seq<u8>) -> Seq<u8>;

/// `sha2::Sha256::digest`: the hash of the bytes, which is 32 bytes long.
#[verifier::external_body]
fn digest(data: &[u8]) -> (r: Vec<u8>)
    ensures
        r@ == sha256(data@),
        r@.len() == 32,
{
    sha2::Sha256::digest(data).to_vec()
}

/// `subtle::ConstantTimeEq::ct_eq` on bytes: whether the two slices hold the
/// same bytes.
#[verifier::external_body]
pub(crate) fn equal_in_constant_time(a: &[u8], b: &[u8]) -> (r: bool)
    ensures
        r == (a@ == b@),
{
    bool::from(a.ct_eq(b))
}

/// `getrandom::fill`: that many bytes from the system's random source, unless
/// the source fails. Which bytes they are is left to chance.
#[verifier::external_body]
pub(crate) fn random_bytes(n: usize) -> (r: Option<Vec<u8>>)
    requires
        n <= 64,
    ensures
        r matches Some(bytes) ==> bytes@.len() == n,
{
    let mut bytes = vec![0u8; n];
    match getrandom::fill(&mut bytes) {
        Ok(()) => Some(bytes),
        Err(_) => None,
    }
}

/// What is stored of a secret: its SHA-256, in hex.
pub open spec fn stored_hash(secret: Seq<char>) -> Seq<char> {
    hex_of(sha256(encode_utf8(secret)))
}

/// The text is a key with that id and that secret.
pub open spec fn is_key(text: Seq<char>, id: Seq<char>, secret: Seq<char>) -> bool {
    &&& text == PREFIX@ + id + "_"@ + secret
    &&& id.len() == 2 * ID_BYTES && all_hex(id)
    &&& secret.len() == 2 * SECRET_BYTES && all_hex(secret)
}

/// A freshly minted key: the plaintext exists only in this value, once.
pub struct Minted {
    pub id: String,
    pub plaintext: String,
    pub secret_sha256: String,
}

/// A fresh key, unless the system's random source fails.
pub fn mint() -> (r: Option<Minted>)
    ensures
        r matches Some(minted) ==> is_minted(minted),
{
    let id = random_bytes(ID_BYTES)?;
    let secret = random_bytes(SECRET_BYTES)?;
    let minted = mint_from(id.as_slice(), secret.as_slice());
    assert(minted_from(minted, id@, secret@));
    Some(minted)
}

/// The key is written from bytes as many as a key has.
pub open spec fn is_minted(minted: Minted) -> bool {
    exists|id: Seq<u8>, secret: Seq<u8>|
        id.len() == ID_BYTES && secret.len() == SECRET_BYTES && #[trigger] minted_from(
            minted,
            id,
            secret,
        )
}

/// The key is written from those bytes, and stores the hash of its secret.
pub open spec fn minted_from(minted: Minted, id: Seq<u8>, secret: Seq<u8>) -> bool {
    &&& minted.id@ == hex_of(id)
    &&& minted.plaintext@ == PREFIX@ + hex_of(id) + "_"@ + hex_of(secret)
    &&& minted.secret_sha256@ == stored_hash(hex_of(secret))
}

/// The key written from those bytes.
pub fn mint_from(id: &[u8], secret: &[u8]) -> (r: Minted)
    ensures
        minted_from(r, id@, secret@),
{
    let id = hex(id);
    let secret = hex(secret);
    Minted {
        plaintext: cat4(PREFIX, id.as_str(), "_", secret.as_str()),
        secret_sha256: sha256_hex(secret.as_str()),
        id,
    }
}

/// Split a presented key into `(id, secret)` without validating the secret.
/// Shape errors are `None`: the caller answers 401 either way, and never says
/// which part was wrong.
pub fn parse(presented: &str) -> (r: Option<(&str, &str)>)
    ensures
        match r {
            Some((id, secret)) => is_key(presented@, id@, secret@),
            None => forall|id: Seq<char>, secret: Seq<char>| !is_key(presented@, id, secret),
        },
{
    proof {
        reveal_strlit("osk_");
        reveal_strlit("_");
        assert forall|id: Seq<char>, secret: Seq<char>| is_key(
            presented@,
            id,
            secret,
        ) implies key_shaped(presented@) by {
            let text = presented@;
            assert(text.take(PREFIX@.len() as int) =~= PREFIX@);
            assert(text.skip(4).take(8) =~= id);
            assert(text.skip(4).skip(9) =~= secret);
            assert(text.skip(4)[8] == text[12]);
            assert(text[12] == '_');
        }
    }
    let rest = match strip_prefix(presented, PREFIX) {
        Some(rest) => rest,
        None => {
            return None;
        },
    };
    if rest.unicode_len() != 73 {
        return None;
    }
    let id = rest.substring_char(0, 8);
    let secret = rest.substring_char(9, 73);
    proof {
        assert(id@ =~= rest@.take(8));
        assert(secret@ =~= rest@.skip(9));
    }
    if same(rest.substring_char(8, 9), "_") && is_hex(id) && is_hex(secret) {
        assert(presented@ =~= PREFIX@ + id@ + "_"@ + secret@) by {
            assert(rest@.subrange(8, 9) == "_"@);
            assert(rest@.subrange(8, 9)[0] == rest@[8]);
        }
        Some((id, secret))
    } else {
        assert(rest@.subrange(8, 9) =~= seq![rest@[8]]);
        assert("_"@ =~= seq!['_']);
        None
    }
}

spec fn key_shaped(text: Seq<char>) -> bool {
    let rest = text.skip(4);
    &&& crate::text::begins_with(text, PREFIX@)
    &&& rest.len() == 73
    &&& rest[8] == '_'
    &&& all_hex(rest.take(8))
    &&& all_hex(rest.skip(9))
}

fn is_hex(s: &str) -> (r: bool)
    ensures
        r == all_hex(s@),
{
    let v = crate::text::chars_of(s);
    let n: usize = v.len();
    for i in 0..n
        invariant
            n == v@.len(),
            v@ == s@,
            forall|k: int| 0 <= k < i ==> crate::text::hex_digit(#[trigger] s@[k]),
    {
        if !is_hex_digit(v[i]) {
            assert(!crate::text::hex_digit(s@[i as int]));
            return false;
        }
    }
    true
}

/// Constant-time check of a presented secret against a stored hash.
pub fn verify(secret: &str, stored_sha256_hex: &str) -> (r: bool)
    ensures
        r == (stored_hash(secret@) == stored_sha256_hex@),
{
    let presented = sha256_hex(secret);
    proof {
        vstd::utf8::encode_utf8_decode_utf8(presented@);
        vstd::utf8::encode_utf8_decode_utf8(stored_sha256_hex@);
    }
    equal_in_constant_time(presented.as_str().as_bytes(), stored_sha256_hex.as_bytes())
}

fn sha256_hex(s: &str) -> (r: String)
    ensures
        r@ == stored_hash(s@),
{
    hex(digest(s.as_bytes()).as_slice())
}

// ---- laws -------------------------------------------------------------------

/// A key has one id and one secret.
pub proof fn key_parts_are_unique(
    text: Seq<char>,
    id: Seq<char>,
    secret: Seq<char>,
    other_id: Seq<char>,
    other_secret: Seq<char>,
)
    requires
        is_key(text, id, secret),
        is_key(text, other_id, other_secret),
    ensures
        id == other_id,
        secret == other_secret,
{
    let head = PREFIX@.len() as int;
    reveal_strlit("_");
    assert(text.skip(head).take(8) =~= id);
    assert(text.skip(head).take(8) =~= other_id);
    assert(text.skip(head).skip(9) =~= secret);
    assert(text.skip(head).skip(9) =~= other_secret);
}

/// What is minted is a key: it parses to its own id and to a secret that
/// verifies against the hash it was stored with.
pub proof fn minted_key_is_accepted(minted: Minted)
    requires
        is_minted(minted),
    ensures
        exists|secret: Seq<char>|
            #![trigger stored_hash(secret)]
            is_key(minted.plaintext@, minted.id@, secret) && stored_hash(secret)
                == minted.secret_sha256@,
{
    let (id, secret) = choose|id: Seq<u8>, secret: Seq<u8>|
        id.len() == ID_BYTES && secret.len() == SECRET_BYTES && #[trigger] minted_from(
            minted,
            id,
            secret,
        );
    crate::text::hex_of_is_hex(id);
    crate::text::hex_of_is_hex(secret);
    assert(is_key(minted.plaintext@, minted.id@, hex_of(secret)));
    assert(stored_hash(hex_of(secret)) == minted.secret_sha256@);
}

/// A scope is known by its name.
pub proof fn scope_names_are_distinct(a: Scope, b: Scope)
    requires
        scope_name(a) == scope_name(b),
    ensures
        a == b,
{
    names_differ();
}

/// A list of scopes reads back as the scopes it was written from.
pub proof fn listed_scopes_read_back(scopes: Seq<Scope>)
    ensures
        scopes_named(pieces(joined(scope_names(scopes), ","@), ',')) == Ok::<Set<Scope>, Seq<char>>(
            scopes.to_set(),
        ),
{
    reveal_strlit(",");
    let names = scope_names(scopes);
    assert(","@ =~= seq![',']);
    if scopes.len() == 0 {
        assert(joined(names, ","@) =~= Seq::empty());
        let parts = pieces(Seq::empty(), ',');
        assert(parts =~= seq![Seq::<char>::empty()]);
        assert(parts.drop_last() =~= Seq::empty());
        assert(scopes_named(parts.drop_last()) == Ok::<Set<Scope>, Seq<char>>(Set::empty()));
        assert(scopes.to_set() =~= Set::empty());
    } else {
        assert forall|i: int| 0 <= i < names.len() implies !(#[trigger] names[i]).contains(',') by {
            scope_name_is_plain(scopes[i]);
        }
        crate::text::joined_pieces_come_back(names, ',');
        names_read_back(scopes);
    }
}

proof fn names_read_back(scopes: Seq<Scope>)
    ensures
        scopes_named(scope_names(scopes)) == Ok::<Set<Scope>, Seq<char>>(scopes.to_set()),
    decreases scopes.len(),
{
    if scopes.len() == 0 {
        assert(scopes.to_set() =~= Set::empty());
    } else {
        let earlier = scopes.drop_last();
        let last = scopes.last();
        names_read_back(earlier);
        assert(scope_names(scopes).drop_last() =~= scope_names(earlier));
        assert(scope_names(scopes).last() == scope_name(last));
        scope_name_is_plain(last);
        crate::text::clean_ends_are_trimmed(scope_name(last));
        names_differ();
        assert(scope_name(last) == trimmed(scope_names(scopes).last()));
        assert(scopes =~= earlier.push(last));
        assert forall|x: Scope| scopes.contains(x) == earlier.to_set().insert(last).contains(
            x,
        ) by {
            if x == last {
                assert(scopes[scopes.len() - 1] == x);
            } else if earlier.contains(x) {
                let k = choose|k: int| 0 <= k < earlier.len() && earlier[k] == x;
                assert(scopes[k] == x);
            } else if scopes.contains(x) {
                let k = choose|k: int| 0 <= k < scopes.len() && scopes[k] == x;
                assert(earlier[k] == x);
            }
        }
        assert(scopes.to_set() =~= earlier.to_set().insert(last));
    }
}

proof fn scope_name_is_plain(s: Scope)
    ensures
        scope_name(s).len() > 0,
        !crate::text::white_space(scope_name(s)[0]),
        !crate::text::white_space(scope_name(s).last()),
        !scope_name(s).contains(','),
{
    reveal_strlit("fleet:read");
    reveal_strlit("sessions:read");
    reveal_strlit("sessions:write");
    reveal_strlit("usage:read");
    reveal_strlit("inference");
    reveal_strlit("voice");
    reveal_strlit("ops:read");
    reveal_strlit("pair:approve");
    reveal_strlit("keys:admin");
}

/// Each scope goes by its own name, and by no other's.
pub proof fn each_scope_goes_by_its_name(s: Scope)
    ensures
        scope_name(s) == "fleet:read"@ <==> s == Scope::FleetRead,
        scope_name(s) == "sessions:read"@ <==> s == Scope::SessionsRead,
        scope_name(s) == "sessions:write"@ <==> s == Scope::SessionsWrite,
        scope_name(s) == "usage:read"@ <==> s == Scope::UsageRead,
        scope_name(s) == "inference"@ <==> s == Scope::Inference,
        scope_name(s) == "voice"@ <==> s == Scope::Voice,
        scope_name(s) == "ops:read"@ <==> s == Scope::OpsRead,
        scope_name(s) == "pair:approve"@ <==> s == Scope::PairApprove,
        scope_name(s) == "keys:admin"@ <==> s == Scope::KeysAdmin,
{
    names_differ();
    assert(scope_name(Scope::FleetRead) == "fleet:read"@);
    assert(scope_name(Scope::SessionsRead) == "sessions:read"@);
    assert(scope_name(Scope::SessionsWrite) == "sessions:write"@);
    assert(scope_name(Scope::UsageRead) == "usage:read"@);
    assert(scope_name(Scope::Inference) == "inference"@);
    assert(scope_name(Scope::Voice) == "voice"@);
    assert(scope_name(Scope::OpsRead) == "ops:read"@);
    assert(scope_name(Scope::PairApprove) == "pair:approve"@);
    assert(scope_name(Scope::KeysAdmin) == "keys:admin"@);
}

/// Scopes are listed in one order, each once: what reads the fleet comes first, what
/// manages keys comes last.
pub proof fn scopes_are_listed_in_order(scopes: Seq<Scope>)
    ensures
        in_order(scopes.to_set()).no_duplicates(),
        forall|s: Scope| #[trigger]
            in_order(scopes.to_set()).contains(s) <==> scopes.contains(s),
        forall|i: int, j: int|
            0 <= i < j < in_order(scopes.to_set()).len() ==> stands_before(
                #[trigger] in_order(scopes.to_set())[i],
                #[trigger] in_order(scopes.to_set())[j],
            ),
{
    in_order_holds_the_set(scopes);
    let listed = in_order(scopes.to_set());
    assert forall|s: Scope| #[trigger] listed.contains(s) <==> scopes.contains(s) by {
        assert(listed.to_set().contains(s) == scopes.to_set().contains(s));
    }
}

/// The one scope is listed before the other.
pub open spec fn stands_before(a: Scope, b: Scope) -> bool {
    match b {
        Scope::FleetRead => false,
        Scope::SessionsRead => a == Scope::FleetRead,
        Scope::SessionsWrite => a == Scope::FleetRead || a == Scope::SessionsRead,
        Scope::UsageRead => a == Scope::FleetRead || a == Scope::SessionsRead || a
            == Scope::SessionsWrite,
        Scope::Inference => a == Scope::FleetRead || a == Scope::SessionsRead || a
            == Scope::SessionsWrite || a == Scope::UsageRead,
        Scope::Voice => a != Scope::Voice && a != Scope::OpsRead && a != Scope::PairApprove && a
            != Scope::KeysAdmin,
        Scope::OpsRead => a != Scope::OpsRead && a != Scope::PairApprove && a != Scope::KeysAdmin,
        Scope::PairApprove => a != Scope::PairApprove && a != Scope::KeysAdmin,
        Scope::KeysAdmin => a != Scope::KeysAdmin,
    }
}

/// A key is `osk_`, eight hex digits, `_` and sixty-four hex digits; whatever is
/// written so is a key.
pub proof fn a_key_is_written_so(text: Seq<char>)
    ensures
        (exists|id: Seq<char>, secret: Seq<char>| #[trigger] is_key(text, id, secret)) <==> {
            &&& text.len() == 77
            &&& text[0] == 'o' && text[1] == 's' && text[2] == 'k' && text[3] == '_'
            &&& text[12] == '_'
            &&& forall|i: int|
                4 <= i < 77 && i != 12 ==> crate::text::hex_digit(#[trigger] text[i])
        },
{
    reveal_strlit("osk_");
    reveal_strlit("_");
    let written = {
        &&& text.len() == 77
        &&& text[0] == 'o' && text[1] == 's' && text[2] == 'k' && text[3] == '_'
        &&& text[12] == '_'
        &&& forall|i: int| 4 <= i < 77 && i != 12 ==> crate::text::hex_digit(#[trigger] text[i])
    };
    if written {
        let id = text.subrange(4, 12);
        let secret = text.subrange(13, 77);
        assert(text =~= PREFIX@ + id + "_"@ + secret);
        assert(is_key(text, id, secret));
    }
    if exists|id: Seq<char>, secret: Seq<char>| #[trigger] is_key(text, id, secret) {
        let (id, secret) = choose|id: Seq<char>, secret: Seq<char>| #[trigger]
            is_key(text, id, secret);
        assert forall|i: int| 4 <= i < 77 && i != 12 implies crate::text::hex_digit(
            #[trigger] text[i],
        ) by {
            if i < 12 {
                assert(text[i] == id[i - 4]);
            } else {
                assert(text[i] == secret[i - 13]);
            }
        }
    }
}

/// The part names a scope, or nothing.
pub open spec fn names_a_scope(part: Seq<char>) -> bool {
    trimmed(part).len() == 0 || exists|s: Scope| #[trigger] scope_name(s) == trimmed(part)
}

/// A list is good where each of its parts names a scope or nothing; it then has just
/// the scopes that its parts name. One that is not is told by a part of its own that
/// names no scope, where all before it do.
pub proof fn a_list_has_the_scopes_it_names(parts: Seq<Seq<char>>)
    ensures
        scopes_named(parts) is Ok <==> forall|i: int|
            0 <= i < parts.len() ==> names_a_scope(#[trigger] parts[i]),
        scopes_named(parts) matches Ok(scopes) ==> forall|s: Scope| #[trigger]
            scopes.contains(s) <==> exists|i: int|
                0 <= i < parts.len() && trimmed(#[trigger] parts[i]) == scope_name(s),
        scopes_named(parts) matches Err(name) ==> exists|i: int|
            0 <= i < parts.len() && trimmed(#[trigger] parts[i]) == name && !names_a_scope(parts[i])
                && forall|k: int| 0 <= k < i ==> names_a_scope(#[trigger] parts[k]),
    decreases parts.len(),
{
    if parts.len() > 0 {
        let earlier = parts.drop_last();
        let n = earlier.len() as int;
        a_list_has_the_scopes_it_names(earlier);
        assert forall|i: int| 0 <= i < n implies #[trigger] parts[i] == earlier[i] by {}
        if scopes_named(earlier) is Err {
            let i = choose|i: int|
                0 <= i < n && trimmed(#[trigger] earlier[i]) == scopes_named(earlier)->Err_0
                    && !names_a_scope(earlier[i]) && forall|k: int|
                    0 <= k < i ==> names_a_scope(#[trigger] earlier[k]);
            assert(parts[i] == earlier[i]);
            assert forall|k: int| 0 <= k < i implies names_a_scope(#[trigger] parts[k]) by {
                assert(names_a_scope(earlier[k]));
            }
        } else {
            assert forall|i: int| 0 <= i < n implies names_a_scope(#[trigger] parts[i]) by {
                assert(names_a_scope(earlier[i]));
            }
            assert(parts[n] == parts.last());
            if let Ok(scopes) = scopes_named(parts) {
                names_differ();
                let before = scopes_named(earlier)->Ok_0;
                assert forall|s: Scope| #[trigger] scopes.contains(s) <==> exists|i: int|
                    0 <= i < parts.len() && trimmed(#[trigger] parts[i]) == scope_name(s) by {
                    scope_name_is_plain(s);
                    if before.contains(s) {
                        let i = choose|i: int|
                            0 <= i < n && trimmed(#[trigger] earlier[i]) == scope_name(s);
                        assert(parts[i] == earlier[i]);
                    }
                    if exists|i: int|
                        0 <= i < parts.len() && trimmed(#[trigger] parts[i]) == scope_name(s) {
                        let i = choose|i: int|
                            0 <= i < parts.len() && trimmed(#[trigger] parts[i]) == scope_name(s);
                        if i < n {
                            assert(trimmed(earlier[i]) == scope_name(s));
                        }
                    }
                }
                assert forall|i: int| 0 <= i < parts.len() implies names_a_scope(
                    #[trigger] parts[i],
                ) by {
                    if i == n && trimmed(parts[n]).len() > 0 {
                        let s = choose|s: Scope| scope_name(s) == trimmed(parts.last());
                        assert(scope_name(s) == trimmed(parts[n]));
                    }
                }
            } else {
                assert(!names_a_scope(parts[n]));
            }
        }
    }
}

/// What is stored of a secret is the SHA-256 of its text: each byte of it in two
/// digits, in its place.
pub proof fn the_hash_alone_is_stored(secret: Seq<char>, i: int)
    requires
        0 <= i < sha256(encode_utf8(secret)).len(),
    ensures
        stored_hash(secret).len() == 2 * sha256(encode_utf8(secret)).len(),
        crate::text::hex_value(stored_hash(secret)[2 * i]) * 16 + crate::text::hex_value(
            stored_hash(secret)[2 * i + 1],
        ) == sha256(encode_utf8(secret))[i],
{
    crate::text::hexadecimal_reads_back(sha256(encode_utf8(secret)), i);
}

/// A key is minted from all its bytes: its id is the first ones, its secret the others,
/// and it keeps the hash of the secret.
pub proof fn a_key_is_minted_from_its_bytes(minted: Minted, id: Seq<u8>, secret: Seq<u8>)
    requires
        minted_from(minted, id, secret),
    ensures
        minted.id@ == hex_of(id),
        minted.plaintext@ == "osk_"@ + minted.id@ + "_"@ + hex_of(secret),
        minted.secret_sha256@ == stored_hash(hex_of(secret)),
{
}

} // verus!
