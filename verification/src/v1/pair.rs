//! `/v1/pair`: pairing a new device without ever typing a key into it.
//!
//! The device (a headset with no key) starts a pairing and shows the six-digit
//! **code**; it also receives a **token** it keeps to itself. A human types the
//! code into a client that already holds a key with `pair:approve` (the Mac's
//! Jarvis app). Approval mints a key with the *fixed device profile*, never
//! more and never `keys:admin`, revokes older keys of the same name, and parks
//! the key with the extras the device needs (Wit token, the Mac's address) under
//! the code. The device polls with its token and collects the bundle exactly
//! once.
//!
//! Codes live ten minutes, in memory. A guessed code yields nothing without the
//! token; approving needs a real key.

use crate::auth::keys::{self, equal_in_constant_time, random_bytes, Scope, ID_BYTES, SECRET_BYTES};
use crate::auth::middleware::holder;
use crate::auth::rate_limit::{checked, RateLimiter, TOKEN};
use crate::clock::{stamp, stamp_text, unix_nanos};
use crate::db::{lists, revoked, Db, KeyRowView};
use crate::error::{outcome, Error, ErrorView, Result};
use crate::json::{field, has_just, integer_number, text_field, Json, JsonView, Object};
use crate::table::{age, Table};
use crate::text::{digits_value, hex, hex_of, is_made_of, made_of, pieces, same, split, trim, trimmed, zero_padded, zero_padded_number, Charset};
use crate::v1::keys::{create_key_from, key_created, scopes_document, scopes_json, CreatedKeyView, NAME_MAX_CHARS};
use crate::v1::sessions::{bad, put_optional, text_document, with_member};
use vstd::prelude::*;

verus! {

/// How long a code lives, in nanoseconds: ten minutes.
pub const TTL: u64 = 600_000_000_000;

/// How long a code lives, in seconds.
pub const TTL_SECS: u64 = 600;

/// Pairings a single address may start per minute.
pub const STARTS_PER_MINUTE: u32 = 10;

/// What every paired device gets, and nothing else.
pub const DEVICE_PROFILE: [Scope; 5] = [
    Scope::FleetRead,
    Scope::SessionsRead,
    Scope::SessionsWrite,
    Scope::Voice,
    Scope::OpsRead,
];

/// A pairing that waits for its approval, or for its device.
pub struct Pending {
    token: String,
    bundle: Option<Bundle>,
}

/// What the device collects.
pub struct Bundle {
    /// The device's new key, `osk_…`. Shown once.
    pub api_key: String,
    pub key_id: String,
    pub name: String,
    pub wit_token: Option<String>,
    /// `host:port` of the Mac's music stream, when the approver has one.
    pub speaker: Option<String>,
}

#[verifier::ext_equal]
pub struct BundleView {
    pub api_key: Seq<char>,
    pub key_id: Seq<char>,
    pub name: Seq<char>,
    pub wit_token: Option<Seq<char>>,
    pub speaker: Option<Seq<char>>,
}

impl View for Bundle {
    type V = BundleView;

    open spec fn view(&self) -> BundleView {
        BundleView {
            api_key: self.api_key@,
            key_id: self.key_id@,
            name: self.name@,
            wit_token: self.wit_token.deep_view(),
            speaker: self.speaker.deep_view(),
        }
    }
}

impl DeepView for Bundle {
    type V = BundleView;

    open spec fn deep_view(&self) -> BundleView {
        self@
    }
}

/// A pairing: when it was started, the device's token, and the bundle once it
/// is approved.
#[verifier::ext_equal]
pub struct PairingView {
    pub started: u64,
    pub token: Seq<char>,
    pub bundle: Option<BundleView>,
}

pub struct Pairings {
    pending: Table<Pending>,
    starts: RateLimiter,
}

impl View for Pairings {
    /// The pairings, each under its code.
    type V = Map<Seq<char>, PairingView>;

    closed spec fn view(&self) -> Map<Seq<char>, PairingView> {
        self.pending@.map_values(
            |entry: (u64, Pending)|
                PairingView {
                    started: entry.0,
                    token: entry.1.token@,
                    bundle: entry.1.bundle.deep_view(),
                },
        )
    }
}

/// The pairings that are still alive.
pub open spec fn alive(
    pairings: Map<Seq<char>, PairingView>,
    now: u64,
) -> Map<Seq<char>, PairingView> {
    pairings.restrict(
        Set::new(
            |code: Seq<char>| pairings.contains_key(code) && age(pairings[code].started, now) < TTL,
        ),
    )
}

impl Pairings {
    pub closed spec fn wf(self) -> bool {
        self.pending.wf() && self.starts.wf()
    }

    /// The limit on starts, by address.
    pub closed spec fn limiter(self) -> RateLimiter {
        self.starts
    }

    /// No pairings, and a full allowance for every address.
    pub fn new() -> (r: Pairings)
        ensures
            r.wf(),
            r@ == Map::<Seq<char>, PairingView>::empty(),
            r.limiter().rate() == STARTS_PER_MINUTE,
            forall|who: Seq<char>, at: u64| #[trigger]
                r.limiter().level(who, at) == STARTS_PER_MINUTE * TOKEN,
    {
        let r = Pairings { pending: Table::new(), starts: RateLimiter::new(STARTS_PER_MINUTE) };
        assert(r@ =~= Map::<Seq<char>, PairingView>::empty());
        r
    }

    fn sweep(&mut self, now: u64)
        requires
            old(self).wf(),
        ensures
            final(self).wf(),
            final(self)@ == alive(old(self)@, now),
            final(self).limiter() == old(self).limiter(),
    {
        self.pending.sweep(now, TTL);
        assert(self@ =~= alive(old(self)@, now));
    }

    /// This moment, on the clock that the pairings are timed by.
    pub(crate) fn moment(&self) -> u64 {
        self.starts.moment()
    }
}

impl Default for Pairings {
    fn default() -> (r: Pairings)
        ensures
            r.wf(),
            r@ == Map::<Seq<char>, PairingView>::empty(),
            r.limiter().rate() == STARTS_PER_MINUTE,
            forall|who: Seq<char>, at: u64| #[trigger]
                r.limiter().level(who, at) == STARTS_PER_MINUTE * TOKEN,
    {
        Pairings::new()
    }
}

// ---- starting -------------------------------------------------------------------

pub struct Started {
    /// Six digits, for a human to type into the approving client.
    pub code: String,
    /// The device keeps this and presents it when collecting; a code alone
    /// collects nothing.
    pub token: String,
    /// Seconds until the code expires.
    pub expires_in: u64,
}

/// The caller's address for the start limiter: what the proxy says, else
/// `unknown` (all direct callers share one bucket).
pub open spec fn peer_of(forwarded_for: Option<Seq<char>>) -> Seq<char> {
    match forwarded_for {
        Some(header) => {
            let first = trimmed(pieces(header, ',')[0]);
            if first.len() > 0 {
                first
            } else {
                "unknown"@
            }
        },
        None => "unknown"@,
    }
}

/// The caller's address for the start limiter, from `x-forwarded-for`.
pub fn peer(forwarded_for: Option<&str>) -> (r: String)
    ensures
        r@ == peer_of(forwarded_for.deep_view()),
{
    match forwarded_for {
        Some(header) => {
            let parts = split(header, ',');
            let first = trim(parts[0].as_str());
            assert(parts.deep_view()[0] == parts@[0]@);
            if first.is_empty() {
                "unknown".to_owned()
            } else {
                first.to_owned()
            }
        },
        None => "unknown".to_owned(),
    }
}

/// The four bytes as a number, the least significant first.
pub open spec fn le_value(bytes: Seq<u8>) -> nat {
    (bytes[0] + 256 * bytes[1] + 65536 * bytes[2] + 16777216 * bytes[3]) as nat
}

/// The code that four bytes write: their number, as its last six digits.
pub open spec fn code_of(bytes: Seq<u8>) -> Seq<char> {
    zero_padded(le_value(bytes) % 1_000_000, 6)
}

/// The code that four bytes write.
pub fn code_from(bytes: &[u8]) -> (r: String)
    requires
        bytes@.len() == 4,
    ensures
        r@ == code_of(bytes@),
{
    let value: u64 = bytes[0] as u64 + 256 * (bytes[1] as u64) + 65536 * (bytes[2] as u64)
        + 16777216 * (bytes[3] as u64);
    zero_padded_number(value % 1_000_000, 6)
}

/// What a pairing that is started under that code and token looks like.
pub open spec fn fresh(token: Seq<char>, now: u64) -> PairingView {
    PairingView { started: now, token, bundle: None }
}

/// What a start does, given the bytes that the code and the token are written
/// from: unless the address has started too many, the pairings that have grown
/// old are dropped and one is added under an unused code.
pub open spec fn started(
    before: Pairings,
    after: Pairings,
    who: Seq<char>,
    code: Seq<u8>,
    token: Seq<u8>,
    now: u64,
    r: Result<Started>,
) -> bool {
    exists|answer: std::result::Result<(), u32>|
        {
            &&& #[trigger] checked(before.limiter(), after.limiter(), who, now, answer)
            &&& match answer {
                Err(retry_after_secs) => {
                    &&& r matches Err(e) && e@ == ErrorView::RateLimited { retry_after_secs }
                    &&& after@ == before@
                },
                Ok(_) => {
                    &&& code.len() == 4 && token.len() == SECRET_BYTES
                    &&& !alive(before@, now).contains_key(code_of(code))
                    &&& r matches Ok(s) && s.code@ == code_of(code) && s.token@ == hex_of(token)
                        && s.expires_in == TTL_SECS
                    &&& after@ == alive(before@, now).insert(
                        code_of(code),
                        fresh(hex_of(token), now),
                    )
                },
            }
        }
}

impl Pairings {
    /// Whether the address may start another pairing; if so, the old ones go.
    pub fn begin(&mut self, who: &str, now: u64) -> (r: Result<()>)
        requires
            old(self).wf(),
        ensures
            final(self).wf(),
            exists|answer: std::result::Result<(), u32>|
                {
                    &&& #[trigger] checked(
                        old(self).limiter(),
                        final(self).limiter(),
                        who@,
                        now,
                        answer,
                    )
                    &&& match answer {
                        Err(retry_after_secs) => {
                            &&& outcome(r) == Err::<(), ErrorView>(
                                ErrorView::RateLimited { retry_after_secs },
                            )
                            &&& final(self)@ == old(self)@
                        },
                        Ok(_) => r is Ok && final(self)@ == alive(old(self)@, now),
                    }
                },
    {
        let answer = self.starts.check_at(who, now);
        assert(checked(old(self).limiter(), self.limiter(), who@, now, answer));
        match answer {
            Ok(()) => {
                self.sweep(now);
                Ok(())
            },
            Err(retry_after_secs) => Err(Error::RateLimited { retry_after_secs }),
        }
    }

    /// Whether a pairing stands under that code.
    pub fn is_taken(&self, code: &str) -> (r: bool)
        requires
            self.wf(),
        ensures
            r == self@.contains_key(code@),
    {
        self.pending.get(code).is_some()
    }

    /// Adds a pairing that waits for its approval.
    pub fn park(&mut self, code: String, token: String, now: u64) -> (r: Started)
        requires
            old(self).wf(),
        ensures
            final(self).wf(),
            final(self).limiter() == old(self).limiter(),
            final(self)@ == old(self)@.insert(code@, fresh(token@, now)),
            r.code@ == code@,
            r.token@ == token@,
            r.expires_in == TTL_SECS,
    {
        self.pending.put(code.as_str(), now, Pending { token: token.clone(), bundle: None });
        assert(self@ =~= old(self)@.insert(code@, fresh(token@, now)));
        Started { code, token, expires_in: TTL_SECS }
    }
}

/// What a start comes to once the address may make it, given the bytes that were
/// drawn for the code and the token: without any it fails, under a code in use
/// nothing is added, and else the pairing is.
pub open spec fn settled(
    before: Map<Seq<char>, PairingView>,
    after: Map<Seq<char>, PairingView>,
    drawn: Option<(Seq<u8>, Seq<u8>)>,
    now: u64,
    r: Result<Option<Started>>,
) -> bool {
    match drawn {
        None => {
            &&& r matches Err(e) && e@ == ErrorView::Config("os randomness"@)
            &&& after == before
        },
        Some((code, token)) => if before.contains_key(code_of(code)) {
            r matches Ok(None) && after == before
        } else {
            &&& r matches Ok(Some(s)) && s.code@ == code_of(code) && s.token@ == hex_of(token)
                && s.expires_in == TTL_SECS
            &&& after == before.insert(code_of(code), fresh(hex_of(token), now))
        },
    }
}

/// The bytes are as many as a code and a token have.
pub open spec fn drawn_for_a_start(drawn: Option<(Seq<u8>, Seq<u8>)>) -> bool {
    drawn matches Some((code, token)) ==> code.len() == 4 && token.len() == SECRET_BYTES
}

/// Random bytes for a code and a token, unless the system has none to give.
fn draw_start() -> (r: Option<(Vec<u8>, Vec<u8>)>)
    ensures
        drawn_for_a_start(drawn_view(r)),
{
    let code = random_bytes(4)?;
    let token = random_bytes(SECRET_BYTES)?;
    Some((code, token))
}

impl Pairings {
    /// Adds the pairing that those bytes write, unless its code is in use.
    pub fn settle(&mut self, drawn: Option<(Vec<u8>, Vec<u8>)>, now: u64) -> (r: Result<
        Option<Started>,
    >)
        requires
            old(self).wf(),
            drawn_for_a_start(drawn_view(drawn)),
        ensures
            final(self).wf(),
            final(self).limiter() == old(self).limiter(),
            settled(old(self)@, final(self)@, drawn_view(drawn), now, r),
    {
        match drawn {
            None => Err(Error::Config("os randomness".to_owned())),
            Some((code, token)) => {
                let code = code_from(code.as_slice());
                if self.is_taken(code.as_str()) {
                    Ok(None)
                } else {
                    Ok(Some(self.park(code, hex(token.as_slice()), now)))
                }
            },
        }
    }
}

/// `POST /pair` for a given address, given bytes and a given moment. The limit on
/// starts is asked first; only where it lets the address through do old pairings
/// go, and is the new one added. Nothing is returned where the code is in use:
/// other bytes have to be drawn.
pub fn start_from(
    pairings: &mut Pairings,
    who: &str,
    drawn: Option<(Vec<u8>, Vec<u8>)>,
    now: u64,
) -> (r: Result<Option<Started>>)
    requires
        old(pairings).wf(),
        drawn_for_a_start(drawn_view(drawn)),
    ensures
        final(pairings).wf(),
        exists|answer: std::result::Result<(), u32>|
            {
                &&& #[trigger] checked(
                    old(pairings).limiter(),
                    final(pairings).limiter(),
                    who@,
                    now,
                    answer,
                )
                &&& match answer {
                    Err(retry_after_secs) => {
                        &&& r matches Err(e) && e@ == ErrorView::RateLimited { retry_after_secs }
                        &&& final(pairings)@ == old(pairings)@
                    },
                    Ok(_) => settled(
                        alive(old(pairings)@, now),
                        final(pairings)@,
                        drawn_view(drawn),
                        now,
                        r,
                    ),
                }
            },
{
    match pairings.begin(who, now) {
        Ok(()) => {},
        Err(e) => {
            return Err(e);
        },
    }
    pairings.settle(drawn, now)
}

/// The address was let through at that moment and the old pairings are gone, but
/// none was added.
pub open spec fn begun_only(before: Pairings, after: Pairings, who: Seq<char>, now: u64) -> bool {
    &&& checked(before.limiter(), after.limiter(), who, now, Ok(()))
    &&& after@ == alive(before@, now)
}

/// `POST /pair`. Code and token are left to chance, and drawn again until the code
/// is unused; which codes come up before is left open. Where the system has no
/// random bytes to give, an address that is let through gets no pairing.
pub fn start(pairings: &mut Pairings, forwarded_for: Option<&str>) -> (r: Result<Started>)
    requires
        old(pairings).wf(),
    ensures
        final(pairings).wf(),
        ({
            ||| exists|code: Seq<u8>, token: Seq<u8>, now: u64|
                started(
                    *old(pairings),
                    *final(pairings),
                    peer_of(forwarded_for.deep_view()),
                    code,
                    token,
                    now,
                    r,
                )
            ||| r matches Err(e) && e@ == ErrorView::Config("os randomness"@) && exists|now: u64|
                #[trigger] begun_only(
                    *old(pairings),
                    *final(pairings),
                    peer_of(forwarded_for.deep_view()),
                    now,
                )
        }),
{
    let who = peer(forwarded_for);
    let now: u64 = pairings.moment();
    match pairings.begin(who.as_str(), now) {
        Ok(()) => {},
        Err(e) => {
            assert(started(
                *old(pairings),
                *pairings,
                who@,
                Seq::<u8>::empty(),
                Seq::<u8>::empty(),
                now,
                Err(e),
            ));
            return Err(e);
        },
    }
    let mut draws: u64 = u64::MAX;
    while draws > 0
        invariant
            pairings.wf(),
            begun_only(*old(pairings), *pairings, who@, now),
            who@ == peer_of(forwarded_for.deep_view()),
        decreases draws,
    {
        let drawn = draw_start();
        let ghost bytes = drawn_view(drawn);
        match pairings.settle(drawn, now) {
            Ok(Some(r)) => {
                let ghost (code, token) = bytes->Some_0;
                assert(started(
                    *old(pairings),
                    *pairings,
                    who@,
                    code,
                    token,
                    now,
                    Ok(r),
                ));
                return Ok(r);
            },
            Ok(None) => {},
            Err(e) => {
                assert(begun_only(*old(pairings), *pairings, who@, now));
                return Err(e);
            },
        }
        draws = draws - 1;
    }
    Err(Error::Config("os randomness".to_owned()))
}

// ---- approving ------------------------------------------------------------------

pub struct Approve {
    /// The device's key name, e.g. `quest-3`. Older keys with this name are
    /// revoked.
    pub name: String,
    /// Wit.ai client token for the device's dictation, passed through untouched.
    pub wit_token: Option<String>,
    /// `host:port` of the approving Mac's music stream.
    pub speaker: Option<String>,
}

#[verifier::ext_equal]
pub struct ApproveView {
    pub name: Seq<char>,
    pub wit_token: Option<Seq<char>>,
    pub speaker: Option<Seq<char>>,
}

impl View for Approve {
    type V = ApproveView;

    open spec fn view(&self) -> ApproveView {
        ApproveView {
            name: self.name@,
            wit_token: self.wit_token.deep_view(),
            speaker: self.speaker.deep_view(),
        }
    }
}

pub struct Approved {
    pub key_id: String,
    pub name: String,
    pub scopes: Vec<Scope>,
}

#[verifier::ext_equal]
pub struct ApprovedView {
    pub key_id: Seq<char>,
    pub name: Seq<char>,
    pub scopes: Seq<Scope>,
}

impl View for Approved {
    type V = ApprovedView;

    open spec fn view(&self) -> ApprovedView {
        ApprovedView { key_id: self.key_id@, name: self.name@, scopes: self.scopes@ }
    }
}

impl DeepView for Approved {
    type V = ApprovedView;

    open spec fn deep_view(&self) -> ApprovedView {
        self@
    }
}

/// What is wrong with an approval, if anything is.
pub open spec fn approval_fault(body: ApproveView) -> Option<Seq<char>> {
    if !(0 < trimmed(body.name).len() <= NAME_MAX_CHARS) {
        Some("name must be 1-64 characters"@)
    } else if body.speaker matches Some(speaker) && !(speaker.len() <= 64 && made_of(
        speaker,
        Charset::Address,
    )) {
        Some("speaker must be host:port"@)
    } else {
        None
    }
}

/// The text, where there is one and it is not empty.
pub open spec fn non_empty(text: Option<Seq<char>>) -> Option<Seq<char>> {
    match text {
        Some(text) => if text.len() > 0 {
            Some(text)
        } else {
            None
        },
        None => None,
    }
}

/// The table with every live key of that name revoked: the name identifies the
/// device.
pub open spec fn rotated(
    table: Map<Seq<char>, KeyRowView>,
    name: Seq<char>,
    at: Seq<char>,
) -> Map<Seq<char>, KeyRowView> {
    table.map_values(
        |row: KeyRowView|
            if row.name == name && row.revoked_at is None {
                KeyRowView { revoked_at: Some(at), ..row }
            } else {
                row
            },
    )
}

/// What the device collects, once its key is made.
pub open spec fn bundle_for(created: CreatedKeyView, body: ApproveView) -> BundleView {
    BundleView {
        api_key: created.key,
        key_id: created.id,
        name: created.name,
        wit_token: non_empty(body.wit_token),
        speaker: non_empty(body.speaker),
    }
}

/// A code can be approved while its pairing is alive and not approved yet.
pub open spec fn approvable(pairings: Map<Seq<char>, PairingView>, code: Seq<char>) -> bool {
    pairings.contains_key(code) && pairings[code].bundle is None
}

/// What making the device's key comes to, given the bytes that it is written
/// from, the id's and the secret's: without any there is none.
pub open spec fn device_key_made(
    before: Map<Seq<char>, KeyRowView>,
    after: Map<Seq<char>, KeyRowView>,
    name: Seq<char>,
    drawn: Option<(Seq<u8>, Seq<u8>)>,
    at: Seq<char>,
    made: std::result::Result<CreatedKeyView, ErrorView>,
) -> bool {
    match drawn {
        Some((id, secret)) => key_created(
            before,
            after,
            name,
            DEVICE_PROFILE@,
            id,
            secret,
            at,
            made,
        ),
        None => {
            &&& made == Err::<CreatedKeyView, ErrorView>(ErrorView::Config("os randomness"@))
            &&& after == before
        },
    }
}

/// What an approval does, given the bytes that the key is written from and the
/// moment: a bad request or a code that cannot be approved makes no key. A good
/// one revokes the older keys of that name, makes a key with the device profile
/// and parks it under the code; what it returns does not hold the key.
pub open spec fn approval(
    pairings: Map<Seq<char>, PairingView>,
    pairings_after: Map<Seq<char>, PairingView>,
    table: Map<Seq<char>, KeyRowView>,
    table_after: Map<Seq<char>, KeyRowView>,
    code: Seq<char>,
    body: std::result::Result<ApproveView, Seq<char>>,
    drawn: Option<(Seq<u8>, Seq<u8>)>,
    at: Seq<char>,
    now: u64,
    r: std::result::Result<ApprovedView, ErrorView>,
) -> bool {
    let open = alive(pairings, now);
    match body {
        Err(text) => {
            &&& r == bad::<ApprovedView>(text)
            &&& table_after == table
            &&& pairings_after == pairings
        },
        Ok(body) => if approval_fault(body) is Some {
            &&& r == bad::<ApprovedView>(approval_fault(body)->0)
            &&& table_after == table
            &&& pairings_after == pairings
        } else if !approvable(open, code) {
            &&& r == Err::<ApprovedView, ErrorView>(ErrorView::NotFound)
            &&& table_after == table
            &&& pairings_after == open
        } else {
            exists|made: std::result::Result<CreatedKeyView, ErrorView>|
                {
                    &&& #[trigger] device_key_made(
                        rotated(table, trimmed(body.name), at),
                        table_after,
                        trimmed(body.name),
                        drawn,
                        at,
                        made,
                    )
                    &&& match made {
                        Err(e) => {
                            &&& r == Err::<ApprovedView, ErrorView>(e)
                            &&& pairings_after == open
                        },
                        Ok(created) => {
                            &&& r == Ok::<ApprovedView, ErrorView>(
                                ApprovedView {
                                    key_id: created.id,
                                    name: created.name,
                                    scopes: DEVICE_PROFILE@,
                                },
                            )
                            &&& pairings_after == open.insert(
                                code,
                                PairingView {
                                    bundle: Some(bundle_for(created, body)),
                                    ..open[code]
                                },
                            )
                        },
                    }
                }
        },
    }
}

/// A body that was read, or the text of why it could not be.
pub open spec fn read_body<T: View>(body: std::result::Result<T, String>) -> std::result::Result<
    T::V,
    Seq<char>,
> {
    match body {
        Ok(body) => Ok(body@),
        Err(text) => Err(text@),
    }
}

/// Refuses an approval that cannot be.
fn checked_approval(body: &Approve) -> (r: Result<()>)
    ensures
        outcome(r) == (match approval_fault(body@) {
            Some(fault) => bad(fault),
            None => Ok(()),
        }),
{
    let n: usize = trim(body.name.as_str()).unicode_len();
    if n == 0 || n > NAME_MAX_CHARS {
        return Err(Error::InvalidRequest("name must be 1-64 characters".to_owned()));
    }
    if let Some(speaker) = &body.speaker {
        if speaker.as_str().unicode_len() > 64 || !is_made_of(speaker.as_str(), Charset::Address) {
            return Err(Error::InvalidRequest("speaker must be host:port".to_owned()));
        }
    }
    Ok(())
}

/// Revokes every live key of that name.
fn rotate(db: &mut Db, name: &str, at: &str) -> (r: Result<()>)
    requires
        old(db).wf(),
    ensures
        final(db).wf(),
        r is Ok,
        final(db)@ == rotated(old(db)@, name@, at@),
{
    let ghost table = db@;
    let rows = match db.keys() {
        Ok(rows) => rows,
        Err(e) => {
            return Err(e);
        },
    };
    let n: usize = rows.len();
    let ghost listed = rows.deep_view();
    for i in 0..n
        invariant
            n == rows@.len(),
            db.wf(),
            listed == rows.deep_view(),
            lists(listed, table),
            partly_rotated(table, db@, listed, name@, at@, i as int),
    {
        assert(listed[i as int] == rows@[i as int]@);
        let ghost was = db@;
        if same(rows[i].name.as_str(), name) && rows[i].revoked_at.is_none() {
            let _ = db.revoke_key_at(rows[i].id.as_str(), at);
        }
        proof {
            one_more_rotated(table, was, db@, listed, name@, at@, i as int);
        }
    }
    proof {
        assert forall|id: Seq<char>| #[trigger] table.contains_key(id) implies db@[id] == rotated(
            table,
            name@,
            at@,
        )[id] by {
            let k = choose|k: int| 0 <= k < listed.len() && listed[k].id == id;
            assert(0 <= k < listed.len() && listed[k].id == id);
        }
        assert(db@ =~= rotated(table, name@, at@));
    }
    Ok(())
}

spec fn row_rotated(row: KeyRowView, name: Seq<char>, at: Seq<char>) -> KeyRowView {
    if row.name == name && row.revoked_at is None {
        KeyRowView { revoked_at: Some(at), ..row }
    } else {
        row
    }
}

spec fn partly_rotated(
    table: Map<Seq<char>, KeyRowView>,
    now: Map<Seq<char>, KeyRowView>,
    listed: Seq<KeyRowView>,
    name: Seq<char>,
    at: Seq<char>,
    n: int,
) -> bool {
    &&& now.dom() == table.dom()
    &&& forall|k: int|
        0 <= k < listed.len() ==> now[(#[trigger] listed[k]).id] == if k < n {
            row_rotated(listed[k], name, at)
        } else {
            listed[k]
        }
}

proof fn one_more_rotated(
    table: Map<Seq<char>, KeyRowView>,
    was: Map<Seq<char>, KeyRowView>,
    now: Map<Seq<char>, KeyRowView>,
    listed: Seq<KeyRowView>,
    name: Seq<char>,
    at: Seq<char>,
    i: int,
)
    requires
        0 <= i < listed.len(),
        lists(listed, table),
        partly_rotated(table, was, listed, name, at, i),
        now == if listed[i].name == name && listed[i].revoked_at is None {
            revoked(was, listed[i].id, at)
        } else {
            was
        },
    ensures
        partly_rotated(table, now, listed, name, at, i + 1),
{
    assert(table.contains_key(listed[i].id));
    assert(was.dom().contains(listed[i].id));
    assert(was[listed[i].id] == listed[i]);
    assert(now.dom() =~= table.dom());
    assert forall|k: int| 0 <= k < listed.len() implies now[(#[trigger] listed[k]).id] == if k < i
        + 1 {
        row_rotated(listed[k], name, at)
    } else {
        listed[k]
    } by {
        assert(was[listed[k].id] == if k < i {
            row_rotated(listed[k], name, at)
        } else {
            listed[k]
        });
        if k != i && listed[k].id == listed[i].id {
            // Two places in the list hold two rows, and a row has one id.
            assert(table[listed[k].id] == listed[k]);
            assert(table[listed[i].id] == listed[i]);
            if k < i {
                assert(crate::db::row_before(listed[k], listed[i]));
            } else {
                assert(crate::db::row_before(listed[i], listed[k]));
            }
            crate::text::before_is_a_strict_order(
                listed[i].created_at,
                listed[i].created_at,
                listed[i].created_at,
            );
            crate::text::before_is_a_strict_order(listed[i].id, listed[i].id, listed[i].id);
        }
    }
}

/// The text, where there is one and it is not empty.
fn kept_text(text: &Option<String>) -> (r: Option<String>)
    ensures
        r.deep_view() == non_empty(text.deep_view()),
{
    match text {
        Some(text) => if text.as_str().unicode_len() > 0 {
            Some(text.clone())
        } else {
            None
        },
        None => None,
    }
}

/// The device profile as a list.
fn device_profile() -> (r: Vec<Scope>)
    ensures
        r@ == DEVICE_PROFILE@,
{
    let profile = DEVICE_PROFILE;
    crate::db::copy_scopes(&profile)
}

/// The bytes are as many as a key has.
pub open spec fn drawn_for_a_key(drawn: Option<(Seq<u8>, Seq<u8>)>) -> bool {
    drawn matches Some((id, secret)) ==> id.len() == ID_BYTES && secret.len() == SECRET_BYTES
}

/// Random bytes for a key, unless the system has none to give.
fn draw() -> (r: Option<(Vec<u8>, Vec<u8>)>)
    ensures
        drawn_for_a_key(drawn_view(r)),
{
    let id = random_bytes(ID_BYTES)?;
    let secret = random_bytes(SECRET_BYTES)?;
    Some((id, secret))
}

/// The bytes themselves.
pub open spec fn drawn_view(drawn: Option<(Vec<u8>, Vec<u8>)>) -> Option<(Seq<u8>, Seq<u8>)> {
    match drawn {
        Some((id, secret)) => Some((id@, secret@)),
        None => None,
    }
}

/// `POST /pair/{code}/approve`. The bytes that the key is written from are left
/// to chance.
pub fn approve(
    pairings: &mut Pairings,
    db: &mut Db,
    code: &str,
    body: std::result::Result<Approve, String>,
) -> (r: Result<Approved>)
    requires
        old(pairings).wf(),
        old(db).wf(),
    ensures
        final(pairings).wf(),
        final(db).wf(),
        final(pairings).limiter() == old(pairings).limiter(),
        exists|drawn: Option<(Seq<u8>, Seq<u8>)>, nanos: i128, now: u64|
            drawn_for_a_key(drawn) && #[trigger] approval(
                old(pairings)@,
                final(pairings)@,
                old(db)@,
                final(db)@,
                code@,
                read_body(body),
                drawn,
                stamp_text(nanos),
                now,
                outcome(r),
            ),
{
    let nanos: i128 = unix_nanos();
    let at = stamp(nanos);
    let now: u64 = pairings.moment();
    let drawn = draw();
    let ghost given = read_body(body);
    let ghost bytes = drawn_view(drawn);
    let r = approve_from(pairings, db, code, body, drawn, at.as_str(), now);
    assert(approval(
        old(pairings)@,
        pairings@,
        old(db)@,
        db@,
        code@,
        given,
        bytes,
        stamp_text(nanos),
        now,
        outcome(r),
    ));
    r
}

/// The same for given bytes and a given moment.
pub fn approve_from(
    pairings: &mut Pairings,
    db: &mut Db,
    code: &str,
    body: std::result::Result<Approve, String>,
    drawn: Option<(Vec<u8>, Vec<u8>)>,
    at: &str,
    now: u64,
) -> (r: Result<Approved>)
    requires
        old(pairings).wf(),
        old(db).wf(),
    ensures
        final(pairings).wf(),
        final(db).wf(),
        final(pairings).limiter() == old(pairings).limiter(),
        approval(
            old(pairings)@,
            final(pairings)@,
            old(db)@,
            final(db)@,
            code@,
            read_body(body),
            drawn_view(drawn),
            at@,
            now,
            outcome(r),
        ),
{
    let body = match body {
        Ok(body) => body,
        Err(text) => {
            return Err(Error::InvalidRequest(text));
        },
    };
    match checked_approval(&body) {
        Ok(()) => {},
        Err(e) => {
            return Err(e);
        },
    }
    let name = trim(body.name.as_str());
    pairings.sweep(now);
    let (begun, token) = match pairings.pending.get(code) {
        Some((begun, pending)) => if pending.bundle.is_none() {
            (begun, pending.token.clone())
        } else {
            return Err(Error::NotFound);
        },
        None => {
            return Err(Error::NotFound);
        },
    };
    let ghost open = pairings@;
    match rotate(db, name, at) {
        Ok(()) => {},
        Err(e) => {
            return Err(e);
        },
    }
    let profile = device_profile();
    let ghost bytes = drawn_view(drawn);
    let made = match drawn {
        Some((id, secret)) => create_key_from(
            db,
            name,
            profile.as_slice(),
            id.as_slice(),
            secret.as_slice(),
            at,
        ),
        None => Err(Error::Config("os randomness".to_owned())),
    };
    assert(device_key_made(
        rotated(old(db)@, trimmed(body.name@), at@),
        db@,
        trimmed(body.name@),
        bytes,
        at@,
        outcome(made),
    ));
    let created = match made {
        Ok(created) => created,
        Err(e) => {
            return Err(e);
        },
    };
    let bundle = Bundle {
        api_key: created.key,
        key_id: created.id.clone(),
        name: created.name.clone(),
        wit_token: kept_text(&body.wit_token),
        speaker: kept_text(&body.speaker),
    };
    let ghost collected = bundle@;
    pairings.pending.put(code, begun, Pending { token, bundle: Some(bundle) });
    assert(pairings@ =~= open.insert(
        code@,
        PairingView { bundle: Some(collected), ..open[code@] },
    ));
    Ok(Approved { key_id: created.id, name: created.name, scopes: profile })
}

// ---- collecting -----------------------------------------------------------------

/// What a device asks with.
pub struct Claim {
    /// The claim token from `POST /pair`.
    pub token: String,
}

/// What a device that asks for its bundle gets.
pub enum Claimed {
    /// Not approved yet: ask again.
    Waiting,
    /// The key and the extras, once.
    Collected(Bundle),
}

pub enum ClaimedView {
    Waiting,
    Collected(BundleView),
}

impl DeepView for Claimed {
    type V = ClaimedView;

    open spec fn deep_view(&self) -> ClaimedView {
        match self {
            Claimed::Waiting => ClaimedView::Waiting,
            Claimed::Collected(bundle) => ClaimedView::Collected(bundle@),
        }
    }
}

/// What is answered for a code and a token. A wrong token is answered as if the
/// code did not exist.
pub open spec fn collected(
    pairings: Map<Seq<char>, PairingView>,
    code: Seq<char>,
    token: Seq<char>,
) -> std::result::Result<ClaimedView, ErrorView> {
    if !pairings.contains_key(code) || pairings[code].token != token {
        Err(ErrorView::NotFound)
    } else {
        match pairings[code].bundle {
            Some(bundle) => Ok(ClaimedView::Collected(bundle)),
            None => Ok(ClaimedView::Waiting),
        }
    }
}

/// What is left of the pairings: one that was collected is gone.
pub open spec fn left_after(
    pairings: Map<Seq<char>, PairingView>,
    code: Seq<char>,
    token: Seq<char>,
) -> Map<Seq<char>, PairingView> {
    if collected(pairings, code, token) matches Ok(ClaimedView::Collected(_)) {
        pairings.remove(code)
    } else {
        pairings
    }
}

/// `GET /pair/{code}?token=`.
pub fn claim(pairings: &mut Pairings, code: &str, q: &Claim) -> (r: Result<Claimed>)
    requires
        old(pairings).wf(),
    ensures
        final(pairings).wf(),
        final(pairings).limiter() == old(pairings).limiter(),
        exists|now: u64|
            {
                &&& outcome(r) == collected(#[trigger] alive(old(pairings)@, now), code@, q.token@)
                &&& final(pairings)@ == left_after(alive(old(pairings)@, now), code@, q.token@)
            },
{
    let now: u64 = pairings.moment();
    claim_at(pairings, code, q, now)
}

/// The same at a given moment.
pub fn claim_at(pairings: &mut Pairings, code: &str, q: &Claim, now: u64) -> (r: Result<Claimed>)
    requires
        old(pairings).wf(),
    ensures
        final(pairings).wf(),
        final(pairings).limiter() == old(pairings).limiter(),
        outcome(r) == collected(alive(old(pairings)@, now), code@, q.token@),
        final(pairings)@ == left_after(alive(old(pairings)@, now), code@, q.token@),
{
    pairings.sweep(now);
    let ghost open = pairings@;
    let approved = match pairings.pending.get(code) {
        Some((_, pending)) => {
            if !constant_eq(pending.token.as_str(), q.token.as_str()) {
                return Err(Error::NotFound);
            }
            pending.bundle.is_some()
        },
        None => {
            return Err(Error::NotFound);
        },
    };
    if !approved {
        return Ok(Claimed::Waiting);
    }
    let taken = pairings.pending.take(code);
    assert(pairings@ =~= open.remove(code@));
    match taken {
        Some(pending) => match pending.bundle {
            Some(bundle) => Ok(Claimed::Collected(bundle)),
            None => Ok(Claimed::Waiting),
        },
        None => Err(Error::NotFound),
    }
}

/// Whether the texts are the same, in a time that does not tell where they
/// differ.
fn constant_eq(a: &str, b: &str) -> (r: bool)
    ensures
        r == (a@ == b@),
{
    proof {
        vstd::utf8::encode_utf8_decode_utf8(a@);
        vstd::utf8::encode_utf8_decode_utf8(b@);
    }
    equal_in_constant_time(a.as_bytes(), b.as_bytes())
}

// ---- documents ------------------------------------------------------------------

/// A started pairing on the wire.
pub open spec fn started_document(
    code: Seq<char>,
    token: Seq<char>,
    expires_in: u64,
) -> JsonView {
    JsonView::Object(
        map![
            "code"@ => JsonView::Text(code),
            "token"@ => JsonView::Text(token),
            "expires_in"@ => JsonView::Number(integer_number(expires_in as i64)),
        ],
    )
}

/// An approval on the wire.
pub open spec fn approved_document(approved: ApprovedView) -> JsonView {
    JsonView::Object(
        map![
            "key_id"@ => JsonView::Text(approved.key_id),
            "name"@ => JsonView::Text(approved.name),
            "scopes"@ => scopes_document(approved.scopes),
        ],
    )
}

impl Started {
    pub fn to_json(&self) -> (r: Json)
        requires
            self.expires_in <= i64::MAX,
        ensures
            r@ == started_document(self.code@, self.token@, self.expires_in),
    {
        let mut o = Object::new();
        o.put_text("code", self.code.as_str());
        o.put_text("token", self.token.as_str());
        o.put("expires_in", Json::integer(self.expires_in as i64));
        assert(o@ =~= started_document(self.code@, self.token@, self.expires_in)->Object_0);
        Json::Object(o)
    }
}

impl Approved {
    pub fn to_json(&self) -> (r: Json)
        ensures
            r@ == approved_document(self@),
    {
        let mut o = Object::new();
        o.put_text("key_id", self.key_id.as_str());
        o.put_text("name", self.name.as_str());
        o.put("scopes", scopes_json(self.scopes.as_slice()));
        assert(o@ =~= approved_document(self@)->Object_0);
        Json::Object(o)
    }
}

/// The bundle on the wire: the extras only where there are any.
pub open spec fn bundle_document(bundle: BundleView) -> JsonView {
    let members = map![
        "api_key"@ => JsonView::Text(bundle.api_key),
        "key_id"@ => JsonView::Text(bundle.key_id),
        "name"@ => JsonView::Text(bundle.name),
    ];
    let members = with_member(members, "wit_token"@, text_document(bundle.wit_token));
    JsonView::Object(with_member(members, "speaker"@, text_document(bundle.speaker)))
}

impl Bundle {
    pub fn to_json(&self) -> (r: Json)
        ensures
            r@ == bundle_document(self@),
    {
        let mut o = Object::new();
        o.put_text("api_key", self.api_key.as_str());
        o.put_text("key_id", self.key_id.as_str());
        o.put_text("name", self.name.as_str());
        assert(o@ =~= map![
            "api_key"@ => JsonView::Text(self@.api_key),
            "key_id"@ => JsonView::Text(self@.key_id),
            "name"@ => JsonView::Text(self@.name),
        ]);
        put_optional(&mut o, "wit_token", &self.wit_token);
        put_optional(&mut o, "speaker", &self.speaker);
        Json::Object(o)
    }
}

// ---- laws -------------------------------------------------------------------------

/// An approved device holds the fixed profile and nothing else; in particular
/// neither `keys:admin` nor `pair:approve`.
pub proof fn device_profile_is_fixed(
    pairings: Map<Seq<char>, PairingView>,
    pairings_after: Map<Seq<char>, PairingView>,
    table: Map<Seq<char>, KeyRowView>,
    table_after: Map<Seq<char>, KeyRowView>,
    code: Seq<char>,
    body: std::result::Result<ApproveView, Seq<char>>,
    drawn: Option<(Seq<u8>, Seq<u8>)>,
    at: Seq<char>,
    now: u64,
    approved: ApprovedView,
)
    requires
        approval(
            pairings,
            pairings_after,
            table,
            table_after,
            code,
            body,
            drawn,
            at,
            now,
            Ok(approved),
        ),
    ensures
        table_after.contains_key(approved.key_id),
        table_after[approved.key_id].scopes == DEVICE_PROFILE@,
        approved.scopes == DEVICE_PROFILE@,
        !DEVICE_PROFILE@.contains(Scope::KeysAdmin),
        !DEVICE_PROFILE@.contains(Scope::PairApprove),
{
    let profile = DEVICE_PROFILE@;
    assert(keys::ascending(profile));
    keys::ascending_list_is_in_order(profile);
}

/// Re-pairing rotates: of all the keys of the device's name, only the new one is
/// left alive.
pub proof fn older_keys_of_the_name_are_revoked(
    pairings: Map<Seq<char>, PairingView>,
    pairings_after: Map<Seq<char>, PairingView>,
    table: Map<Seq<char>, KeyRowView>,
    table_after: Map<Seq<char>, KeyRowView>,
    code: Seq<char>,
    body: std::result::Result<ApproveView, Seq<char>>,
    drawn: Option<(Seq<u8>, Seq<u8>)>,
    at: Seq<char>,
    now: u64,
    approved: ApprovedView,
    id: Seq<char>,
)
    requires
        approval(
            pairings,
            pairings_after,
            table,
            table_after,
            code,
            body,
            drawn,
            at,
            now,
            Ok(approved),
        ),
        table.contains_key(id),
    ensures
        id != approved.key_id,
        table_after.contains_key(id),
        table[id].name == approved.name ==> table_after[id].revoked_at is Some,
        table[id].name != approved.name ==> table_after[id] == table[id],
        table_after[approved.key_id].name == approved.name,
        table_after[approved.key_id].revoked_at is None,
{
    let name = trimmed(body->Ok_0.name);
    crate::text::trimmed_has_clean_ends(body->Ok_0.name);
    assert(rotated(table, name, at).contains_key(id));
}

/// A code that was approved cannot be approved again, whenever that is tried.
pub proof fn a_code_is_approved_once(
    pairings: Map<Seq<char>, PairingView>,
    pairings_after: Map<Seq<char>, PairingView>,
    table: Map<Seq<char>, KeyRowView>,
    table_after: Map<Seq<char>, KeyRowView>,
    code: Seq<char>,
    body: std::result::Result<ApproveView, Seq<char>>,
    drawn: Option<(Seq<u8>, Seq<u8>)>,
    at: Seq<char>,
    now: u64,
    approved: ApprovedView,
    later: u64,
)
    requires
        approval(
            pairings,
            pairings_after,
            table,
            table_after,
            code,
            body,
            drawn,
            at,
            now,
            Ok(approved),
        ),
    ensures
        !approvable(alive(pairings_after, later), code),
{
}

/// Codes live ten minutes: after that, a code is neither approved nor collected,
/// with its token or without.
pub proof fn a_code_expires(
    pairings: Map<Seq<char>, PairingView>,
    code: Seq<char>,
    token: Seq<char>,
    now: u64,
)
    requires
        pairings.contains_key(code) ==> age(pairings[code].started, now) >= 600_000_000_000,
    ensures
        !approvable(alive(pairings, now), code),
        collected(alive(pairings, now), code, token) == Err::<ClaimedView, ErrorView>(
            ErrorView::NotFound,
        ),
{
}

/// The bundle is collected exactly once: whoever asks again, at whatever time and
/// with whatever token, finds nothing.
pub proof fn a_bundle_is_collected_once(
    pairings: Map<Seq<char>, PairingView>,
    code: Seq<char>,
    token: Seq<char>,
    other_token: Seq<char>,
    later: u64,
)
    requires
        collected(pairings, code, token) matches Ok(ClaimedView::Collected(_)),
    ensures
        collected(alive(left_after(pairings, code, token), later), code, other_token) == Err::<
            ClaimedView,
            ErrorView,
        >(ErrorView::NotFound),
{
}

/// A code without its token collects nothing, and takes nothing from the device
/// that holds the token.
pub proof fn a_code_alone_collects_nothing(
    pairings: Map<Seq<char>, PairingView>,
    code: Seq<char>,
    token: Seq<char>,
)
    requires
        pairings.contains_key(code) ==> pairings[code].token != token,
    ensures
        collected(pairings, code, token) == Err::<ClaimedView, ErrorView>(ErrorView::NotFound),
        left_after(pairings, code, token) == pairings,
{
}

/// The whole way: a pairing that was started, is approved, and is asked for with
/// its token while it lives, hands over a key that opens the device's own row.
pub proof fn a_paired_device_gets_its_key(
    begun: Map<Seq<char>, PairingView>,
    pairings_after: Map<Seq<char>, PairingView>,
    table: Map<Seq<char>, KeyRowView>,
    table_after: Map<Seq<char>, KeyRowView>,
    code: Seq<char>,
    token: Seq<char>,
    body: std::result::Result<ApproveView, Seq<char>>,
    id: Seq<u8>,
    secret: Seq<u8>,
    at: Seq<char>,
    start: u64,
    now: u64,
    later: u64,
    approved: ApprovedView,
)
    requires
        id.len() == 4,
        secret.len() == 32,
        begun.contains_key(code),
        begun[code] == fresh(token, start),
        age(start, later) < 600_000_000_000,
        approval(
            begun,
            pairings_after,
            table,
            table_after,
            code,
            body,
            Some((id, secret)),
            at,
            now,
            Ok(approved),
        ),
    ensures
        collected(alive(pairings_after, later), code, token) matches Ok(
            ClaimedView::Collected(bundle),
        ) && bundle.key_id == approved.key_id && bundle.name == approved.name && holder(
            table_after,
            bundle.api_key,
        ) == Some(table_after[approved.key_id]) && bundle.wit_token == non_empty(
            body->Ok_0.wit_token,
        ) && bundle.speaker == non_empty(body->Ok_0.speaker),
{
    let name = trimmed(body->Ok_0.name);
    let made = choose|made: std::result::Result<CreatedKeyView, ErrorView>|
        {
            &&& #[trigger] device_key_made(
                rotated(table, name, at),
                table_after,
                name,
                Some((id, secret)),
                at,
                made,
            )
            &&& match made {
                Err(e) => false,
                Ok(created) => {
                    &&& approved == ApprovedView {
                        key_id: created.id,
                        name: created.name,
                        scopes: DEVICE_PROFILE@,
                    }
                    &&& pairings_after == alive(begun, now).insert(
                        code,
                        PairingView {
                            bundle: Some(bundle_for(created, body->Ok_0)),
                            ..alive(begun, now)[code]
                        },
                    )
                },
            }
        };
    crate::v1::keys::new_key_is_accepted(
        rotated(table, name, at),
        table_after,
        name,
        DEVICE_PROFILE@,
        id,
        secret,
        at,
        made->Ok_0,
    );
    assert(alive(pairings_after, later).contains_key(code));
}

/// A device may read the fleet, read and start sessions, speak, and read the
/// services' status; it may do nothing else.
pub proof fn a_device_may_do_just_this(s: Scope)
    ensures
        DEVICE_PROFILE@.contains(s) <==> s == Scope::FleetRead || s == Scope::SessionsRead || s
            == Scope::SessionsWrite || s == Scope::Voice || s == Scope::OpsRead,
        DEVICE_PROFILE@.no_duplicates(),
{
    let profile = DEVICE_PROFILE@;
    assert(profile[0] == Scope::FleetRead);
    assert(profile[1] == Scope::SessionsRead);
    assert(profile[2] == Scope::SessionsWrite);
    assert(profile[3] == Scope::Voice);
    assert(profile[4] == Scope::OpsRead);
}

/// A pairing is alive while less than six hundred seconds have passed since it was
/// started, and is then as it was.
pub proof fn a_code_lives_ten_minutes(
    pairings: Map<Seq<char>, PairingView>,
    code: Seq<char>,
    now: u64,
)
    ensures
        alive(pairings, now).contains_key(code) <==> pairings.contains_key(code) && now
            - pairings[code].started < 600 * 1_000_000_000,
        alive(pairings, now).contains_key(code) ==> alive(pairings, now)[code] == pairings[code],
{
}

/// What a start adds: a pairing under a code of six digits that no living one has,
/// with a token of sixty-four hexadecimal digits, which the device is told with the
/// ten minutes that it has. It is not approved, and the other pairings that live
/// stay as they are.
pub proof fn a_start_adds_one_pairing(
    before: Pairings,
    after: Pairings,
    who: Seq<char>,
    code: Seq<u8>,
    token: Seq<u8>,
    now: u64,
    s: Started,
    other: Seq<char>,
)
    requires
        started(before, after, who, code, token, now, Ok(s)),
    ensures
        s.code@.len() == 6,
        crate::text::all_digits(s.code@),
        digits_value(s.code@) == le_value(code) % 1_000_000,
        s.token@ == hex_of(token),
        s.token@.len() == 64,
        s.expires_in == 600,
        !alive(before@, now).contains_key(s.code@),
        after@.contains_key(s.code@),
        after@[s.code@].token == s.token@,
        after@[s.code@].started == now,
        after@[s.code@].bundle is None,
        other != s.code@ ==> (after@.contains_key(other) <==> alive(before@, now).contains_key(
            other,
        )),
        other != s.code@ && after@.contains_key(other) ==> after@[other] == before@[other],
        checked(before.limiter(), after.limiter(), who, now, Ok(())),
{
    a_code_is_six_digits(code);
    crate::text::hex_of_is_hex(token);
}

/// A code is six digits: the last six of the number that its bytes stand for, the
/// least significant byte first.
pub proof fn a_code_is_six_digits(bytes: Seq<u8>)
    requires
        bytes.len() == 4,
    ensures
        code_of(bytes).len() == 6,
        crate::text::all_digits(code_of(bytes)),
        digits_value(code_of(bytes)) == le_value(bytes) % 1_000_000,
        le_value(bytes) % 256 == bytes[0],
        (le_value(bytes) / 256) % 256 == bytes[1],
        (le_value(bytes) / 65536) % 256 == bytes[2],
        le_value(bytes) / 16777216 == bytes[3],
{
    a_million();
    bytes_come_back(bytes[0] as int, bytes[1] as int, bytes[2] as int, bytes[3] as int);
    let n = (le_value(bytes) % 1_000_000) as nat;
    crate::text::zero_padded_is_digits(n, 6);
    crate::text::zeros_in_front_add_nothing(n, 6);
}

proof fn a_million()
    ensures
        vstd::arithmetic::power::pow(10, 6) == 1_000_000,
{
    reveal(vstd::arithmetic::power::pow);
    assert(vstd::arithmetic::power::pow(10, 0) == 1);
    assert(vstd::arithmetic::power::pow(10, 1) == 10);
    assert(vstd::arithmetic::power::pow(10, 2) == 100);
    assert(vstd::arithmetic::power::pow(10, 3) == 1000);
    assert(vstd::arithmetic::power::pow(10, 4) == 10000);
    assert(vstd::arithmetic::power::pow(10, 5) == 100000);
}

proof fn bytes_come_back(a: int, b: int, c: int, d: int)
    requires
        0 <= a < 256,
        0 <= b < 256,
        0 <= c < 256,
        0 <= d < 256,
    ensures
        ({
            let n = a + 256 * b + 65536 * c + 16777216 * d;
            n % 256 == a && (n / 256) % 256 == b && (n / 65536) % 256 == c && n / 16777216 == d
        }),
{
    let n = a + 256 * b + 65536 * c + 16777216 * d;
    assert(n / 256 == b + 256 * c + 65536 * d);
    assert(n / 65536 == c + 256 * d);
}

/// Starts are counted by the address that the proxy names first; where it names none
/// they are counted together.
pub proof fn starts_are_counted_by_the_first_address(first: Seq<char>, rest: Seq<char>)
    requires
        !first.contains(','),
    ensures
        trimmed(first).len() > 0 ==> peer_of(Some(first)) == trimmed(first),
        trimmed(first).len() > 0 ==> peer_of(Some(first + seq![','] + rest)) == trimmed(first),
        trimmed(first).len() == 0 ==> peer_of(Some(first)) == "unknown"@,
        trimmed(first).len() == 0 ==> peer_of(Some(first + seq![','] + rest)) == "unknown"@,
        peer_of(None) == "unknown"@,
{
    crate::text::the_first_piece_ends_at_the_separator(first, seq![','] + rest, ',');
    crate::text::the_first_piece_ends_at_the_separator(first, Seq::empty(), ',');
    assert(first + (seq![','] + rest) =~= first + seq![','] + rest);
    assert(first + Seq::<char>::empty() =~= first);
}

/// An approval is good where the name has 1 to 64 characters, without the white space
/// around it, and the speaker, if there is one, is at most 64 letters, digits, dots,
/// colons and hyphens of ASCII. Otherwise it is told what is wrong, the name first.
pub proof fn an_approval_needs_a_name_and_an_address(body: ApproveView)
    ensures
        ({
            let named = 1 <= trimmed(body.name).len() <= 64;
            let placed = body.speaker matches Some(at) ==> at.len() <= 64 && forall|i: int|
                0 <= i < at.len() ==> ('a' <= #[trigger] at[i] <= 'z' || 'A' <= at[i] <= 'Z' || '0'
                    <= at[i] <= '9' || at[i] == '.' || at[i] == ':' || at[i] == '-');
            &&& approval_fault(body) is None <==> named && placed
            &&& !named ==> approval_fault(body) == Some("name must be 1-64 characters"@)
            &&& named && !placed ==> approval_fault(body) == Some("speaker must be host:port"@)
        }),
{
    if let Some(at) = body.speaker {
        if made_of(at, Charset::Address) {
            assert forall|i: int| 0 <= i < at.len() implies ('a' <= #[trigger] at[i] <= 'z' || 'A'
                <= at[i] <= 'Z' || '0' <= at[i] <= '9' || at[i] == '.' || at[i] == ':' || at[i]
                == '-') by {
                assert(crate::text::in_charset(at[i], Charset::Address));
            }
        }
    }
}

/// An approval that is refused before a key is made leaves the table as it is: one
/// whose body cannot be read or is not good, and one of a code that is not there,
/// not alive or approved already.
pub proof fn a_refused_approval_makes_no_key(
    pairings: Map<Seq<char>, PairingView>,
    pairings_after: Map<Seq<char>, PairingView>,
    table: Map<Seq<char>, KeyRowView>,
    table_after: Map<Seq<char>, KeyRowView>,
    code: Seq<char>,
    body: std::result::Result<ApproveView, Seq<char>>,
    drawn: Option<(Seq<u8>, Seq<u8>)>,
    at: Seq<char>,
    now: u64,
    r: std::result::Result<ApprovedView, ErrorView>,
)
    requires
        approval(
            pairings,
            pairings_after,
            table,
            table_after,
            code,
            body,
            drawn,
            at,
            now,
            r,
        ),
    ensures
        body matches Err(text) ==> r == Err::<ApprovedView, ErrorView>(
            ErrorView::InvalidRequest(text),
        ) && table_after == table && pairings_after == pairings,
        body matches Ok(given) && approval_fault(given) is Some ==> r == Err::<
            ApprovedView,
            ErrorView,
        >(ErrorView::InvalidRequest(approval_fault(body->Ok_0)->Some_0)) && table_after == table
            && pairings_after == pairings,
        body matches Ok(given) && approval_fault(given) is None && !(pairings.contains_key(code)
            && now - pairings[code].started < 600_000_000_000 && pairings[code].bundle is None)
            ==> r == Err::<ApprovedView, ErrorView>(ErrorView::NotFound) && table_after == table,
        body matches Ok(given) && approval_fault(given) is None && drawn is Some && (
        pairings.contains_key(code) && now - pairings[code].started < 600_000_000_000
            && pairings[code].bundle is None) && !table.contains_key(hex_of(drawn->Some_0.0))
            ==> r is Ok,
{
    if let Ok(given) = body {
        if approval_fault(given) is None && approvable(alive(pairings, now), code) {
            crate::text::trimmed_has_clean_ends(given.name);
            assert(DEVICE_PROFILE@.len() == 5);
            assert(rotated(table, trimmed(given.name), at).dom() =~= table.dom());
        }
    }
}

/// Re-pairing revokes a key at the moment of the approval and changes nothing else of
/// it; one that was revoked before keeps its moment.
pub proof fn rotation_revokes_and_no_more(
    table: Map<Seq<char>, KeyRowView>,
    name: Seq<char>,
    at: Seq<char>,
    id: Seq<char>,
)
    ensures
        rotated(table, name, at).contains_key(id) <==> table.contains_key(id),
        table.contains_key(id) ==> {
            let row = table[id];
            let after = rotated(table, name, at)[id];
            &&& after == KeyRowView { revoked_at: after.revoked_at, ..row }
            &&& row.revoked_at is Some || row.name != name ==> after.revoked_at == row.revoked_at
            &&& row.revoked_at is None && row.name == name ==> after.revoked_at == Some(at)
        },
{
}

/// An approval answers with the id of the device's key, its name without white space
/// around it, and what it may do; what the device will collect is parked under the
/// code, and its token stays.
pub proof fn an_approval_parks_the_key(
    pairings: Map<Seq<char>, PairingView>,
    pairings_after: Map<Seq<char>, PairingView>,
    table: Map<Seq<char>, KeyRowView>,
    table_after: Map<Seq<char>, KeyRowView>,
    code: Seq<char>,
    body: ApproveView,
    id: Seq<u8>,
    secret: Seq<u8>,
    at: Seq<char>,
    now: u64,
    approved: ApprovedView,
    other: Seq<char>,
)
    requires
        approval(
            pairings,
            pairings_after,
            table,
            table_after,
            code,
            Ok(body),
            Some((id, secret)),
            at,
            now,
            Ok(approved),
        ),
    ensures
        approved.key_id == hex_of(id),
        approved.name == trimmed(body.name),
        table_after[approved.key_id].created_at == at,
        pairings_after.contains_key(code),
        pairings_after[code].token == pairings[code].token,
        pairings_after[code].started == pairings[code].started,
        pairings_after[code].bundle matches Some(bundle) && {
            &&& bundle.key_id == hex_of(id)
            &&& bundle.name == trimmed(body.name)
            &&& bundle.api_key == "osk_"@ + hex_of(id) + "_"@ + hex_of(secret)
            &&& bundle.wit_token is Some <==> (body.wit_token matches Some(t) && t.len() > 0)
            &&& bundle.wit_token is Some ==> bundle.wit_token == body.wit_token
            &&& bundle.speaker is Some <==> (body.speaker matches Some(t) && t.len() > 0)
            &&& bundle.speaker is Some ==> bundle.speaker == body.speaker
        },
        other != code ==> (pairings_after.contains_key(other) <==> alive(
            pairings,
            now,
        ).contains_key(other)),
        other != code && pairings_after.contains_key(other) ==> pairings_after[other]
            == pairings[other],
{
    crate::text::trimmed_has_clean_ends(body.name);
}

/// A device with its token waits until it is approved, and then collects what was
/// parked for it; while it waits nothing changes.
pub proof fn a_device_waits_until_it_is_approved(
    pairings: Map<Seq<char>, PairingView>,
    code: Seq<char>,
)
    requires
        pairings.contains_key(code),
    ensures
        ({
            let token = pairings[code].token;
            &&& pairings[code].bundle is None ==> collected(pairings, code, token) == Ok::<
                ClaimedView,
                ErrorView,
            >(ClaimedView::Waiting)
            &&& pairings[code].bundle is None ==> left_after(pairings, code, token) == pairings
            &&& pairings[code].bundle matches Some(bundle) ==> collected(pairings, code, token)
                == Ok::<ClaimedView, ErrorView>(ClaimedView::Collected(bundle))
            &&& pairings[code].bundle is Some ==> left_after(pairings, code, token)
                == pairings.remove(code)
        }),
{
}

/// A started pairing is told with its code, its token and its time, each under its
/// name, and no more.
pub proof fn a_started_pairing_reads_back(code: Seq<char>, token: Seq<char>, expires_in: u64)
    ensures
        text_field(started_document(code, token, expires_in), "code"@) == Some(code),
        text_field(started_document(code, token, expires_in), "token"@) == Some(token),
        field(started_document(code, token, expires_in), "expires_in"@) == Some(
            JsonView::Number(integer_number(expires_in as i64)),
        ),
        has_just(
            started_document(code, token, expires_in),
            set!["code"@, "token"@, "expires_in"@],
        ),
{
    reveal_strlit("code");
    reveal_strlit("token");
    reveal_strlit("expires_in");
    assert("code"@.len() == 4 && "token"@.len() == 5 && "expires_in"@.len() == 10);
    assert(started_document(code, token, expires_in)->Object_0.dom() =~= set![
        "code"@,
        "token"@,
        "expires_in"@,
    ]);
}

/// An approval is told with the key's id, its name and its scopes; the key itself is
/// not told.
pub proof fn an_approval_reads_back(approved: ApprovedView)
    ensures
        text_field(approved_document(approved), "key_id"@) == Some(approved.key_id),
        text_field(approved_document(approved), "name"@) == Some(approved.name),
        field(approved_document(approved), "scopes"@) == Some(scopes_document(approved.scopes)),
        has_just(approved_document(approved), set!["key_id"@, "name"@, "scopes"@]),
{
    reveal_strlit("key_id");
    reveal_strlit("name");
    reveal_strlit("scopes");
    assert("key_id"@.len() == 6 && "name"@.len() == 4 && "scopes"@.len() == 6);
    assert("key_id"@[0] != "scopes"@[0]);
    assert(approved_document(approved)->Object_0.dom() =~= set!["key_id"@, "name"@, "scopes"@]);
}

/// A bundle reads back: the key, its id and its name, and each extra where there is
/// one.
pub proof fn a_bundle_reads_back(bundle: BundleView)
    ensures
        text_field(bundle_document(bundle), "api_key"@) == Some(bundle.api_key),
        text_field(bundle_document(bundle), "key_id"@) == Some(bundle.key_id),
        text_field(bundle_document(bundle), "name"@) == Some(bundle.name),
        text_field(bundle_document(bundle), "wit_token"@) == bundle.wit_token,
        text_field(bundle_document(bundle), "speaker"@) == bundle.speaker,
        field(bundle_document(bundle), "wit_token"@) is Some <==> bundle.wit_token is Some,
        field(bundle_document(bundle), "speaker"@) is Some <==> bundle.speaker is Some,
        forall|name: Seq<char>| #[trigger]
            field(bundle_document(bundle), name) is Some ==> name == "api_key"@ || name
                == "key_id"@ || name == "name"@ || name == "wit_token"@ || name == "speaker"@,
{
    reveal_strlit("api_key");
    reveal_strlit("key_id");
    reveal_strlit("name");
    reveal_strlit("wit_token");
    reveal_strlit("speaker");
    assert("api_key"@.len() == 7 && "key_id"@.len() == 6 && "name"@.len() == 4
        && "wit_token"@.len() == 9 && "speaker"@.len() == 7);
    assert("api_key"@[0] != "speaker"@[0]);
}

} // verus!
