//! Validated value types, the persisted row, and the save protocol.

use vstd::prelude::*;

use vstd::utf8::encode_utf8;

use crate::wrappers::{now_unix_nanos, parse_url, parsed_url, push_char};

verus! {

/// Fewest bytes a short identifier may have.
pub const SHORT_ID_MIN_LEN: usize = 6;

/// Most bytes a short identifier may have.
pub const SHORT_ID_MAX_LEN: usize = 16;

/// A character allowed in a short identifier: an ASCII letter or digit.
pub open spec fn is_short_id_char(c: char) -> bool {
    ('0' <= c && c <= '9') || ('A' <= c && c <= 'Z') || ('a' <= c && c <= 'z')
}

/// The characters of `s` that may not stand in a short identifier, in order.
pub open spec fn invalid_chars_of(s: Seq<char>) -> Seq<char> {
    s.filter(|c: char| !is_short_id_char(c))
}

/// The byte length of `s` (its UTF-8 encoding) lies within the allowed bounds.
pub open spec fn short_id_length_ok(s: Seq<char>) -> bool {
    SHORT_ID_MIN_LEN <= encode_utf8(s).len() <= SHORT_ID_MAX_LEN
}

/// `s` is a valid short identifier.
pub open spec fn is_valid_short_id(s: Seq<char>) -> bool {
    short_id_length_ok(s) && invalid_chars_of(s).len() == 0
}

/// What validating `s` as a short identifier gives: the identifier itself when
/// valid; otherwise the length bounds when the length is wrong, or else the
/// offending characters in order.
pub open spec fn short_id_result(s: Seq<char>, r: Result<ShortId, ShortIdValidationError>) -> bool {
    match r {
        Ok(id) => is_valid_short_id(s) && id@ == s,
        Err(ShortIdValidationError::InvalidLength { min_len, max_len }) => {
            &&& !short_id_length_ok(s)
            &&& min_len == SHORT_ID_MIN_LEN
            &&& max_len == SHORT_ID_MAX_LEN
        },
        Err(ShortIdValidationError::InvalidCharacters { invalid_chars }) => {
            &&& short_id_length_ok(s)
            &&& invalid_chars@ == invalid_chars_of(s)
            &&& invalid_chars@.len() > 0
        },
    }
}

/// A validated short identifier.
#[derive(Debug, PartialEq, Eq)]
pub struct ShortId {
    inner: String,
}

impl View for ShortId {
    type V = Seq<char>;

    closed spec fn view(&self) -> Seq<char> {
        self.inner@
    }
}

impl Clone for ShortId {
    fn clone(&self) -> (r: ShortId)
        ensures
            r@ == self@,
    {
        proof {
            use_type_invariant(self);
        }
        ShortId { inner: self.inner.clone() }
    }
}

/// Why a string is not a valid short identifier.
#[derive(Clone, Debug, PartialEq, Eq)]
pub enum ShortIdValidationError {
    InvalidLength { min_len: usize, max_len: usize },
    InvalidCharacters { invalid_chars: String },
}

impl ShortId {
    /// The type's invariant: every `ShortId` holds a valid identifier.
    #[verifier::type_invariant]
    closed spec fn inv(self) -> bool {
        is_valid_short_id(self.inner@)
    }

    /// Validates `short_id`: its byte length first, then its characters.
    pub fn new(short_id: String) -> (r: Result<ShortId, ShortIdValidationError>)
        ensures
            short_id_result(short_id@, r),
    {
        let len = short_id.as_str().as_bytes().len();
        if len < SHORT_ID_MIN_LEN || len > SHORT_ID_MAX_LEN {
            return Err(
                ShortIdValidationError::InvalidLength {
                    min_len: SHORT_ID_MIN_LEN,
                    max_len: SHORT_ID_MAX_LEN,
                },
            );
        }
        let invalid_chars = collect_invalid_chars(short_id.as_str());
        if !invalid_chars.as_str().is_empty() {
            return Err(ShortIdValidationError::InvalidCharacters { invalid_chars });
        }
        Ok(ShortId { inner: short_id })
    }

    /// The identifier as a string.
    pub fn into_inner(self) -> (r: String)
        ensures
            r@ == self@,
            is_valid_short_id(r@),
    {
        proof {
            use_type_invariant(&self);
        }
        self.inner
    }

    /// The identifier, borrowed.
    pub fn as_str(&self) -> (r: &str)
        ensures
            r@ == self@,
            is_valid_short_id(r@),
    {
        proof {
            use_type_invariant(self);
        }
        self.inner.as_str()
    }
}

/// The characters of `s` that are not ASCII letters or digits, in order.
fn collect_invalid_chars(s: &str) -> (r: String)
    ensures
        r@ == invalid_chars_of(s@),
{
    broadcast use vstd::string::axiom_spec_iter;

    let mut out = String::new();
    let ghost mut seen: Seq<char> = Seq::empty();
    proof {
        reveal(Seq::filter);
    }
    for c in it: s.chars()
        invariant
            seen == it.history(),
            it.seq() == s@,
            out@ == invalid_chars_of(seen),
    {
        let ghost before = seen;
        if !(('0' <= c && c <= '9') || ('A' <= c && c <= 'Z') || ('a' <= c && c <= 'z')) {
            push_char(&mut out, c);
        }
        proof {
            reveal(Seq::filter);
            assert(before.push(c).drop_last() =~= before);
            seen = before.push(c);
        }
    }
    assert(seen =~= s@);
    out
}

/// Longest time ahead that an expiration may lie: ten years of 365 days, in
/// nanoseconds.
pub const MAX_TTL_NANOS: i128 = 315_360_000_000_000_000;

/// An entry that expires at `expiration` still holds its identifier at `now`
/// when a save asks: it does until its expiration has passed.
pub open spec fn is_alive(expiration: int, now: int) -> bool {
    expiration >= now
}

/// An entry that expires at `expiration` is found by a lookup at `now`: one
/// whose expiration is at or before `now` is not.
pub open spec fn is_found_alive(expiration: int, now: int) -> bool {
    expiration > now
}

/// `proposed` is an acceptable expiration at `now`: not in the past, and at most
/// `MAX_TTL_NANOS` ahead.
pub open spec fn expiration_in_window(proposed: int, now: int) -> bool {
    now <= proposed <= now + MAX_TTL_NANOS
}

/// A validated expiration time, in nanoseconds since the Unix epoch.
#[derive(Clone, Copy, Debug, PartialEq, Eq)]
pub struct ExpirationTime {
    inner: i128,
}

impl View for ExpirationTime {
    type V = int;

    closed spec fn view(&self) -> int {
        self.inner as int
    }
}

/// Why a proposed expiration time is refused.
#[derive(Clone, Copy, Debug, PartialEq, Eq)]
pub enum ExpirationTimeValidationError {
    TooFarInFuture { max_time: i128 },
    InPast,
}

/// What validating `proposed` against the reference time `now` gives.
pub open spec fn expiration_result_at(
    proposed: int,
    now: int,
    r: Result<ExpirationTime, ExpirationTimeValidationError>,
) -> bool {
    match r {
        Ok(e) => expiration_in_window(proposed, now) && e@ == proposed,
        Err(ExpirationTimeValidationError::InPast) => proposed < now,
        Err(ExpirationTimeValidationError::TooFarInFuture { max_time }) => {
            &&& now <= proposed
            &&& proposed > now + MAX_TTL_NANOS
            &&& max_time == now + MAX_TTL_NANOS
        },
    }
}

impl ExpirationTime {
    /// Validates `proposed_time` against the reference time `now`.
    pub fn new_at(proposed_time: i128, now: i128) -> (r: Result<
        ExpirationTime,
        ExpirationTimeValidationError,
    >)
        ensures
            expiration_result_at(proposed_time as int, now as int, r),
    {
        if proposed_time < now {
            return Err(ExpirationTimeValidationError::InPast);
        }
        if now <= i128::MAX - MAX_TTL_NANOS {
            let max_time = now + MAX_TTL_NANOS;
            if proposed_time > max_time {
                return Err(ExpirationTimeValidationError::TooFarInFuture { max_time });
            }
        }
        Ok(ExpirationTime { inner: proposed_time })
    }

    /// Validates `proposed_time` against the current time.
    pub fn new(proposed_time: i128) -> (r: Result<ExpirationTime, ExpirationTimeValidationError>)
        ensures
            exists|now: i128| expiration_result_at(proposed_time as int, now as int, r),
    {
        let now = now_unix_nanos();
        ExpirationTime::new_at(proposed_time, now)
    }

    /// The expiration time in nanoseconds since the Unix epoch.
    pub fn into_inner(self) -> (r: i128)
        ensures
            r == self@,
    {
        self.inner
    }
}

/// An absolute URL, held as its serialization.
#[derive(Debug, PartialEq, Eq)]
pub struct ParsedUrl {
    serialization: String,
}

impl View for ParsedUrl {
    type V = Seq<char>;

    closed spec fn view(&self) -> Seq<char> {
        self.serialization@
    }
}

impl Clone for ParsedUrl {
    fn clone(&self) -> (r: ParsedUrl)
        ensures
            r@ == self@,
    {
        ParsedUrl { serialization: self.serialization.clone() }
    }
}

impl ParsedUrl {
    /// Parses `input` as an absolute URL.
    pub fn parse(input: &str) -> (r: Result<ParsedUrl, url::ParseError>)
        ensures
            match r {
                Ok(u) => parsed_url(input@) == Some(u@),
                Err(_) => parsed_url(input@) is None,
            },
    {
        match parse_url(input) {
            Ok(serialization) => Ok(ParsedUrl { serialization }),
            Err(e) => Err(e),
        }
    }

    /// The URL's serialization.
    pub fn as_str(&self) -> (r: &str)
        ensures
            r@ == self@,
    {
        self.serialization.as_str()
    }
}

/// A stored mapping as plain values: what a persisted row and a `ShortUrl` hold.
pub struct UrlRecord {
    pub id: Seq<char>,
    pub long_url: Seq<char>,
    pub expiration_time: int,
}

/// A short identifier bound to a URL until an expiration time.
#[derive(Debug, PartialEq, Eq)]
pub struct ShortUrl {
    pub short_id: ShortId,
    pub url: ParsedUrl,
    pub expiration_time: ExpirationTime,
}

impl View for ShortUrl {
    type V = UrlRecord;

    open spec fn view(&self) -> UrlRecord {
        UrlRecord {
            id: self.short_id@,
            long_url: self.url@,
            expiration_time: self.expiration_time@,
        }
    }
}

impl Clone for ShortUrl {
    fn clone(&self) -> (r: ShortUrl)
        ensures
            r@ == self@,
    {
        ShortUrl {
            short_id: self.short_id.clone(),
            url: self.url.clone(),
            expiration_time: self.expiration_time,
        }
    }
}

/// A persisted row: the identifier is the primary key.
#[derive(Debug, PartialEq, Eq)]
pub struct UrlRow {
    pub id: String,
    pub long_url: String,
    pub expiration_time: i128,
}

impl View for UrlRow {
    type V = UrlRecord;

    open spec fn view(&self) -> UrlRecord {
        UrlRecord { id: self.id@, long_url: self.long_url@, expiration_time: self.expiration_time as int }
    }
}

impl Clone for UrlRow {
    fn clone(&self) -> (r: UrlRow)
        ensures
            r@ == self@,
    {
        UrlRow {
            id: self.id.clone(),
            long_url: self.long_url.clone(),
            expiration_time: self.expiration_time,
        }
    }
}

/// The `ShortUrl` that a row stands for when validated at `now`, or `None`
/// where the row breaks a rule of the value types.
pub open spec fn record_from_row(row: UrlRecord, now: int) -> Option<UrlRecord> {
    if is_valid_short_id(row.id) && parsed_url(row.long_url) is Some && expiration_in_window(
        row.expiration_time,
        now,
    ) {
        Some(UrlRecord { long_url: parsed_url(row.long_url)->0, ..row })
    } else {
        None
    }
}

impl ShortUrl {
    /// Whether both hold the same identifier, URL and expiration time.
    pub fn same_content(&self, other: &ShortUrl) -> (r: bool)
        ensures
            r == (self@ == other@),
    {
        let same_id = self.short_id.as_str().to_owned() == other.short_id.as_str().to_owned();
        let same_url = self.url.as_str().to_owned() == other.url.as_str().to_owned();
        same_id && same_url && self.expiration_time.into_inner()
            == other.expiration_time.into_inner()
    }

    /// The row that stores this value.
    pub fn to_row(&self) -> (r: UrlRow)
        ensures
            r@ == self@,
    {
        UrlRow {
            id: self.short_id.as_str().to_owned(),
            long_url: self.url.as_str().to_owned(),
            expiration_time: self.expiration_time.into_inner(),
        }
    }

    /// Rebuilds a value from a stored row, validating each field at `now`.
    pub fn from_row_at(row: UrlRow, now: i128) -> (r: Result<ShortUrl, String>)
        ensures
            match r {
                Ok(u) => record_from_row(row@, now as int) == Some(u@),
                Err(_) => record_from_row(row@, now as int) is None,
            },
    {
        let UrlRow { id, long_url, expiration_time } = row;
        let short_id = match ShortId::new(id) {
            Ok(short_id) => short_id,
            Err(_) => {
                return Err("Failed to create ShortId from db model".to_owned());
            },
        };
        let url = match ParsedUrl::parse(long_url.as_str()) {
            Ok(url) => url,
            Err(_) => {
                return Err("Failed to parse Url from db model".to_owned());
            },
        };
        let expiration_time = match ExpirationTime::new_at(expiration_time, now) {
            Ok(expiration_time) => expiration_time,
            Err(_) => {
                return Err("Failed to create ExpirationTime from db model".to_owned());
            },
        };
        Ok(ShortUrl { short_id, url, expiration_time })
    }
}

/// Why a save did not store the candidate.
#[derive(Debug)]
pub enum SaveUrlError {
    /// A live entry already holds the identifier; it is handed back.
    ItemAlreadyExists(ShortUrl),
    /// The store failed, or a stored row could not be read back.
    Internal(String),
}

/// What a save does, over plain values.
pub enum SaveOutcome {
    Saved,
    AlreadyExists(UrlRecord),
    Failed,
}

/// The save protocol on a table keyed by identifier: a live entry under the
/// candidate's identifier is handed back (or, where it cannot be read back, the
/// save fails), and otherwise the candidate takes the slot, replacing an
/// expired entry.
pub open spec fn save_effect(table: Map<Seq<char>, UrlRecord>, candidate: UrlRecord, now: int) -> (
    Map<Seq<char>, UrlRecord>,
    SaveOutcome,
) {
    if table.contains_key(candidate.id) && is_alive(table[candidate.id].expiration_time, now) {
        match record_from_row(table[candidate.id], now) {
            Some(existing) => (table, SaveOutcome::AlreadyExists(existing)),
            None => (table, SaveOutcome::Failed),
        }
    } else {
        (table.insert(candidate.id, candidate), SaveOutcome::Saved)
    }
}

/// The outcome that a save result reports.
pub open spec fn save_outcome_of(r: Result<ShortUrl, SaveUrlError>) -> SaveOutcome {
    match r {
        Ok(_) => SaveOutcome::Saved,
        Err(SaveUrlError::ItemAlreadyExists(existing)) => SaveOutcome::AlreadyExists(existing@),
        Err(SaveUrlError::Internal(_)) => SaveOutcome::Failed,
    }
}

/// What any store may answer to a save of `candidate`: the candidate itself
/// when stored, an entry under the same identifier when it is taken, or a
/// failure.
pub open spec fn save_result_allowed(candidate: UrlRecord, r: Result<ShortUrl, SaveUrlError>) -> bool {
    match r {
        Ok(saved) => saved@ == candidate,
        Err(SaveUrlError::ItemAlreadyExists(existing)) => existing@.id == candidate.id,
        Err(SaveUrlError::Internal(_)) => true,
    }
}

/// The step that a save takes once the row under the candidate's identifier
/// has been read inside the transaction.
pub enum SavePlan {
    /// No row holds the identifier: insert the candidate.
    Insert,
    /// An expired row holds it: delete that row, then insert the candidate.
    ReplaceExpired,
    /// A live row holds it: abort, handing back the stored value.
    Conflict(ShortUrl),
    /// A live row holds it but cannot be read back: abort with this cause.
    Fail(String),
}

/// Decides the step of a save from the row found under the candidate's
/// identifier, at `now`.
pub fn plan_save(existing: Option<UrlRow>, now: i128) -> (r: SavePlan)
    ensures
        match existing {
            None => r is Insert,
            Some(row) => if !is_alive(row@.expiration_time, now as int) {
                r is ReplaceExpired
            } else {
                match record_from_row(row@, now as int) {
                    Some(stored) => r matches SavePlan::Conflict(u) && u@ == stored,
                    None => r is Fail,
                }
            },
        },
{
    match existing {
        None => SavePlan::Insert,
        Some(row) => {
            if row.expiration_time < now {
                SavePlan::ReplaceExpired
            } else {
                match ShortUrl::from_row_at(row, now) {
                    Ok(stored) => SavePlan::Conflict(stored),
                    Err(cause) => SavePlan::Fail(cause),
                }
            }
        },
    }
}

/// What a lookup finds, over plain values.
pub enum Lookup {
    Absent,
    Found(UrlRecord),
    Broken,
}

/// A lookup of the row `row` at `now`: absent rows, and rows whose expiration
/// is at or before `now`, are not found,
/// and a live row that cannot be read back is an error.
pub open spec fn lookup_effect(row: Option<UrlRecord>, now: int) -> Lookup {
    match row {
        None => Lookup::Absent,
        Some(row) => if !is_found_alive(row.expiration_time, now) {
            Lookup::Absent
        } else {
            match record_from_row(row, now) {
                Some(stored) => Lookup::Found(stored),
                None => Lookup::Broken,
            }
        },
    }
}

/// The lookup that a retrieve result reports.
pub open spec fn lookup_of(r: Result<Option<ShortUrl>, String>) -> Lookup {
    match r {
        Ok(None) => Lookup::Absent,
        Ok(Some(u)) => Lookup::Found(u@),
        Err(_) => Lookup::Broken,
    }
}

/// Turns the row read under an identifier into the live value it stores, at
/// `now`.
pub fn resolve_retrieved(row: Option<UrlRow>, now: i128) -> (r: Result<Option<ShortUrl>, String>)
    ensures
        lookup_of(r) == lookup_effect(
            match row {
                Some(row) => Some(row@),
                None => None,
            },
            now as int,
        ),
{
    match row {
        None => Ok(None),
        Some(row) => {
            if row.expiration_time <= now {
                Ok(None)
            } else {
                match ShortUrl::from_row_at(row, now) {
                    Ok(stored) => Ok(Some(stored)),
                    Err(cause) => Err(cause),
                }
            }
        },
    }
}

/// The row under `id` in `table`, if any.
pub open spec fn row_under(table: Map<Seq<char>, UrlRecord>, id: Seq<char>) -> Option<UrlRecord> {
    if table.contains_key(id) {
        Some(table[id])
    } else {
        None
    }
}

/// A store of short URLs.
///
/// A store whose rows this library can model says so through `modeled`, and
/// gives them through `table`; its lookups and saves then follow
/// `lookup_effect` and `save_effect` at the store's own time. Any other store
/// promises only what holds of every answer.
pub trait UrlRepository {
    /// Whether `table` describes this store.
    open spec fn modeled(&self) -> bool {
        false
    }

    /// The stored rows, keyed by identifier, where `modeled` holds.
    open spec fn table(&self) -> Map<Seq<char>, UrlRecord> {
        Map::empty()
    }

    /// The live entry stored under `id`, if any.
    fn retrieve_url(&self, id: &str) -> (r: Result<Option<ShortUrl>, String>)
        ensures
            r matches Ok(Some(found)) ==> found@.id == id@,
            self.modeled() ==> exists|now: i128|
                lookup_of(r) == lookup_effect(row_under(self.table(), id@), now as int),
    ;

    /// Stores `url` unless a live entry holds its identifier, in one
    /// transaction.
    fn save_url(&mut self, url: ShortUrl) -> (r: Result<ShortUrl, SaveUrlError>)
        ensures
            save_result_allowed(url@, r),
            old(self).modeled() ==> final(self).modeled(),
            old(self).modeled() ==> exists|now: i128|
                (final(self).table(), save_outcome_of(r)) == save_effect(
                    old(self).table(),
                    url@,
                    now as int,
                ),
    ;
}

/// Saving a value, then saving it again while it is alive, hands the value
/// back the second time and leaves the table as the first save left it.
pub proof fn lemma_save_twice(
    table: Map<Seq<char>, UrlRecord>,
    x: UrlRecord,
    first_now: int,
    second_now: int,
)
    requires
        save_effect(table, x, first_now).1 is Saved,
        is_valid_short_id(x.id),
        parsed_url(x.long_url) == Some(x.long_url),
        expiration_in_window(x.expiration_time, second_now),
    ensures
        ({
            let after = save_effect(table, x, first_now).0;
            save_effect(after, x, second_now) == (after, SaveOutcome::AlreadyExists(x))
        }),
{
    let after = save_effect(table, x, first_now).0;
    assert(after[x.id] == x);
    assert(record_from_row(x, second_now) == Some(x));
}

/// Saving a value whose identifier holds an expired entry succeeds and puts
/// the value in that entry's place.
pub proof fn lemma_save_replaces_expired(table: Map<Seq<char>, UrlRecord>, x: UrlRecord, now: int)
    requires
        table.contains_key(x.id),
        !is_alive(table[x.id].expiration_time, now),
    ensures
        save_effect(table, x, now) == (table.insert(x.id, x), SaveOutcome::Saved),
{
}

} // verus!
