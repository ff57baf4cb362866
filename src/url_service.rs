//! The service: lookups with remaining lifetime, idempotent puts, and posts
//! that derive their identifier from the content.

use vstd::prelude::*;
use vstd::utf8::encode_utf8;

use crate::url_repo::{
    expiration_in_window, expiration_result_at, is_alive, is_valid_short_id, lookup_effect,
    lookup_of, record_from_row, row_under, save_effect, save_outcome_of, short_id_result,
    save_result_allowed, ExpirationTime, ExpirationTimeValidationError, Lookup, ParsedUrl,
    SaveOutcome, SaveUrlError, ShortId, ShortIdValidationError, ShortUrl, UrlRecord,
    UrlRepository,
};
use crate::wrappers::{
    base62_encode, base62_text, format_rfc3339, keyed_hash, keyed_hash_of, now_unix_nanos,
    parse_rfc3339, parsed_url, random_salt, rfc3339_formattable, rfc3339_instant, rfc3339_text,
};

verus! {

/// Body of a put request.
pub struct PutUrlPayload {
    pub url: String,
    pub expiration_timestamp: String,
}

/// Body of a post request.
pub struct PostUrlPayload {
    pub url: String,
    pub expiration_timestamp: String,
}

/// A stored mapping as shown to callers.
#[derive(Debug)]
pub struct ShortenedUrl {
    pub shortened_url_id: String,
    pub long_url: String,
    /// Timestamp in RFC 3339 format.
    pub expiration_timestamp: String,
}

/// A `ShortenedUrl` as plain values.
pub struct ShortenedView {
    pub id: Seq<char>,
    pub long_url: Seq<char>,
    pub expiration_timestamp: Seq<char>,
}

impl View for ShortenedUrl {
    type V = ShortenedView;

    open spec fn view(&self) -> ShortenedView {
        ShortenedView {
            id: self.shortened_url_id@,
            long_url: self.long_url@,
            expiration_timestamp: self.expiration_timestamp@,
        }
    }
}

/// How a stored mapping is shown to callers.
pub open spec fn shortened_view_of(record: UrlRecord) -> ShortenedView {
    ShortenedView {
        id: record.id,
        long_url: record.long_url,
        expiration_timestamp: rfc3339_text(record.expiration_time),
    }
}

impl ShortenedUrl {
    /// Shows `short_url` to callers; fails where its expiration time has no
    /// RFC 3339 text.
    pub fn try_from_short_url(short_url: ShortUrl) -> (r: Result<ShortenedUrl, String>)
        ensures
            r is Ok <==> rfc3339_formattable(short_url@.expiration_time),
            r matches Ok(shown) ==> shown@ == shortened_view_of(short_url@),
    {
        let ShortUrl { short_id, url, expiration_time } = short_url;
        let expiration_timestamp = match format_rfc3339(expiration_time.into_inner()) {
            Some(text) => text,
            None => {
                return Err("Failed to format expiration timestamp".to_owned());
            },
        };
        Ok(
            ShortenedUrl {
                shortened_url_id: short_id.into_inner(),
                long_url: url.as_str().to_owned(),
                expiration_timestamp,
            },
        )
    }
}

/// Where a short identifier leads, and for how many more seconds.
#[derive(Debug)]
pub struct Redirect {
    pub url: String,
    pub max_age_seconds: u64,
}

/// Why a lookup gave no redirect.
#[derive(Debug)]
pub enum GetUrlError {
    NotFound,
    Db(String),
}

/// Whether a put stored a new mapping or found the same one already stored.
#[derive(Clone, Copy, Debug, PartialEq, Eq, Structural)]
pub enum UrlCreationStatus {
    NewlyCreated,
    AlreadyExists,
}

/// Why a put failed.
#[derive(Debug)]
pub enum PutUrlError {
    TimestampParse(time::error::Parse),
    InvalidExpirationTime(ExpirationTimeValidationError),
    InvalidShortId(ShortIdValidationError),
    InvalidUrl(url::ParseError),
    ShortIdAlreadyTaken,
    Internal(String),
}

/// Why a post failed.
#[derive(Debug)]
pub enum PostUrlError {
    TimestampParse(time::error::Parse),
    InvalidExpirationTime(ExpirationTimeValidationError),
    InvalidUrl(url::ParseError),
    Internal(String),
}

/// The kinds of put failure, without their payloads.
pub enum PutErrorKind {
    TimestampParse,
    InvalidExpirationTime,
    InvalidShortId,
    InvalidUrl,
    ShortIdAlreadyTaken,
    Internal,
}

/// The kind of a put failure.
pub open spec fn put_error_kind(e: PutUrlError) -> PutErrorKind {
    match e {
        PutUrlError::TimestampParse(_) => PutErrorKind::TimestampParse,
        PutUrlError::InvalidExpirationTime(_) => PutErrorKind::InvalidExpirationTime,
        PutUrlError::InvalidShortId(_) => PutErrorKind::InvalidShortId,
        PutUrlError::InvalidUrl(_) => PutErrorKind::InvalidUrl,
        PutUrlError::ShortIdAlreadyTaken => PutErrorKind::ShortIdAlreadyTaken,
        PutUrlError::Internal(_) => PutErrorKind::Internal,
    }
}

/// What a put validates its inputs into at `now`: the timestamp is parsed
/// first, then the identifier, the URL and the expiration window are checked.
pub open spec fn put_candidate(id: Seq<char>, url: Seq<char>, timestamp: Seq<char>, now: int) -> Result<
    UrlRecord,
    PutErrorKind,
> {
    match rfc3339_instant(timestamp) {
        None => Err(PutErrorKind::TimestampParse),
        Some(instant) => if !is_valid_short_id(id) {
            Err(PutErrorKind::InvalidShortId)
        } else {
            match parsed_url(url) {
                None => Err(PutErrorKind::InvalidUrl),
                Some(long_url) => if !expiration_in_window(instant, now) {
                    Err(PutErrorKind::InvalidExpirationTime)
                } else {
                    Ok(UrlRecord { id, long_url, expiration_time: instant })
                },
            }
        },
    }
}

/// What a put answers once the store has answered the save of `candidate`:
/// a stored or identical entry is shown with its status, a different entry
/// under the identifier is a conflict.
pub open spec fn put_reply(candidate: UrlRecord, outcome: SaveOutcome) -> Result<
    (ShortenedView, UrlCreationStatus),
    PutErrorKind,
> {
    match outcome {
        SaveOutcome::Saved => if rfc3339_formattable(candidate.expiration_time) {
            Ok((shortened_view_of(candidate), UrlCreationStatus::NewlyCreated))
        } else {
            Err(PutErrorKind::Internal)
        },
        SaveOutcome::AlreadyExists(existing) => if existing != candidate {
            Err(PutErrorKind::ShortIdAlreadyTaken)
        } else if rfc3339_formattable(existing.expiration_time) {
            Ok((shortened_view_of(existing), UrlCreationStatus::AlreadyExists))
        } else {
            Err(PutErrorKind::Internal)
        },
        SaveOutcome::Failed => Err(PutErrorKind::Internal),
    }
}

/// A put's result as plain values.
pub open spec fn put_result_view(r: Result<(ShortenedUrl, UrlCreationStatus), PutUrlError>) -> Result<
    (ShortenedView, UrlCreationStatus),
    PutErrorKind,
> {
    match r {
        Ok((shown, status)) => Ok((shown@, status)),
        Err(e) => Err(put_error_kind(e)),
    }
}

/// What any store may answer to saving `candidate`, as an outcome.
pub open spec fn save_outcome_possible(candidate: UrlRecord, outcome: SaveOutcome) -> bool {
    match outcome {
        SaveOutcome::AlreadyExists(existing) => existing.id == candidate.id,
        _ => true,
    }
}

/// A put of `(id, url, timestamp)` at `now` may answer `r`, whatever the
/// store answered.
pub open spec fn put_answer_at(
    id: Seq<char>,
    url: Seq<char>,
    timestamp: Seq<char>,
    now: int,
    r: Result<(ShortenedUrl, UrlCreationStatus), PutUrlError>,
) -> bool {
    match put_candidate(id, url, timestamp, now) {
        Err(kind) => put_result_view(r) == Err::<(ShortenedView, UrlCreationStatus), _>(kind),
        Ok(candidate) => exists|outcome: SaveOutcome|
            save_outcome_possible(candidate, outcome) && put_result_view(r) == put_reply(
                candidate,
                outcome,
            ),
    }
}

/// The error values of a failed validation: the identifier's error is what
/// validating it gives, the expiration's error is what checking the instant at
/// `now` gives.
pub open spec fn validation_error_contents(
    id: Seq<char>,
    timestamp: Seq<char>,
    now: int,
    r: Result<ShortUrl, PutUrlError>,
) -> bool {
    &&& r matches Err(PutUrlError::InvalidShortId(e)) ==> short_id_result(id, Err(e))
    &&& r matches Err(PutUrlError::InvalidExpirationTime(e)) ==> expiration_result_at(
        rfc3339_instant(timestamp)->0,
        now,
        Err(e),
    )
}

/// The same, for the answer of a put.
pub open spec fn put_error_contents(
    id: Seq<char>,
    timestamp: Seq<char>,
    now: int,
    r: Result<(ShortenedUrl, UrlCreationStatus), PutUrlError>,
) -> bool {
    &&& r matches Err(PutUrlError::InvalidShortId(e)) ==> short_id_result(id, Err(e))
    &&& r matches Err(PutUrlError::InvalidExpirationTime(e)) ==> expiration_result_at(
        rfc3339_instant(timestamp)->0,
        now,
        Err(e),
    )
}

/// A put failed on its inputs, before the store was asked.
pub open spec fn is_validation_error(e: PutUrlError) -> bool {
    !(e is ShortIdAlreadyTaken || e is Internal)
}

/// Validates the inputs of a put at `now`, in the order of `put_candidate`.
pub fn put_candidate_at(id: String, long_url: &str, expiration_timestamp: &str, now: i128) -> (r:
    Result<ShortUrl, PutUrlError>)
    ensures
        match put_candidate(id@, long_url@, expiration_timestamp@, now as int) {
            Ok(candidate) => r matches Ok(u) && u@ == candidate,
            Err(kind) => r matches Err(e) && put_error_kind(e) == kind,
        },
        validation_error_contents(id@, expiration_timestamp@, now as int, r),
{
    let expiration_time = match parse_rfc3339(expiration_timestamp) {
        Ok(instant) => instant,
        Err(e) => {
            return Err(PutUrlError::TimestampParse(e));
        },
    };
    let short_id = match ShortId::new(id) {
        Ok(short_id) => short_id,
        Err(e) => {
            return Err(PutUrlError::InvalidShortId(e));
        },
    };
    let url = match ParsedUrl::parse(long_url) {
        Ok(url) => url,
        Err(e) => {
            return Err(PutUrlError::InvalidUrl(e));
        },
    };
    let expiration_time = match ExpirationTime::new_at(expiration_time, now) {
        Ok(expiration_time) => expiration_time,
        Err(e) => {
            return Err(PutUrlError::InvalidExpirationTime(e));
        },
    };
    Ok(ShortUrl { short_id, url, expiration_time })
}

/// Turns the store's answer to saving `candidate` into the put's answer.
pub fn put_outcome(candidate: ShortUrl, saved: Result<ShortUrl, SaveUrlError>) -> (r: Result<
    (ShortenedUrl, UrlCreationStatus),
    PutUrlError,
>)
    requires
        save_result_allowed(candidate@, saved),
    ensures
        put_result_view(r) == put_reply(candidate@, save_outcome_of(saved)),
        saved matches Err(SaveUrlError::Internal(cause)) ==> r matches Err(PutUrlError::Internal(c))
            && c@ == cause@,
{
    match saved {
        Ok(short_url) => match ShortenedUrl::try_from_short_url(short_url) {
            Ok(shown) => Ok((shown, UrlCreationStatus::NewlyCreated)),
            Err(cause) => Err(PutUrlError::Internal(cause)),
        },
        Err(SaveUrlError::ItemAlreadyExists(existing)) => {
            if candidate.same_content(&existing) {
                match ShortenedUrl::try_from_short_url(existing) {
                    Ok(shown) => Ok((shown, UrlCreationStatus::AlreadyExists)),
                    Err(cause) => Err(PutUrlError::Internal(cause)),
                }
            } else {
                Err(PutUrlError::ShortIdAlreadyTaken)
            }
        },
        Err(SaveUrlError::Internal(cause)) => Err(PutUrlError::Internal(cause)),
    }
}

/// How many identifiers a post tries before giving up.
pub const PUT_ATTEMPTS: usize = 3;

/// The salt of a post's first attempt: 32 zero bytes.
pub open spec fn zero_salt() -> Seq<u8> {
    Seq::new(32, |i: int| 0u8)
}

/// The number that the first five bytes of `digest` encode, little-endian.
pub open spec fn id_number(digest: Seq<u8>) -> nat {
    (digest[0] + 256 * digest[1] + 65536 * digest[2] + 16777216 * digest[3] + 4294967296
        * digest[4]) as nat
}

/// The identifier that a post derives from its URL and timestamp under `salt`:
/// the keyed digest of the URL followed by the timestamp, its first five bytes
/// read as a little-endian number, written in base 62.
pub open spec fn derived_id(salt: Seq<u8>, url: Seq<char>, timestamp: Seq<char>) -> Seq<char> {
    base62_text(id_number(keyed_hash_of(salt, encode_utf8(url) + encode_utf8(timestamp))))
}

/// Derives the identifier for `url` and `expiration_timestamp` under `salt`.
pub fn derive_short_id(salt: &[u8; 32], url: &str, expiration_timestamp: &str) -> (r: String)
    ensures
        r@ == derived_id(salt@, url@, expiration_timestamp@),
{
    let digest = keyed_hash(salt, url, expiration_timestamp);
    let n: u128 = digest[0] as u128 + 256 * (digest[1] as u128) + 65536 * (digest[2] as u128)
        + 16777216 * (digest[3] as u128) + 4294967296 * (digest[4] as u128);
    base62_encode(n)
}

/// Whole seconds from `now` until `expiration`: zero once it has passed, and at
/// most `u64::MAX`.
pub open spec fn remaining_seconds(expiration: int, now: int) -> int {
    if expiration <= now {
        0
    } else if (expiration - now) / 1_000_000_000 > u64::MAX {
        u64::MAX as int
    } else {
        (expiration - now) / 1_000_000_000
    }
}

/// What a lookup answers, over plain values.
pub enum GetReply {
    Redirected(Seq<char>, int),
    NotFound,
    Failed,
}

/// What a lookup answers at `now` for what the store found.
pub open spec fn get_reply(found: Lookup, now: int) -> GetReply {
    match found {
        Lookup::Found(record) => GetReply::Redirected(
            record.long_url,
            remaining_seconds(record.expiration_time, now),
        ),
        Lookup::Absent => GetReply::NotFound,
        Lookup::Broken => GetReply::Failed,
    }
}

/// A lookup's result as plain values.
pub open spec fn get_result_view(r: Result<Redirect, GetUrlError>) -> GetReply {
    match r {
        Ok(redirect) => GetReply::Redirected(redirect.url@, redirect.max_age_seconds as int),
        Err(GetUrlError::NotFound) => GetReply::NotFound,
        Err(GetUrlError::Db(_)) => GetReply::Failed,
    }
}

/// Whole seconds from `now` until `expiration`, as in `remaining_seconds`.
pub fn remaining_lifetime(expiration: i128, now: i128) -> (r: u64)
    ensures
        r == remaining_seconds(expiration as int, now as int),
{
    if expiration <= now {
        return 0;
    }
    match expiration.checked_sub(now) {
        Some(diff) => {
            let seconds = diff / 1_000_000_000;
            if seconds > u64::MAX as i128 {
                u64::MAX
            } else {
                seconds as u64
            }
        },
        None => {
            assert((expiration - now) / 1_000_000_000 > u64::MAX) by (nonlinear_arith)
                requires
                    expiration - now > i128::MAX,
            ;
            u64::MAX
        },
    }
}

/// Answers a lookup at `now` from what the store found.
pub fn redirect_for(found: Result<Option<ShortUrl>, String>, now: i128) -> (r: Result<
    Redirect,
    GetUrlError,
>)
    ensures
        get_result_view(r) == get_reply(lookup_of(found), now as int),
        found matches Err(cause) ==> r matches Err(GetUrlError::Db(c)) && c@ == cause@,
{
    match found {
        Ok(Some(short_url)) => Ok(
            Redirect {
                url: short_url.url.as_str().to_owned(),
                max_age_seconds: remaining_lifetime(short_url.expiration_time.into_inner(), now),
            },
        ),
        Ok(None) => Err(GetUrlError::NotFound),
        Err(cause) => Err(GetUrlError::Db(cause)),
    }
}

/// What a put's answer tells of its inputs, whatever the store answered.
proof fn lemma_put_answer(
    id: Seq<char>,
    url: Seq<char>,
    timestamp: Seq<char>,
    now: int,
    r: Result<(ShortenedUrl, UrlCreationStatus), PutUrlError>,
)
    requires
        put_answer_at(id, url, timestamp, now, r),
    ensures
        r matches Err(PutUrlError::TimestampParse(_)) <==> rfc3339_instant(timestamp) is None,
        r matches Err(PutUrlError::InvalidUrl(_)) ==> parsed_url(url) is None,
        r matches Err(PutUrlError::InvalidExpirationTime(_)) ==> !expiration_in_window(
            rfc3339_instant(timestamp)->0,
            now,
        ),
        r is Err ==> rfc3339_instant(timestamp) is Some || r matches Err(
            PutUrlError::TimestampParse(_),
        ),
        r matches Ok((shown, _)) ==> {
            &&& rfc3339_instant(timestamp) is Some
            &&& parsed_url(url) is Some
            &&& is_valid_short_id(id)
            &&& shown@ == shortened_view_of(
                UrlRecord {
                    id,
                    long_url: parsed_url(url)->0,
                    expiration_time: rfc3339_instant(timestamp)->0,
                },
            )
        },
{
    match put_candidate(id, url, timestamp, now) {
        Err(kind) => {},
        Ok(candidate) => {
            let outcome = choose|outcome: SaveOutcome|
                save_outcome_possible(candidate, outcome) && put_result_view(r) == put_reply(
                    candidate,
                    outcome,
                );
            assert(put_result_view(r) == put_reply(candidate, outcome));
        },
    }
}

/// The kinds of post failure, without their payloads.
pub enum PostErrorKind {
    TimestampParse,
    InvalidExpirationTime,
    InvalidUrl,
    Internal,
}

/// A post's result as plain values.
pub open spec fn post_result_view(r: Result<ShortenedUrl, PostUrlError>) -> Result<ShortenedView, PostErrorKind> {
    match r {
        Ok(shown) => Ok(shown@),
        Err(PostUrlError::TimestampParse(_)) => Err(PostErrorKind::TimestampParse),
        Err(PostUrlError::InvalidExpirationTime(_)) => Err(PostErrorKind::InvalidExpirationTime),
        Err(PostUrlError::InvalidUrl(_)) => Err(PostErrorKind::InvalidUrl),
        Err(PostUrlError::Internal(_)) => Err(PostErrorKind::Internal),
    }
}

/// One attempt of a post: the salt it derived its identifier under, the time
/// its put validated at, and what the store answered to the save.
pub struct PostAttempt {
    pub salt: Seq<u8>,
    pub now: int,
    pub outcome: SaveOutcome,
}

/// What the put of one attempt answers.
pub open spec fn attempt_answer(url: Seq<char>, timestamp: Seq<char>, attempt: PostAttempt) -> Result<
    (ShortenedView, UrlCreationStatus),
    PutErrorKind,
> {
    match put_candidate(derived_id(attempt.salt, url, timestamp), url, timestamp, attempt.now) {
        Err(kind) => Err(kind),
        Ok(candidate) => put_reply(candidate, attempt.outcome),
    }
}

/// An attempt that a post can make: a 32-byte salt, and a store answer that
/// any store may give.
pub open spec fn attempt_possible(url: Seq<char>, timestamp: Seq<char>, attempt: PostAttempt) -> bool {
    &&& attempt.salt.len() == 32
    &&& match put_candidate(derived_id(attempt.salt, url, timestamp), url, timestamp, attempt.now) {
        Err(_) => true,
        Ok(candidate) => save_outcome_possible(candidate, attempt.outcome),
    }
}

/// The attempt's put failed in a way that a fresh identifier may mend.
pub open spec fn attempt_retryable(url: Seq<char>, timestamp: Seq<char>, attempt: PostAttempt) -> bool {
    match attempt_answer(url, timestamp, attempt) {
        Err(PutErrorKind::InvalidShortId) => true,
        Err(PutErrorKind::ShortIdAlreadyTaken) => true,
        _ => false,
    }
}

/// What a post answers after the given attempts: the first success, or the
/// first failure that a fresh identifier cannot mend; once the attempts run
/// out, an internal failure.
pub open spec fn post_reply(url: Seq<char>, timestamp: Seq<char>, attempts: Seq<PostAttempt>) -> Result<
    ShortenedView,
    PostErrorKind,
>
    decreases attempts.len(),
{
    if attempts.len() == 0 {
        Err(PostErrorKind::Internal)
    } else {
        match attempt_answer(url, timestamp, attempts[0]) {
            Ok((shown, _)) => Ok(shown),
            Err(PutErrorKind::TimestampParse) => Err(PostErrorKind::TimestampParse),
            Err(PutErrorKind::InvalidExpirationTime) => Err(PostErrorKind::InvalidExpirationTime),
            Err(PutErrorKind::InvalidUrl) => Err(PostErrorKind::InvalidUrl),
            Err(PutErrorKind::Internal) => Err(PostErrorKind::Internal),
            Err(PutErrorKind::InvalidShortId) => post_reply(url, timestamp, attempts.drop_first()),
            Err(PutErrorKind::ShortIdAlreadyTaken) => post_reply(
                url,
                timestamp,
                attempts.drop_first(),
            ),
        }
    }
}

/// A post of `url` and `timestamp` may answer `r`: some `PUT_ATTEMPTS`
/// possible attempts, the first under the zero salt, lead to it.
pub open spec fn post_answer(url: Seq<char>, timestamp: Seq<char>, r: Result<ShortenedUrl, PostUrlError>) -> bool {
    exists|attempts: Seq<PostAttempt>|
        {
            &&& attempts.len() == PUT_ATTEMPTS
            &&& attempts[0].salt == zero_salt()
            &&& forall|i: int|
                0 <= i < attempts.len() ==> attempt_possible(url, timestamp, #[trigger] attempts[i])
            &&& post_result_view(r) == post_reply(url, timestamp, attempts)
        }
}

/// Attempts that a fresh identifier may mend do not change what a post answers.
proof fn lemma_post_reply_skips(
    url: Seq<char>,
    timestamp: Seq<char>,
    done: Seq<PostAttempt>,
    rest: Seq<PostAttempt>,
)
    requires
        forall|i: int| 0 <= i < done.len() ==> attempt_retryable(url, timestamp, #[trigger] done[i]),
    ensures
        post_reply(url, timestamp, done + rest) == post_reply(url, timestamp, rest),
    decreases done.len(),
{
    if done.len() == 0 {
        assert(done + rest =~= rest);
    } else {
        assert((done + rest).drop_first() =~= done.drop_first() + rest);
        assert(attempt_retryable(url, timestamp, done[0]));
        lemma_post_reply_skips(url, timestamp, done.drop_first(), rest);
    }
}

/// The store answer behind a put's answer, as an attempt of a post.
proof fn lemma_attempt_of_put(
    salt: Seq<u8>,
    url: Seq<char>,
    timestamp: Seq<char>,
    now: int,
    r: Result<(ShortenedUrl, UrlCreationStatus), PutUrlError>,
) -> (attempt: PostAttempt)
    requires
        salt.len() == 32,
        put_answer_at(derived_id(salt, url, timestamp), url, timestamp, now, r),
    ensures
        attempt.salt == salt,
        attempt_possible(url, timestamp, attempt),
        attempt_answer(url, timestamp, attempt) == put_result_view(r),
{
    let id = derived_id(salt, url, timestamp);
    match put_candidate(id, url, timestamp, now) {
        Err(kind) => PostAttempt { salt, now, outcome: SaveOutcome::Failed },
        Ok(candidate) => {
            let outcome = choose|outcome: SaveOutcome|
                save_outcome_possible(candidate, outcome) && put_result_view(r) == put_reply(
                    candidate,
                    outcome,
                );
            PostAttempt { salt, now, outcome }
        },
    }
}

/// Attempts that are never made, to fill a post's attempts up to
/// `PUT_ATTEMPTS`.
pub open spec fn unused_attempts(count: nat) -> Seq<PostAttempt> {
    Seq::new(count, |i: int| PostAttempt { salt: zero_salt(), now: 0, outcome: SaveOutcome::Failed })
}

/// What one put of a post leaves in a modelled store: a success leaves a row
/// under the answered identifier that expires at the requested time; a
/// failure leaves the table as it was, unless the entry was stored and then
/// had no RFC 3339 text.
proof fn lemma_post_store_facts(
    before: Map<Seq<char>, UrlRecord>,
    after: Map<Seq<char>, UrlRecord>,
    id: Seq<char>,
    url: Seq<char>,
    timestamp: Seq<char>,
    put: Result<(ShortenedUrl, UrlCreationStatus), PutUrlError>,
)
    requires
        exists|now: i128, store_now: i128|
            (after, put_result_view(put)) == put_effect(
                before,
                id,
                url,
                timestamp,
                now as int,
                store_now as int,
            ),
    ensures
        put matches Ok((shown, _)) ==> {
            &&& after.contains_key(shown@.id)
            &&& after[shown@.id].expiration_time == rfc3339_instant(timestamp)->0
        },
        put is Err ==> after == before || (put matches Err(PutUrlError::Internal(_))
            && !rfc3339_formattable(rfc3339_instant(timestamp)->0)),
{
    let (now, store_now) = choose|now: i128, store_now: i128|
        (after, put_result_view(put)) == put_effect(
            before,
            id,
            url,
            timestamp,
            now as int,
            store_now as int,
        );
    lemma_put_effect_shape(before, id, url, timestamp, now as int, store_now as int);
}

/// What a post does with the answer of one attempt's put: a success is
/// returned; a failure that a fresh identifier cannot mend ends the post with
/// the same error; an invalid or taken identifier asks for another attempt
/// (`None`).
pub fn post_step(put: Result<(ShortenedUrl, UrlCreationStatus), PutUrlError>) -> (r: Option<
    Result<ShortenedUrl, PostUrlError>,
>)
    ensures
        match put {
            Ok((shown, _)) => r == Some(Ok::<ShortenedUrl, PostUrlError>(shown)),
            Err(PutUrlError::InvalidUrl(e)) => r == Some(
                Err::<ShortenedUrl, PostUrlError>(PostUrlError::InvalidUrl(e)),
            ),
            Err(PutUrlError::TimestampParse(e)) => r == Some(
                Err::<ShortenedUrl, PostUrlError>(PostUrlError::TimestampParse(e)),
            ),
            Err(PutUrlError::InvalidExpirationTime(e)) => r == Some(
                Err::<ShortenedUrl, PostUrlError>(PostUrlError::InvalidExpirationTime(e)),
            ),
            Err(PutUrlError::Internal(cause)) => r == Some(
                Err::<ShortenedUrl, PostUrlError>(PostUrlError::Internal(cause)),
            ),
            Err(PutUrlError::InvalidShortId(_)) => r is None,
            Err(PutUrlError::ShortIdAlreadyTaken) => r is None,
        },
{
    match put {
        Ok((shown, _)) => Some(Ok(shown)),
        Err(PutUrlError::InvalidUrl(e)) => Some(Err(PostUrlError::InvalidUrl(e))),
        Err(PutUrlError::TimestampParse(e)) => Some(Err(PostUrlError::TimestampParse(e))),
        Err(PutUrlError::InvalidExpirationTime(e)) => Some(
            Err(PostUrlError::InvalidExpirationTime(e)),
        ),
        Err(PutUrlError::Internal(cause)) => Some(Err(PostUrlError::Internal(cause))),
        Err(PutUrlError::InvalidShortId(_)) => None,
        Err(PutUrlError::ShortIdAlreadyTaken) => None,
    }
}

/// The service over a store of short URLs.
pub struct UrlRestService<R: UrlRepository> {
    url_repo: R,
}

impl<R: UrlRepository> UrlRestService<R> {
    /// A service over `url_repo`.
    pub fn new(url_repo: R) -> (r: UrlRestService<R>)
        ensures
            r.repository() == url_repo,
    {
        UrlRestService { url_repo }
    }

    /// The store the service works on.
    pub closed spec fn repository(&self) -> R {
        self.url_repo
    }

    /// The store, borrowed.
    pub fn url_repo(&self) -> (r: &R)
        ensures
            *r == self.repository(),
    {
        &self.url_repo
    }

    /// Where `id` leads and for how many more seconds.
    pub fn get_url(&self, id: &str) -> (r: Result<Redirect, GetUrlError>)
        ensures
            exists|found: Lookup, now: i128|
                get_result_view(r) == get_reply(found, now as int) && (found matches Lookup::Found(
                    record,
                ) ==> record.id == id@),
            self.repository().modeled() ==> exists|now: i128, store_now: i128|
                get_result_view(r) == get_effect(
                    self.repository().table(),
                    id@,
                    now as int,
                    store_now as int,
                ),
    {
        let found = self.url_repo.retrieve_url(id);
        let ghost found_view = lookup_of(found);
        let now = now_unix_nanos();
        let r = redirect_for(found, now);
        assert(get_result_view(r) == get_reply(found_view, now as int));
        proof {
            if self.url_repo.modeled() {
                let store_now = choose|store_now: i128|
                    lookup_of(found) == lookup_effect(
                        row_under(self.url_repo.table(), id@),
                        store_now as int,
                    );
                assert(get_result_view(r) == get_effect(
                    self.url_repo.table(),
                    id@,
                    now as int,
                    store_now as int,
                ));
            }
        }
        r
    }

    /// Stores `url` under `id` until `expiration_timestamp`, validating all
    /// three at `now`. A put that fails on its inputs leaves the store as it
    /// was.
    pub fn put_url_at(
        &mut self,
        id: String,
        url: &str,
        expiration_timestamp: &str,
        now: i128,
    ) -> (r: Result<(ShortenedUrl, UrlCreationStatus), PutUrlError>)
        ensures
            put_answer_at(id@, url@, expiration_timestamp@, now as int, r),
            put_error_contents(id@, expiration_timestamp@, now as int, r),
            r matches Err(e) && is_validation_error(e) ==> final(self).repository() == old(
                self,
            ).repository(),
            old(self).repository().modeled() ==> final(self).repository().modeled(),
            old(self).repository().modeled() ==> exists|store_now: i128|
                (final(self).repository().table(), put_result_view(r)) == put_effect(
                    old(self).repository().table(),
                    id@,
                    url@,
                    expiration_timestamp@,
                    now as int,
                    store_now as int,
                ),
    {
        let ghost before = self.url_repo;
        let candidate = match put_candidate_at(id, url, expiration_timestamp, now) {
            Ok(candidate) => candidate,
            Err(e) => {
                assert(put_effect(
                    before.table(),
                    id@,
                    url@,
                    expiration_timestamp@,
                    now as int,
                    0,
                ).0 == before.table());
                return Err(e);
            },
        };
        let saved = self.url_repo.save_url(candidate.clone());
        let ghost outcome = save_outcome_of(saved);
        let r = put_outcome(candidate, saved);
        assert(save_outcome_possible(candidate@, outcome));
        proof {
            if before.modeled() {
                let store_now = choose|store_now: i128|
                    (self.url_repo.table(), save_outcome_of(saved)) == save_effect(
                        before.table(),
                        candidate@,
                        store_now as int,
                    );
                assert((self.url_repo.table(), put_result_view(r)) == put_effect(
                    before.table(),
                    id@,
                    url@,
                    expiration_timestamp@,
                    now as int,
                    store_now as int,
                ));
            }
        }
        r
    }

    /// Stores `url` under `id` until `expiration_timestamp`.
    pub fn put_url(&mut self, id: String, url: &str, expiration_timestamp: &str) -> (r: Result<
        (ShortenedUrl, UrlCreationStatus),
        PutUrlError,
    >)
        ensures
            exists|now: i128|
                put_answer_at(id@, url@, expiration_timestamp@, now as int, r) && put_error_contents(
                    id@,
                    expiration_timestamp@,
                    now as int,
                    r,
                ),
            r matches Err(e) && is_validation_error(e) ==> final(self).repository() == old(
                self,
            ).repository(),
            old(self).repository().modeled() ==> final(self).repository().modeled(),
            old(self).repository().modeled() ==> exists|now: i128, store_now: i128|
                (final(self).repository().table(), put_result_view(r)) == put_effect(
                    old(self).repository().table(),
                    id@,
                    url@,
                    expiration_timestamp@,
                    now as int,
                    store_now as int,
                ),
    {
        let now = now_unix_nanos();
        self.put_url_at(id, url, expiration_timestamp, now)
    }

    /// Stores `url` until `expiration_timestamp` under an identifier derived
    /// from both: first under a zero salt, so that a repeated post finds its
    /// earlier entry, then under fresh random salts where the identifier is
    /// invalid or taken, at most `PUT_ATTEMPTS` times in all.
    #[verifier::rlimit(40)]
    pub fn post_url(&mut self, url: &str, expiration_timestamp: &str) -> (r: Result<
        ShortenedUrl,
        PostUrlError,
    >)
        ensures
            r matches Err(PostUrlError::TimestampParse(_)) <==> rfc3339_instant(
                expiration_timestamp@,
            ) is None,
            r matches Err(PostUrlError::InvalidUrl(_)) ==> parsed_url(url@) is None,
            post_answer(url@, expiration_timestamp@, r),
            r matches Err(PostUrlError::TimestampParse(_)) ==> final(self).repository() == old(
                self,
            ).repository(),
            old(self).repository().modeled() ==> final(self).repository().modeled(),
            old(self).repository().modeled() && r is Err ==> final(self).repository().table()
                == old(self).repository().table() || (r matches Err(PostUrlError::Internal(_))
                && !rfc3339_formattable(rfc3339_instant(expiration_timestamp@)->0)),
            old(self).repository().modeled() ==> (r matches Ok(shown) ==> {
                &&& final(self).repository().table().contains_key(shown@.id)
                &&& final(self).repository().table()[shown@.id].expiration_time == rfc3339_instant(
                    expiration_timestamp@,
                )->0
            }),
            r matches Ok(shown) ==> {
                &&& rfc3339_instant(expiration_timestamp@) is Some
                &&& parsed_url(url@) is Some
                &&& is_valid_short_id(shown@.id)
                &&& exists|salt: Seq<u8>|
                    salt.len() == 32 && shown@ == shortened_view_of(
                        UrlRecord {
                            id: derived_id(salt, url@, expiration_timestamp@),
                            long_url: parsed_url(url@)->0,
                            expiration_time: rfc3339_instant(expiration_timestamp@)->0,
                        },
                    )
            },
    {
        let mut salt: [u8; 32] = [0u8; 32];
        let mut attempt: usize = 0;
        let ghost mut done: Seq<PostAttempt> = Seq::empty();
        let ghost start = self.url_repo;
        assert(salt@ =~= zero_salt());
        while attempt < PUT_ATTEMPTS
            invariant
                attempt <= PUT_ATTEMPTS,
                start == old(self).repository(),
                attempt == 0 ==> self.url_repo == start,
                start.modeled() ==> self.url_repo.modeled() && self.url_repo.table()
                    == start.table(),
                attempt > 0 ==> rfc3339_instant(expiration_timestamp@) is Some,
                done.len() == attempt,
                attempt == 0 ==> salt@ == zero_salt(),
                attempt > 0 ==> done[0].salt == zero_salt(),
                forall|i: int|
                    0 <= i < done.len() ==> attempt_possible(
                        url@,
                        expiration_timestamp@,
                        #[trigger] done[i],
                    ),
                forall|i: int|
                    0 <= i < done.len() ==> attempt_retryable(
                        url@,
                        expiration_timestamp@,
                        #[trigger] done[i],
                    ),
            decreases PUT_ATTEMPTS - attempt,
        {
            let attempt_id = derive_short_id(&salt, url, expiration_timestamp);
            let ghost id_view = attempt_id@;
            let put = self.put_url(attempt_id, url, expiration_timestamp);
            let ghost this_attempt: PostAttempt;
            proof {
                if start.modeled() {
                    lemma_post_store_facts(
                        start.table(),
                        self.url_repo.table(),
                        id_view,
                        url@,
                        expiration_timestamp@,
                        put,
                    );
                }                let now = choose|now: i128|
                    put_answer_at(id_view, url@, expiration_timestamp@, now as int, put);
                lemma_put_answer(id_view, url@, expiration_timestamp@, now as int, put);
                this_attempt = lemma_attempt_of_put(
                    salt@,
                    url@,
                    expiration_timestamp@,
                    now as int,
                    put,
                );
            }
            let step = post_step(put);
            if let Some(r) = step {
                proof {
                    let rest = seq![this_attempt] + unused_attempts(
                        (PUT_ATTEMPTS - attempt - 1) as nat,
                    );
                    let attempts = done + rest;
                    lemma_post_reply_skips(url@, expiration_timestamp@, done, rest);
                    assert(rest[0] == this_attempt);
                    assert(post_reply(url@, expiration_timestamp@, attempts) == post_result_view(r));
                    assert(attempts[0].salt == zero_salt());
                    assert(forall|i: int|
                        0 <= i < attempts.len() ==> attempt_possible(
                            url@,
                            expiration_timestamp@,
                            #[trigger] attempts[i],
                        )) by {
                        assert forall|i: int| 0 <= i < attempts.len() implies attempt_possible(
                            url@,
                            expiration_timestamp@,
                            #[trigger] attempts[i],
                        ) by {
                            if i > done.len() {
                                assert(attempts[i] == unused_attempts(
                                    (PUT_ATTEMPTS - attempt - 1) as nat,
                                )[i - done.len() - 1]);
                            }
                        }
                    }
                    assert(attempts.len() == PUT_ATTEMPTS);
                }
                return r;
            }
            proof {
                done = done.push(this_attempt);
            }
            salt = random_salt();
            attempt = attempt + 1;
        }
        proof {
            lemma_post_reply_skips(url@, expiration_timestamp@, done, Seq::empty());
            assert(done + Seq::<PostAttempt>::empty() =~= done);
        }
        Err(PostUrlError::Internal("Exhausted retry attempts".to_owned()))
    }
}

/// A put on a table keyed by identifier: validation at `now`, then the save
/// protocol at the store's time `store_now`, then the reply.
pub open spec fn put_effect(
    table: Map<Seq<char>, UrlRecord>,
    id: Seq<char>,
    url: Seq<char>,
    timestamp: Seq<char>,
    now: int,
    store_now: int,
) -> (Map<Seq<char>, UrlRecord>, Result<(ShortenedView, UrlCreationStatus), PutErrorKind>) {
    match put_candidate(id, url, timestamp, now) {
        Err(kind) => (table, Err(kind)),
        Ok(candidate) => {
            let (after, outcome) = save_effect(table, candidate, store_now);
            (after, put_reply(candidate, outcome))
        },
    }
}

/// A lookup of `id` on a table keyed by identifier: the store looks at its
/// time `store_now`, the remaining lifetime is counted from `now`.
pub open spec fn get_effect(
    table: Map<Seq<char>, UrlRecord>,
    id: Seq<char>,
    now: int,
    store_now: int,
) -> GetReply {
    get_reply(lookup_effect(row_under(table, id), store_now), now)
}

/// What a put that did not fail leaves under its identifier: a row that
/// expires at the requested time. A put that failed leaves the table as it
/// was, unless it stored its entry and then found no RFC 3339 text for the
/// expiration time.
pub proof fn lemma_put_effect_shape(
    table: Map<Seq<char>, UrlRecord>,
    id: Seq<char>,
    url: Seq<char>,
    timestamp: Seq<char>,
    now: int,
    store_now: int,
)
    ensures
        ({
            let (after, reply) = put_effect(table, id, url, timestamp, now, store_now);
            &&& reply is Err ==> after == table || (reply == Err::<
                (ShortenedView, UrlCreationStatus),
                PutErrorKind,
            >(PutErrorKind::Internal) && !rfc3339_formattable(rfc3339_instant(timestamp)->0))
            &&& reply is Ok ==> {
                &&& after.contains_key(id)
                &&& after[id].expiration_time == rfc3339_instant(timestamp)->0
            }
        }),
{
}

/// A put that succeeds, repeated with the same inputs while the entry is
/// alive, answers `AlreadyExists` with the same content and leaves the table as
/// the first put left it.
pub proof fn lemma_put_replay(
    table: Map<Seq<char>, UrlRecord>,
    id: Seq<char>,
    url: Seq<char>,
    timestamp: Seq<char>,
    first_now: int,
    first_store_now: int,
    second_now: int,
    second_store_now: int,
)
    requires
        put_effect(table, id, url, timestamp, first_now, first_store_now).1 is Ok,
        first_now <= second_now <= rfc3339_instant(timestamp)->0,
        first_now <= second_store_now <= rfc3339_instant(timestamp)->0,
        parsed_url(parsed_url(url)->0) == parsed_url(url),
    ensures
        ({
            let (after, first) = put_effect(table, id, url, timestamp, first_now, first_store_now);
            put_effect(after, id, url, timestamp, second_now, second_store_now) == (after, Ok::<
                (ShortenedView, UrlCreationStatus),
                PutErrorKind,
            >((first->Ok_0.0, UrlCreationStatus::AlreadyExists)))
        }),
{
    let candidate = put_candidate(id, url, timestamp, first_now)->Ok_0;
    assert(put_candidate(id, url, timestamp, second_now) == Ok::<UrlRecord, PutErrorKind>(candidate));
    let (after, outcome) = save_effect(table, candidate, first_store_now);
    assert(after.contains_key(id));
    match outcome {
        SaveOutcome::Saved => {
            assert(after[id] == candidate);
            assert(record_from_row(candidate, second_store_now) == Some(candidate));
        },
        _ => {
            assert(record_from_row(after[id], first_store_now) == Some(candidate));
            assert(record_from_row(after[id], second_store_now) == Some(candidate));
        },
    }
}

/// A put whose identifier holds a different live entry fails with
/// `ShortIdAlreadyTaken` and leaves the table unchanged.
pub proof fn lemma_put_conflict(
    table: Map<Seq<char>, UrlRecord>,
    id: Seq<char>,
    url: Seq<char>,
    timestamp: Seq<char>,
    now: int,
    store_now: int,
)
    requires
        put_candidate(id, url, timestamp, now) is Ok,
        table.contains_key(id),
        is_alive(table[id].expiration_time, store_now),
        record_from_row(table[id], store_now) is Some,
        record_from_row(table[id], store_now)->0 != put_candidate(id, url, timestamp, now)->Ok_0,
    ensures
        put_effect(table, id, url, timestamp, now, store_now) == (table, Err::<
            (ShortenedView, UrlCreationStatus),
            PutErrorKind,
        >(PutErrorKind::ShortIdAlreadyTaken)),
{
}

/// Two posts of the same URL and timestamp derive the same first identifier;
/// once the first has succeeded under it, the second finds that entry while it
/// is alive and answers the same content as an existing entry.
pub proof fn lemma_post_dedupe(
    table: Map<Seq<char>, UrlRecord>,
    url: Seq<char>,
    timestamp: Seq<char>,
    first_now: int,
    first_store_now: int,
    second_now: int,
    second_store_now: int,
)
    requires
        put_effect(
            table,
            derived_id(zero_salt(), url, timestamp),
            url,
            timestamp,
            first_now,
            first_store_now,
        ).1 is Ok,
        first_now <= second_now <= rfc3339_instant(timestamp)->0,
        first_now <= second_store_now <= rfc3339_instant(timestamp)->0,
        parsed_url(parsed_url(url)->0) == parsed_url(url),
    ensures
        ({
            let id = derived_id(zero_salt(), url, timestamp);
            let (after, first) = put_effect(table, id, url, timestamp, first_now, first_store_now);
            put_effect(after, id, url, timestamp, second_now, second_store_now) == (after, Ok::<
                (ShortenedView, UrlCreationStatus),
                PutErrorKind,
            >((first->Ok_0.0, UrlCreationStatus::AlreadyExists)))
        }),
{
    let id = derived_id(zero_salt(), url, timestamp);
    lemma_put_replay(
        table,
        id,
        url,
        timestamp,
        first_now,
        first_store_now,
        second_now,
        second_store_now,
    );
}

/// A lookup of an absent identifier, or of one whose entry expires at or
/// before the store's time, finds nothing; one of a live entry that reads back
/// leads to its URL for the whole seconds left.
pub proof fn lemma_get(table: Map<Seq<char>, UrlRecord>, id: Seq<char>, now: int, store_now: int)
    ensures
        !table.contains_key(id) || table[id].expiration_time <= store_now ==> get_effect(
            table,
            id,
            now,
            store_now,
        ) == GetReply::NotFound,
        table.contains_key(id) && table[id].expiration_time > store_now && record_from_row(
            table[id],
            store_now,
        ) is Some ==> get_effect(table, id, now, store_now) == GetReply::Redirected(
            record_from_row(table[id], store_now)->0.long_url,
            remaining_seconds(table[id].expiration_time, now),
        ),
{
}

/// After a put that succeeds, a lookup of its identifier before the entry
/// expires leads to the put's URL for the whole seconds left.
pub proof fn lemma_put_then_get(
    table: Map<Seq<char>, UrlRecord>,
    id: Seq<char>,
    url: Seq<char>,
    timestamp: Seq<char>,
    put_now: int,
    put_store_now: int,
    get_now: int,
    get_store_now: int,
)
    requires
        put_effect(table, id, url, timestamp, put_now, put_store_now).1 is Ok,
        put_now <= get_store_now < rfc3339_instant(timestamp)->0,
        parsed_url(parsed_url(url)->0) == parsed_url(url),
    ensures
        get_effect(
            put_effect(table, id, url, timestamp, put_now, put_store_now).0,
            id,
            get_now,
            get_store_now,
        ) == GetReply::Redirected(
            parsed_url(url)->0,
            remaining_seconds(rfc3339_instant(timestamp)->0, get_now),
        ),
{
    let candidate = put_candidate(id, url, timestamp, put_now)->Ok_0;
    let (after, outcome) = save_effect(table, candidate, put_store_now);
    match outcome {
        SaveOutcome::Saved => {
            assert(after[id] == candidate);
            assert(record_from_row(candidate, get_store_now) == Some(candidate));
        },
        _ => {
            assert(record_from_row(after[id], put_store_now) == Some(candidate));
            assert(record_from_row(after[id], get_store_now) == Some(candidate));
        },
    }
}

/// An entry that expires a given number of whole seconds from now, within
/// `u64`, has exactly that many seconds left.
pub proof fn lemma_remaining_whole_seconds(now: int, seconds: int)
    requires
        0 <= seconds <= u64::MAX,
    ensures
        remaining_seconds(now + seconds * 1_000_000_000, now) == seconds,
{
    assert((seconds * 1_000_000_000) / 1_000_000_000 == seconds) by (nonlinear_arith);
}

} // verus!
