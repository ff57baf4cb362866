use stoopid_short::memory_repo::MemoryUrlRepository;
use stoopid_short::url_repo::{
    ExpirationTime, ExpirationTimeValidationError, ParsedUrl, SaveUrlError, ShortId,
    ShortIdValidationError, ShortUrl, UrlRepository,
};
use stoopid_short::url_service::{
    derive_short_id, post_step, redirect_for, remaining_lifetime, GetUrlError, PostUrlError, PutUrlError,
    ShortenedUrl, UrlCreationStatus, UrlRestService,
};
use time::format_description::well_known::Rfc3339;
use time::{Duration, OffsetDateTime};

const DAY_NANOS: i128 = 86_400_000_000_000;

enum SaveAnswer {
    Stored,
    ExistsAsGiven,
    Exists(ShortUrl),
    Fails(String),
}

struct MockUrlRepository {
    retrieve: Option<Result<Option<ShortUrl>, String>>,
    save: Option<SaveAnswer>,
    retrieved_ids: std::cell::RefCell<Vec<String>>,
    saved: Vec<ShortUrl>,
}

impl MockUrlRepository {
    fn new() -> Self {
        MockUrlRepository {
            retrieve: None,
            save: None,
            retrieved_ids: std::cell::RefCell::new(Vec::new()),
            saved: Vec::new(),
        }
    }
}

impl UrlRepository for MockUrlRepository {
    fn retrieve_url(&self, id: &str) -> Result<Option<ShortUrl>, String> {
        self.retrieved_ids.borrow_mut().push(id.to_owned());
        self.retrieve.clone().expect("unexpected retrieve_url call")
    }

    fn save_url(&mut self, url: ShortUrl) -> Result<ShortUrl, SaveUrlError> {
        self.saved.push(url.clone());
        match self.save.as_ref().expect("unexpected save_url call") {
            SaveAnswer::Stored => Ok(url),
            SaveAnswer::ExistsAsGiven => Err(SaveUrlError::ItemAlreadyExists(url)),
            SaveAnswer::Exists(existing) => Err(SaveUrlError::ItemAlreadyExists(existing.clone())),
            SaveAnswer::Fails(cause) => Err(SaveUrlError::Internal(cause.clone())),
        }
    }
}

fn now_nanos() -> i128 {
    OffsetDateTime::now_utc().unix_timestamp_nanos()
}

fn new_short_url(id: &str, url_str: &str, expires_in: Duration) -> ShortUrl {
    ShortUrl {
        short_id: ShortId::new(id.to_owned()).unwrap(),
        url: ParsedUrl::parse(url_str).unwrap(),
        expiration_time: ExpirationTime::new((OffsetDateTime::now_utc() + expires_in)
            .unix_timestamp_nanos())
        .unwrap(),
    }
}

fn rfc3339_of(nanos: i128) -> String {
    OffsetDateTime::from_unix_timestamp_nanos(nanos).unwrap().format(&Rfc3339).unwrap()
}

#[test]
fn test_get_url_success() {
    let mut mock_repo = MockUrlRepository::new();
    let short_id = "testurl123";
    let long_url = "https://example.com/long";
    let expected_short_url = new_short_url("testurl", long_url, Duration::days(1));
    mock_repo.retrieve = Some(Ok(Some(expected_short_url)));

    let service = UrlRestService::new(mock_repo);
    let result = service.get_url(short_id).unwrap();
    assert_eq!(service.url_repo().retrieved_ids.borrow().as_slice(), &[short_id.to_owned()]);
    assert_eq!(result.url, long_url);
    assert!((86395..=86400).contains(&result.max_age_seconds));
}

#[test]
fn test_get_url_not_found() {
    let mut mock_repo = MockUrlRepository::new();
    mock_repo.retrieve = Some(Ok(None));
    let service = UrlRestService::new(mock_repo);
    let get_url_err = service.get_url("testurl123").unwrap_err();
    assert!(matches!(get_url_err, GetUrlError::NotFound));
}

#[test]
fn test_get_url_db_error() {
    let mut mock_repo = MockUrlRepository::new();
    mock_repo.retrieve = Some(Err("test error".to_owned()));
    let service = UrlRestService::new(mock_repo);
    let get_url_err = service.get_url("testurl123").unwrap_err();
    assert!(matches!(get_url_err, GetUrlError::Db(err) if err.to_string() == "test error"));
}

#[test]
fn test_put_url_newly_created() {
    let mut mock_repo = MockUrlRepository::new();
    let short_id = "newurl123".to_owned();
    let long_url = "https://example.com";
    let expected_short_url = new_short_url(&short_id, long_url, Duration::days(1));
    let expiration_timestamp_str = rfc3339_of(expected_short_url.expiration_time.into_inner());
    mock_repo.save = Some(SaveAnswer::Stored);

    let mut service = UrlRestService::new(mock_repo);
    let (shortened_url, status) =
        service.put_url(short_id, long_url, &expiration_timestamp_str).unwrap();

    assert_eq!(service.url_repo().saved, vec![expected_short_url.clone()]);
    assert_eq!(shortened_url.shortened_url_id, expected_short_url.short_id.into_inner());
    assert_eq!(status, UrlCreationStatus::NewlyCreated);
}

#[test]
fn test_put_url_already_exists_same_content() {
    let mut mock_repo = MockUrlRepository::new();
    let short_id = "existurl123".to_owned();
    let long_url = "https://example.com";
    let existing_short_url = new_short_url(&short_id, long_url, Duration::days(1));
    let expiration_timestamp_str = rfc3339_of(existing_short_url.expiration_time.into_inner());
    mock_repo.save = Some(SaveAnswer::Exists(existing_short_url.clone()));

    let mut service = UrlRestService::new(mock_repo);
    let (shortened_url, status) =
        service.put_url(short_id, long_url, &expiration_timestamp_str).unwrap();

    assert_eq!(service.url_repo().saved, vec![existing_short_url.clone()]);
    assert_eq!(shortened_url.shortened_url_id, existing_short_url.short_id.into_inner());
    assert_eq!(status, UrlCreationStatus::AlreadyExists);
}

#[test]
fn test_put_url_short_id_already_taken() {
    let mut mock_repo = MockUrlRepository::new();
    let short_id = "takenurl123".to_owned();
    let long_url = "https://example.com";
    let conflicting_short_url =
        new_short_url("takenurl123", "https://example.org", Duration::days(1));
    let expiration_timestamp_str =
        rfc3339_of(conflicting_short_url.expiration_time.into_inner());
    let expected_short_url = ShortUrl {
        short_id: ShortId::new(short_id.clone()).unwrap(),
        url: ParsedUrl::parse(long_url).unwrap(),
        expiration_time: conflicting_short_url.expiration_time,
    };
    mock_repo.save = Some(SaveAnswer::Exists(conflicting_short_url));

    let mut service = UrlRestService::new(mock_repo);
    let result = service.put_url(short_id, long_url, &expiration_timestamp_str).unwrap_err();

    assert_eq!(service.url_repo().saved, vec![expected_short_url]);
    assert!(matches!(result, PutUrlError::ShortIdAlreadyTaken));
}

#[test]
fn test_put_url_invalid_short_id() {
    let mut service = UrlRestService::new(MockUrlRepository::new());
    let result = service
        .put_url("invalid_chars".to_owned(), "https://example.com", "2025-01-01T00:00:00Z")
        .unwrap_err();
    assert!(matches!(
        result,
        PutUrlError::InvalidShortId(ShortIdValidationError::InvalidCharacters { invalid_chars })
            if invalid_chars == "_"
    ));
}

#[test]
fn test_put_url_invalid_long_url() {
    let mut service = UrlRestService::new(MockUrlRepository::new());
    let result = service
        .put_url("valid123".to_owned(), "not a url", "1234-01-01T00:00:00Z")
        .unwrap_err();
    assert!(matches!(result, PutUrlError::InvalidUrl(_)));
}

#[test]
fn test_put_url_invalid_timestamp_format() {
    let mut service = UrlRestService::new(MockUrlRepository::new());
    let result = service
        .put_url("valid123".to_owned(), "https://example.com", "invalid-timestamp")
        .unwrap_err();
    assert!(matches!(result, PutUrlError::TimestampParse(_)));
}

#[test]
fn test_put_url_expiration_time_in_past() {
    let mut service = UrlRestService::new(MockUrlRepository::new());
    let past_timestamp = (OffsetDateTime::now_utc() - Duration::days(1)).format(&Rfc3339).unwrap();
    let result = service
        .put_url("valid123".to_owned(), "https://example.com", &past_timestamp)
        .unwrap_err();
    assert!(matches!(
        result,
        PutUrlError::InvalidExpirationTime(ExpirationTimeValidationError::InPast)
    ));
}

#[test]
fn test_put_url_db_error() {
    let mut mock_repo = MockUrlRepository::new();
    let short_id = "testurl123".to_owned();
    let long_url = "https://example.com";
    let expected_short_url = new_short_url(&short_id, long_url, Duration::days(1));
    let expiration_timestamp_str = rfc3339_of(expected_short_url.expiration_time.into_inner());
    mock_repo.save = Some(SaveAnswer::Fails("test failure".to_owned()));

    let mut service = UrlRestService::new(mock_repo);
    let result = service.put_url(short_id, long_url, &expiration_timestamp_str).unwrap_err();
    assert_eq!(service.url_repo().saved, vec![expected_short_url]);
    assert!(matches!(result, PutUrlError::Internal(cause) if cause == "test failure"));
}

fn assert_post_saved(service: &UrlRestService<MockUrlRepository>, long_url: &str, expiration: i128) {
    let saved = &service.url_repo().saved;
    assert_eq!(saved.len(), 1);
    assert_eq!(saved[0].url.as_str(), long_url);
    assert_eq!(saved[0].expiration_time.into_inner(), expiration);
}

#[test]
fn test_post_url_newly_created() {
    let long_url = "https://example.com/";
    let expiration_time = OffsetDateTime::now_utc() + Duration::days(1);
    let expiration_timestamp = expiration_time.format(&Rfc3339).unwrap();
    let mut mock_repo = MockUrlRepository::new();
    mock_repo.save = Some(SaveAnswer::Stored);

    let mut service = UrlRestService::new(mock_repo);
    let result = service.post_url(long_url, &expiration_timestamp).unwrap();
    assert_post_saved(&service, long_url, expiration_time.unix_timestamp_nanos());
    assert_eq!(result.long_url, long_url);
    assert_eq!(result.expiration_timestamp, expiration_timestamp);
}

#[test]
fn test_post_url_newly_dedupe() {
    let long_url = "https://example.com/";
    let expiration_time = OffsetDateTime::now_utc() + Duration::days(1);
    let expiration_timestamp = expiration_time.format(&Rfc3339).unwrap();
    let mut mock_repo = MockUrlRepository::new();
    mock_repo.save = Some(SaveAnswer::ExistsAsGiven);

    let mut service = UrlRestService::new(mock_repo);
    let result = service.post_url(long_url, &expiration_timestamp).unwrap();
    assert_post_saved(&service, long_url, expiration_time.unix_timestamp_nanos());
    assert_eq!(result.long_url, long_url);
    assert_eq!(result.expiration_timestamp, expiration_timestamp);
}

#[test]
fn test_post_url_invalid_long_url() {
    let mut service = UrlRestService::new(MockUrlRepository::new());
    let result = service.post_url("not a url", "1234-01-01T00:00:00Z").unwrap_err();
    assert!(matches!(result, PostUrlError::InvalidUrl(_)));
}

#[test]
fn test_post_url_invalid_timestamp_format() {
    let mut service = UrlRestService::new(MockUrlRepository::new());
    let result = service.post_url("https://example.com", "invalid-timestamp").unwrap_err();
    assert!(matches!(result, PostUrlError::TimestampParse(_)));
}

#[test]
fn test_post_url_expiration_time_in_past() {
    let mut service = UrlRestService::new(MockUrlRepository::new());
    let past_timestamp = (OffsetDateTime::now_utc() - Duration::days(1)).format(&Rfc3339).unwrap();
    let result = service.post_url("https://example.com", &past_timestamp).unwrap_err();
    assert!(matches!(
        result,
        PostUrlError::InvalidExpirationTime(ExpirationTimeValidationError::InPast)
    ));
}

#[test]
fn test_post_url_db_error() {
    let long_url = "https://example.com/";
    let expiration_time = OffsetDateTime::now_utc() + Duration::days(1);
    let expiration_timestamp = expiration_time.format(&Rfc3339).unwrap();
    let mut mock_repo = MockUrlRepository::new();
    mock_repo.save = Some(SaveAnswer::Fails("test failure".to_owned()));

    let mut service = UrlRestService::new(mock_repo);
    let result = service.post_url(long_url, &expiration_timestamp).unwrap_err();
    assert_post_saved(&service, long_url, expiration_time.unix_timestamp_nanos());
    assert!(matches!(result, PostUrlError::Internal(_)));
}

#[test]
fn test_shortened_url_try_from_short_url() {
    let short_id = "abcDEF12";
    let long_url = "https://example.com/";
    let expiration_time = OffsetDateTime::now_utc() + Duration::days(2);

    let short_url = ShortUrl {
        short_id: ShortId::new(short_id.to_owned()).unwrap(),
        url: ParsedUrl::parse(long_url).unwrap(),
        expiration_time: ExpirationTime::new(expiration_time.unix_timestamp_nanos()).unwrap(),
    };

    let shortened_url = ShortenedUrl::try_from_short_url(short_url).unwrap();

    assert_eq!(shortened_url.shortened_url_id, short_id);
    assert_eq!(shortened_url.long_url, long_url);
    assert_eq!(shortened_url.expiration_timestamp, expiration_time.format(&Rfc3339).unwrap());
}

#[test]
fn shortened_url_fails_outside_rfc3339_years() {
    let short_url = ShortUrl {
        short_id: ShortId::new("abcDEF12".to_owned()).unwrap(),
        url: ParsedUrl::parse("https://example.com/").unwrap(),
        expiration_time: ExpirationTime::new_at(
            253_402_300_800_000_000_000,
            253_402_300_000_000_000_000,
        )
        .unwrap(),
    };
    assert!(ShortenedUrl::try_from_short_url(short_url).is_err());
}

#[test]
fn derived_id_matches_keyed_hash_and_base62() {
    let salt = [0u8; 32];
    let url = "https://example.com/";
    let timestamp = "2030-01-01T00:00:00Z";
    let digest = blake3::Hasher::new_keyed(&salt)
        .update(url.as_bytes())
        .update(timestamp.as_bytes())
        .finalize();
    let mut buf = [0u8; 16];
    buf[..5].copy_from_slice(&digest.as_bytes()[..5]);
    let expected = base62::encode(u128::from_le_bytes(buf));
    let derived = derive_short_id(&salt, url, timestamp);
    assert_eq!(derived, expected);
    assert_ne!(derived, "0");
    assert!(derived.chars().all(|c| c.is_ascii_alphanumeric()));
    assert_ne!(derive_short_id(&[7u8; 32], url, timestamp), derived);
}

#[test]
fn remaining_lifetime_values() {
    let now: i128 = 1_700_000_000_000_000_000;
    assert_eq!(remaining_lifetime(now + DAY_NANOS, now), 86_400);
    assert_eq!(remaining_lifetime(now + DAY_NANOS - 1, now), 86_399);
    assert_eq!(remaining_lifetime(now, now), 0);
    assert_eq!(remaining_lifetime(now - DAY_NANOS, now), 0);
    assert_eq!(remaining_lifetime(i128::MAX, i128::MIN), u64::MAX);
}

#[test]
fn redirect_for_each_lookup() {
    let now: i128 = 1_700_000_000_000_000_000;
    let found = ShortUrl {
        short_id: ShortId::new("abc123xy".to_owned()).unwrap(),
        url: ParsedUrl::parse("https://example.com").unwrap(),
        expiration_time: ExpirationTime::new_at(now + 90 * 1_000_000_000, now).unwrap(),
    };
    let redirect = redirect_for(Ok(Some(found)), now).unwrap();
    assert_eq!(redirect.url, "https://example.com/");
    assert_eq!(redirect.max_age_seconds, 90);
    assert!(matches!(redirect_for(Ok(None), now), Err(GetUrlError::NotFound)));
    assert!(matches!(redirect_for(Err("down".to_owned()), now), Err(GetUrlError::Db(c)) if c == "down"));
}

fn in_one_day() -> String {
    (OffsetDateTime::now_utc() + Duration::days(1)).format(&Rfc3339).unwrap()
}

#[test]
fn put_twice_replays_with_same_content() {
    let mut service = UrlRestService::new(MemoryUrlRepository::new());
    let ts = in_one_day();
    let (first, first_status) =
        service.put_url("abc123xy".to_owned(), "https://example.com", &ts).unwrap();
    let (second, second_status) =
        service.put_url("abc123xy".to_owned(), "https://example.com", &ts).unwrap();
    assert_eq!(first_status, UrlCreationStatus::NewlyCreated);
    assert_eq!(second_status, UrlCreationStatus::AlreadyExists);
    assert_eq!(first.shortened_url_id, second.shortened_url_id);
    assert_eq!(first.long_url, second.long_url);
    assert_eq!(first.expiration_timestamp, second.expiration_timestamp);
}

#[test]
fn put_with_different_content_conflicts() {
    let mut service = UrlRestService::new(MemoryUrlRepository::new());
    let ts = in_one_day();
    service.put_url("abc123xy".to_owned(), "https://example.com", &ts).unwrap();
    let other_url = service.put_url("abc123xy".to_owned(), "https://example.org", &ts);
    assert!(matches!(other_url, Err(PutUrlError::ShortIdAlreadyTaken)));
    let other_ts = (OffsetDateTime::now_utc() + Duration::days(2)).format(&Rfc3339).unwrap();
    let other_time = service.put_url("abc123xy".to_owned(), "https://example.com", &other_ts);
    assert!(matches!(other_time, Err(PutUrlError::ShortIdAlreadyTaken)));
}

#[test]
fn post_twice_gives_the_same_identifier() {
    let mut service = UrlRestService::new(MemoryUrlRepository::new());
    let ts = in_one_day();
    let first = service.post_url("https://example.com/", &ts).unwrap();
    let second = service.post_url("https://example.com/", &ts).unwrap();
    assert_eq!(first.shortened_url_id, second.shortened_url_id);
    assert_eq!(first.long_url, "https://example.com/");
    assert_eq!(second.expiration_timestamp, first.expiration_timestamp);
}

#[test]
fn post_retries_past_a_taken_identifier() {
    let ts = in_one_day();
    let first_id = derive_short_id(&[0u8; 32], "https://example.com/", &ts);
    let mut service = UrlRestService::new(MemoryUrlRepository::new());
    service.put_url(first_id.clone(), "https://example.org/", &ts).unwrap();
    let posted = service.post_url("https://example.com/", &ts).unwrap();
    assert_ne!(posted.shortened_url_id, first_id);
    assert_eq!(posted.long_url, "https://example.com/");
}

#[test]
fn get_absent_expired_and_live() {
    let mut service = UrlRestService::new(MemoryUrlRepository::new());
    assert!(matches!(service.get_url("abc123xy"), Err(GetUrlError::NotFound)));
    let ts = in_one_day();
    service.put_url("abc123xy".to_owned(), "https://example.com", &ts).unwrap();
    let redirect = service.get_url("abc123xy").unwrap();
    assert_eq!(redirect.url, "https://example.com/");
    assert!((86395..=86400).contains(&redirect.max_age_seconds));

    let mut repo = MemoryUrlRepository::new();
    repo.put_row(stoopid_short::url_repo::UrlRow {
        id: "expired1".to_owned(),
        long_url: "https://example.com/".to_owned(),
        expiration_time: now_nanos() - 1_000_000_000,
    });
    let service = UrlRestService::new(repo);
    assert!(matches!(service.get_url("expired1"), Err(GetUrlError::NotFound)));
}

#[test]
fn put_then_get_end_to_end() {
    let mut service = UrlRestService::new(MemoryUrlRepository::new());
    let ts = in_one_day();
    let (shortened, status) =
        service.put_url("abc123xy".to_owned(), "https://example.com", &ts).unwrap();
    assert_eq!(status, UrlCreationStatus::NewlyCreated);
    assert_eq!(shortened.shortened_url_id, "abc123xy");
    assert_eq!(shortened.long_url, "https://example.com/");
    assert_eq!(shortened.expiration_timestamp, ts);
    let redirect = service.get_url("abc123xy").unwrap();
    assert_eq!(redirect.url, "https://example.com/");
    assert!((86395..=86400).contains(&redirect.max_age_seconds));
}

#[test]
fn post_step_for_each_put_answer() {
    let shown = ShortenedUrl {
        shortened_url_id: "abc123xy".to_owned(),
        long_url: "https://example.com/".to_owned(),
        expiration_timestamp: "2030-01-01T00:00:00Z".to_owned(),
    };
    match post_step(Ok((shown, UrlCreationStatus::AlreadyExists))) {
        Some(Ok(s)) => assert_eq!(s.shortened_url_id, "abc123xy"),
        other => panic!("unexpected {other:?}"),
    }
    assert!(matches!(
        post_step(Err(PutUrlError::Internal("down".to_owned()))),
        Some(Err(PostUrlError::Internal(c))) if c == "down"
    ));
    assert!(matches!(
        post_step(Err(PutUrlError::InvalidUrl(url::ParseError::EmptyHost))),
        Some(Err(PostUrlError::InvalidUrl(url::ParseError::EmptyHost)))
    ));
    assert!(matches!(
        post_step(Err(PutUrlError::InvalidExpirationTime(ExpirationTimeValidationError::InPast))),
        Some(Err(PostUrlError::InvalidExpirationTime(ExpirationTimeValidationError::InPast)))
    ));
    assert!(post_step(Err(PutUrlError::ShortIdAlreadyTaken)).is_none());
    assert!(post_step(Err(PutUrlError::InvalidShortId(
        ShortIdValidationError::InvalidLength { min_len: 6, max_len: 16 }
    )))
    .is_none());
}

#[test]
fn rejected_put_and_post_leave_the_store_untouched() {
    let mut service = UrlRestService::new(MockUrlRepository::new());
    assert!(service.put_url("bad id!".to_owned(), "https://example.com", &in_one_day()).is_err());
    assert!(service.post_url("https://example.com", "invalid-timestamp").is_err());
    assert!(service.url_repo().saved.is_empty());
}
