use stoopid_short::memory_repo::MemoryUrlRepository;
use stoopid_short::url_repo::{
    plan_save, resolve_retrieved, ExpirationTime, ParsedUrl, SavePlan, SaveUrlError, ShortId,
    ShortUrl, UrlRepository, UrlRow,
};

const DAY_NANOS: i128 = 86_400_000_000_000;
const SECOND_NANOS: i128 = 1_000_000_000;

fn now_nanos() -> i128 {
    time::OffsetDateTime::now_utc().unix_timestamp_nanos()
}

fn new_row(id: &str, url: &str, expires_in: i128) -> UrlRow {
    let expiration_time = now_nanos() + expires_in;
    UrlRow {
        id: id.to_owned(),
        long_url: url.to_owned(),
        expiration_time: expiration_time - expiration_time.rem_euclid(SECOND_NANOS),
    }
}

fn short_url_at(id: &str, url: &str, expiration_time: i128, now: i128) -> ShortUrl {
    ShortUrl {
        short_id: ShortId::new(id.to_owned()).unwrap(),
        url: ParsedUrl::parse(url).unwrap(),
        expiration_time: ExpirationTime::new_at(expiration_time, now).unwrap(),
    }
}

#[test]
fn test_retrieve_url_non_existent() {
    let repo = MemoryUrlRepository::new();
    let result = repo.retrieve_url("nonexistent").unwrap();
    assert!(result.is_none());
}

#[test]
fn test_retrieve_url_expired() {
    let mut repo = MemoryUrlRepository::new();
    repo.put_row(new_row("expired", "https://example.com", -SECOND_NANOS));
    let result = repo.retrieve_url("expired").unwrap();
    assert!(result.is_none());
}

#[test]
fn test_retrieve_url_nonexpired() {
    let model = new_row("nonexpired", "https://example.com", DAY_NANOS);
    let expected = ShortUrl::from_row_at(model.clone(), now_nanos()).unwrap();
    let mut repo = MemoryUrlRepository::new();
    repo.put_row(model);
    let result = repo.retrieve_url("nonexpired").unwrap();
    assert_eq!(result, Some(expected));
}

#[test]
fn test_save_url_newly_created() {
    let model = new_row("valid123", "https://example.com", DAY_NANOS);
    let short_url = ShortUrl::from_row_at(model, now_nanos()).unwrap();
    let mut repo = MemoryUrlRepository::new();
    let actual = repo.save_url(short_url.clone()).unwrap();
    assert_eq!(actual, short_url);
}

#[test]
fn test_save_url_conflict_nonexpired() {
    let model = new_row("valid123", "https://example.com", DAY_NANOS);
    let short_url = ShortUrl::from_row_at(model.clone(), now_nanos()).unwrap();
    let mut repo = MemoryUrlRepository::new();
    repo.put_row(model);
    let result = repo.save_url(short_url.clone());
    assert!(matches!(
        result,
        Err(SaveUrlError::ItemAlreadyExists(existing)) if existing == short_url
    ));
}

#[test]
fn test_save_url_conflict_expired() {
    let conflict = new_row("valid123", "https://gsconrad.com", -SECOND_NANOS);
    let model = new_row("valid123", "https://example.com", DAY_NANOS);
    let mut repo = MemoryUrlRepository::new();
    repo.put_row(conflict);
    let short_url = ShortUrl::from_row_at(model, now_nanos()).unwrap();
    let actual = repo.save_url(short_url.clone()).unwrap();
    assert_eq!(actual, short_url);
}

#[test]
fn save_twice_hands_back_the_first_and_keeps_the_row() {
    let now: i128 = 1_700_000_000_000_000_000;
    let x = short_url_at("abc123xy", "https://example.com", now + DAY_NANOS, now);
    let mut repo = MemoryUrlRepository::new();
    assert_eq!(repo.save_url_at(x.clone(), now).unwrap(), x);
    let stored = repo.row("abc123xy").unwrap();
    let second = repo.save_url_at(x.clone(), now + SECOND_NANOS);
    assert!(matches!(second, Err(SaveUrlError::ItemAlreadyExists(existing)) if existing == x));
    assert_eq!(repo.row("abc123xy").unwrap(), stored);
}

#[test]
fn save_replaces_an_expired_row_entirely() {
    let now: i128 = 1_700_000_000_000_000_000;
    let mut repo = MemoryUrlRepository::new();
    repo.put_row(UrlRow {
        id: "abc123xy".to_string(),
        long_url: "https://old.example.org/".to_string(),
        expiration_time: now - 1,
    });
    let x = short_url_at("abc123xy", "https://example.com", now + DAY_NANOS, now);
    assert_eq!(repo.save_url_at(x.clone(), now).unwrap(), x);
    assert_eq!(repo.row("abc123xy").unwrap(), x.to_row());
}

#[test]
fn entry_expiring_now_is_not_found_but_still_holds_its_id() {
    let now: i128 = 1_700_000_000_000_000_000;
    let mut repo = MemoryUrlRepository::new();
    let x = short_url_at("abc123xy", "https://example.com", now, now);
    repo.put_row(x.to_row());
    assert_eq!(repo.retrieve_url_at("abc123xy", now - 1).unwrap(), Some(x.clone()));
    assert_eq!(repo.retrieve_url_at("abc123xy", now).unwrap(), None);
    let y = short_url_at("abc123xy", "https://other.example.com", now + DAY_NANOS, now);
    assert!(matches!(repo.save_url_at(y, now), Err(SaveUrlError::ItemAlreadyExists(e)) if e == x));
}

#[test]
fn unreadable_live_row_is_an_internal_error() {
    let now: i128 = 1_700_000_000_000_000_000;
    let mut repo = MemoryUrlRepository::new();
    repo.put_row(UrlRow {
        id: "abc123xy".to_string(),
        long_url: "not a url".to_string(),
        expiration_time: now + DAY_NANOS,
    });
    assert!(repo.retrieve_url_at("abc123xy", now).is_err());
    let x = short_url_at("abc123xy", "https://example.com", now + DAY_NANOS, now);
    assert!(matches!(repo.save_url_at(x, now), Err(SaveUrlError::Internal(_))));
}

#[test]
fn save_plan_for_each_row_state() {
    let now: i128 = 1_700_000_000_000_000_000;
    assert!(matches!(plan_save(None, now), SavePlan::Insert));
    let expired = UrlRow {
        id: "abc123xy".to_string(),
        long_url: "https://example.com/".to_string(),
        expiration_time: now - 1,
    };
    assert!(matches!(plan_save(Some(expired.clone()), now), SavePlan::ReplaceExpired));
    let live = UrlRow { expiration_time: now + 1, ..expired.clone() };
    assert!(matches!(plan_save(Some(live.clone()), now), SavePlan::Conflict(u) if u.to_row() == live));
    let broken = UrlRow { id: "no".to_string(), ..live };
    assert!(matches!(plan_save(Some(broken), now), SavePlan::Fail(_)));
    assert_eq!(resolve_retrieved(Some(expired), now).unwrap(), None);
    assert_eq!(resolve_retrieved(None, now).unwrap(), None);
}

#[test]
fn put_row_keeps_one_row_per_identifier() {
    let mut repo = MemoryUrlRepository::new();
    let first = UrlRow {
        id: "abc123xy".to_string(),
        long_url: "https://a.example/".to_string(),
        expiration_time: 1,
    };
    let second = UrlRow { long_url: "https://b.example/".to_string(), ..first.clone() };
    repo.put_row(first);
    repo.put_row(second.clone());
    assert_eq!(repo.row("abc123xy"), Some(second));
    assert_eq!(repo.row("other123"), None);
}
