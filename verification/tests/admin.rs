use background_worker::admin::render_readmes::cutoff_of;
use background_worker::admin::render_readmes::is_worth_uploading;
use background_worker::admin::render_readmes::manifest_path;
use background_worker::admin::render_readmes::package_name;
use background_worker::admin::render_readmes::page_bounds;
use background_worker::admin::render_readmes::readme_path;
use background_worker::admin::render_readmes::total_pages;
use background_worker::admin::render_readmes::OlderThan;
use background_worker::admin::render_readmes::Opts;
use background_worker::admin::render_readmes::OptsError;
use background_worker::admin::render_readmes::ReadmeSetting;
use background_worker::admin::render_readmes::DEFAULT_PAGE_SIZE;
use background_worker::admin::render_readmes::DEFAULT_README;
use background_worker::admin::render_readmes::OLDER_THAN_FORMAT;
use background_worker::admin::render_readmes::USER_AGENT;
use background_worker::controllers::docs::rebuild_path;
use background_worker::controllers::docs::rebuild_request;
use background_worker::controllers::docs::RebuildError;
use background_worker::controllers::docs::NOT_CONFIGURED;
use background_worker::controllers::trustpub::ExchangeRequest;
use background_worker::controllers::trustpub::ExchangeResponse;

const START: i64 = 1_700_000_000;

fn opts(older_than: Option<&str>) -> Opts {
    Opts { page_size: 25, older_than: older_than.map(|s| s.to_string()), crate_name: None }
}

#[test]
fn default_options() {
    let opts = Opts::new();
    assert_eq!(opts.page_size, 25);
    assert_eq!(DEFAULT_PAGE_SIZE, 25);
    assert_eq!(opts.older_than, None);
    assert_eq!(opts.crate_name, None);
    assert_eq!(USER_AGENT, "crates-admin");
    assert_eq!(OLDER_THAN_FORMAT, "%F %T");
}

#[test]
fn cutoff_defaults_to_the_start_of_the_run() {
    assert_eq!(opts(None).older_than(), OlderThan::Absent);
    assert_eq!(opts(None).cutoff(START), Ok(START));
}

#[test]
fn cutoff_from_a_date_and_time() {
    let given = opts(Some("2020-01-02 03:04:05"));
    assert_eq!(given.older_than(), OlderThan::Instant(1_577_934_245));
    assert_eq!(given.cutoff(START), Ok(1_577_934_245));
    assert_eq!(opts(Some("1970-01-01 00:00:00")).cutoff(START), Ok(0));
    assert_eq!(opts(Some("1969-12-31 23:59:59")).cutoff(START), Ok(-1));
}

#[test]
fn cutoff_refuses_what_is_not_a_date_and_time() {
    for text in ["", "yesterday", "2020-01-02", "2020-13-02 03:04:05", "2020-01-02 03:04:05 trailing", "2020-01-02T03:04:05"] {
        let given = opts(Some(text));
        assert_eq!(given.older_than(), OlderThan::Unparseable, "{text}");
        assert_eq!(given.cutoff(START), Err(OptsError::InvalidOlderThan), "{text}");
    }
}

#[test]
fn cutoff_of_each_reading() {
    assert_eq!(cutoff_of(OlderThan::Absent, 7), Ok(7));
    assert_eq!(cutoff_of(OlderThan::Instant(-3), 7), Ok(-3));
    assert_eq!(cutoff_of(OlderThan::Unparseable, 7), Err(OptsError::InvalidOlderThan));
}

#[test]
fn page_counts() {
    assert_eq!(total_pages(0, 25), 0);
    assert_eq!(total_pages(1, 25), 1);
    assert_eq!(total_pages(25, 25), 1);
    assert_eq!(total_pages(26, 25), 2);
    assert_eq!(total_pages(100, 25), 4);
    assert_eq!(total_pages(101, 25), 5);
    assert_eq!(total_pages(7, 1), 7);
    assert_eq!(total_pages(usize::MAX, 1), usize::MAX);
    assert_eq!(total_pages(usize::MAX, usize::MAX), 1);
    assert_eq!(total_pages(usize::MAX, 2), usize::MAX / 2 + 1);
}

#[test]
fn pages_cover_all_versions() {
    for (total, page_size) in [(0usize, 3usize), (1, 3), (3, 3), (10, 3), (10, 1), (10, 25)] {
        let pages = total_pages(total, page_size);
        assert_eq!(pages, total.div_ceil(page_size));
        let mut next = 0;
        for page in 0..pages {
            let (start, end) = page_bounds(page, page_size, total);
            assert_eq!(start, next);
            assert!(start < end && end - start <= page_size);
            next = end;
        }
        assert_eq!(next, total);
    }
    assert_eq!(page_bounds(3, 3, 10), (9, 10));
    assert_eq!(page_bounds(1, 25, 60), (25, 50));
    assert_eq!(page_bounds(usize::MAX - 1, 1, usize::MAX), (usize::MAX - 1, usize::MAX));
}

#[test]
fn readme_named_by_the_manifest() {
    assert_eq!(readme_path(&ReadmeSetting::Path("README.md".to_string())).as_deref(), Some("README.md"));
    assert_eq!(
        readme_path(&ReadmeSetting::Path("docs/README.md".to_string())).as_deref(),
        Some("docs/README.md")
    );
}

#[test]
fn implicit_readme() {
    assert_eq!(DEFAULT_README, "README.md");
    assert_eq!(readme_path(&ReadmeSetting::Unset).as_deref(), Some("README.md"));
    assert_eq!(readme_path(&ReadmeSetting::Flag(true)).as_deref(), Some("README.md"));
}

#[test]
fn readme_switched_off() {
    assert_eq!(readme_path(&ReadmeSetting::Flag(false)), None);
}

#[test]
fn names_inside_the_archive() {
    assert_eq!(package_name("foo", "0.0.1"), "foo-0.0.1");
    assert_eq!(package_name("", ""), "-");
    assert_eq!(manifest_path("foo-0.0.1"), "foo-0.0.1/Cargo.toml");
    assert_eq!(manifest_path(&package_name("foo_whitelist", "1.1.0")), "foo_whitelist-1.1.0/Cargo.toml");
}

#[test]
fn empty_readme_is_not_uploaded() {
    assert!(!is_worth_uploading(""));
    assert!(is_worth_uploading(" "));
    assert!(is_worth_uploading("<p>readme</p>"));
}

#[test]
fn rebuild_path_of_a_version() {
    assert_eq!(rebuild_path("serde", "1.0.0"), "/crate/serde/1.0.0/rebuild");
    assert_eq!(rebuild_path("", ""), "/crate///rebuild");
}

#[test]
fn rebuild_needs_a_token() {
    assert_eq!(NOT_CONFIGURED, "docs.rs integration is not configured");
    assert_eq!(rebuild_request(&None, "serde", "1.0.0").err(), Some(RebuildError::NotConfigured));
    let request = rebuild_request(&Some("secret".to_string()), "serde", "1.0.0").unwrap();
    assert_eq!(request.path, "/crate/serde/1.0.0/rebuild");
    assert_eq!(request.bearer_token, "secret");
}

#[test]
fn exchange_bodies() {
    assert_eq!(ExchangeRequest::new("header.payload.signature").jwt, "header.payload.signature");
    assert_eq!(ExchangeResponse::new("cio_tp_abc").token, "cio_tp_abc");
}
