use tumblr_likes::remote::{build_url, next_cursor, Phase, Walker};
use tumblr_likes::run::{needs_download_folders, run_plan, Consumer, Source};
use tumblr_likes::types::{Arguments, Links, LinksNext, QueryParams};

fn args() -> Arguments {
    Arguments {
        api_key: "KEY".to_string(),
        blog_name: "someone".to_string(),
        directory: "downloads".to_string(),
        dump: None,
        restore: None,
        export: None,
        verbose: false,
    }
}

fn links_with(before: Option<&str>) -> Option<Links> {
    Some(Links {
        next: Some(LinksNext {
            query_params: QueryParams {
                limit: Some("20".to_string()),
                before: before.map(|b| b.to_string()),
            },
        }),
    })
}

#[test]
fn count_request_url() {
    assert_eq!(
        build_url(&args(), true, None),
        "https://api.tumblr.com/v2/blog/someone/likes?api_key=KEY&limit=1"
    );
}

#[test]
fn page_request_url_with_cursor() {
    assert_eq!(
        build_url(&args(), false, Some("1500000000".to_string())),
        "https://api.tumblr.com/v2/blog/someone/likes?api_key=KEY&limit=20&before=1500000000"
    );
}

#[test]
fn cursor_absent_in_every_terminal_shape() {
    assert_eq!(next_cursor(&None), None);
    assert_eq!(next_cursor(&Some(Links { next: None })), None);
    assert_eq!(next_cursor(&links_with(None)), None);
    assert_eq!(next_cursor(&links_with(Some("42"))), Some("42".to_string()));
}

#[test]
fn walker_stops_after_page_without_cursor() {
    let a = args();
    let mut w = Walker::new();
    let pages = vec![links_with(Some("3")), links_with(Some("2")), Some(Links { next: None })];
    assert!(w.request(&a).is_some());
    assert!(!w.receive(&None));
    let mut fetched = 0;
    while let Some(_url) = w.request(&a) {
        assert!(w.receive(&pages[fetched]));
        fetched += 1;
    }
    assert_eq!(fetched, 3);
    assert!(w.is_done());
    assert!(matches!(w.phase, Phase::Done));
}

#[test]
fn walker_requests_count_then_full_pages() {
    // 21 likes, 20 per page: the count-only request, then two full pages.
    let a = args();
    let mut w = Walker::new();
    let mut urls = Vec::new();
    let responses = vec![links_with(Some("9")), links_with(Some("5")), None];
    let mut i = 0;
    while let Some(url) = w.request(&a) {
        urls.push(url);
        w.receive(&responses[i]);
        i += 1;
    }
    assert_eq!(urls.len(), 3);
    assert!(urls[0].ends_with("&limit=1"));
    assert!(urls[1].ends_with("&limit=20"));
    assert!(urls[2].ends_with("&limit=20&before=5"));
    let full = urls.iter().filter(|u| u.contains("&limit=20")).count();
    assert_eq!(full, 2);
}

#[test]
fn walker_first_page_has_no_cursor() {
    let a = args();
    let mut w = Walker::new();
    w.receive(&links_with(Some("7")));
    assert_eq!(
        w.request(&a),
        Some("https://api.tumblr.com/v2/blog/someone/likes?api_key=KEY&limit=20".to_string())
    );
}

#[test]
fn run_plans() {
    let mut a = args();
    let p = run_plan(&a);
    assert_eq!(p.source, Source::Fetch);
    assert_eq!(p.consumer, Consumer::Download);
    assert!(needs_download_folders(p));
    a.dump = Some("d.json".to_string());
    a.export = Some("e.html".to_string());
    assert_eq!(run_plan(&a).consumer, Consumer::Dump);
    a.dump = None;
    assert_eq!(run_plan(&a).consumer, Consumer::Export);
    assert!(!needs_download_folders(run_plan(&a)));
    a.restore = Some("d.json".to_string());
    a.export = None;
    let p = run_plan(&a);
    assert_eq!(p.source, Source::Restore);
    assert_eq!(p.consumer, Consumer::Download);
}

#[test]
fn walker_single_terminal_page() {
    let a = args();
    let mut w = Walker::new();
    w.receive(&links_with(Some("1")));
    assert!(w.request(&a).is_some());
    assert!(w.receive(&links_with(None)));
    assert!(w.is_done());
    assert_eq!(w.request(&a), None);
    assert!(!w.receive(&links_with(Some("5"))));
    assert_eq!(w.request(&a), None);
}
