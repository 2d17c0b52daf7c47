use tumblr_likes::classify::{media_folder, media_urls};
use tumblr_likes::download::{plan_download, DownloadPlan};
use tumblr_likes::text::{contains_exec, decimal_string, last_segment_exec, replace_all};
use tumblr_likes::types::{Photo, Photos, Post, PostKind};

fn post(kind: PostKind) -> Post {
    Post {
        blog_name: "artist".to_string(),
        id: 1,
        post_url: "https://artist.tumblr.com/post/1".to_string(),
        kind,
        timestamp: 0,
        date: "2020-01-01 00:00:00 GMT".to_string(),
        format: "html".to_string(),
        reblog_key: "k".to_string(),
        note_count: 0,
        tags: vec![],
        body: None,
        trail: None,
        photos: None,
        video_url: None,
    }
}

fn photo(url: &str) -> Photos {
    Photos {
        caption: String::new(),
        original_size: Photo { url: url.to_string(), width: 10, height: 20 },
    }
}

#[test]
fn photo_post_urls_in_order() {
    let mut p = post(PostKind::Photo);
    p.photos = Some(vec![photo("https://x/a.jpg"), photo("https://x/b.jpg")]);
    assert_eq!(media_urls(&p), vec!["https://x/a.jpg".to_string(), "https://x/b.jpg".to_string()]);
    assert_eq!(media_folder(&p.kind), "pics");
}

#[test]
fn video_post_url() {
    let mut p = post(PostKind::Video);
    assert!(media_urls(&p).is_empty());
    p.video_url = Some("https://v/clip.mp4".to_string());
    assert_eq!(media_urls(&p), vec!["https://v/clip.mp4".to_string()]);
    assert_eq!(media_folder(&p.kind), "videos");
}

#[test]
fn unknown_kind_has_no_media() {
    let mut p = post(PostKind::from_name("quote"));
    p.video_url = Some("https://v/clip.mp4".to_string());
    p.photos = Some(vec![photo("https://x/a.jpg")]);
    assert!(media_urls(&p).is_empty());
    let group: Vec<Option<String>> = media_urls(&p).into_iter().map(Some).collect();
    assert!(group.is_empty());
    assert!(media_urls(&post(PostKind::Text)).is_empty());
}

#[test]
fn kind_names() {
    assert!(matches!(PostKind::from_name("photo"), PostKind::Photo));
    assert!(matches!(PostKind::from_name("video"), PostKind::Video));
    assert!(matches!(PostKind::from_name("text"), PostKind::Text));
    assert_eq!(PostKind::from_name("chat").name(), "chat");
    assert_eq!(PostKind::Video.name(), "video");
}

#[test]
fn transfer_when_folder_lacks_file() {
    let entries = vec!["1 - other.jpg".to_string()];
    match plan_download("downloads", "pics", "https://x/y/img1.jpg", &entries) {
        DownloadPlan::Transfer(p) => assert_eq!(p, "downloads/pics/img1.jpg"),
        DownloadPlan::Existing(_) => panic!("expected a transfer"),
    }
}

#[test]
fn existing_file_found_by_substring() {
    let entries = vec!["a.png".to_string(), "12 - img1.jpg".to_string(), "img1.jpg.bak".to_string()];
    match plan_download("downloads", "pics", "https://x/y/img1.jpg", &entries) {
        DownloadPlan::Existing(p) => assert_eq!(p, "downloads/pics/12 - img1.jpg"),
        DownloadPlan::Transfer(_) => panic!("expected a local copy"),
    }
}

#[test]
fn second_download_reuses_first_path() {
    let mut entries = vec!["a.png".to_string()];
    let first = plan_download("out", "videos", "https://v/clip.mp4", &entries);
    let path = match first {
        DownloadPlan::Transfer(p) => p,
        DownloadPlan::Existing(_) => panic!("expected a transfer"),
    };
    entries.push("clip.mp4".to_string());
    match plan_download("out", "videos", "https://v/clip.mp4", &entries) {
        DownloadPlan::Existing(p) => assert_eq!(p, path),
        DownloadPlan::Transfer(_) => panic!("second call must not transfer"),
    }
}

#[test]
fn substring_dedup_collides_on_shared_prefix() {
    let entries = vec!["img10.jpg".to_string()];
    assert!(matches!(
        plan_download("d", "pics", "https://x/img1.jpg", &entries),
        DownloadPlan::Transfer(_)
    ));
    let entries = vec!["img1.jpg".to_string()];
    assert!(matches!(
        plan_download("d", "pics", "https://x/img1.jpg.old/img1.jpg", &entries),
        DownloadPlan::Existing(_)
    ));
}

#[test]
fn text_helpers() {
    assert_eq!(last_segment_exec("https://a/b/c.png"), "c.png");
    assert_eq!(last_segment_exec("plain"), "plain");
    assert_eq!(last_segment_exec("ends/"), "");
    assert!(contains_exec("12 - x.jpg", "x.jpg"));
    assert!(!contains_exec("x.jp", "x.jpg"));
    assert!(contains_exec("abc", ""));
    assert_eq!(decimal_string(0), "0");
    assert_eq!(decimal_string(21), "21");
    assert_eq!(decimal_string(18446744073709551615), "18446744073709551615");
    assert_eq!(replace_all("aXbXXc", "X", "yy"), "ayybyyyyc");
    assert_eq!(replace_all("aaa", "aa", "b"), "ba");
    assert_eq!(replace_all("abc", "", "z"), "abc");
}
