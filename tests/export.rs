use tumblr_likes::export::{
    export_path, export_sources, inject_content, render_body, render_card, render_page, render_tags,
    render_trail, render_trail_around, substitute_sources, Embed, CARD_BODY, CARD_CLOSE, CARD_DATE,
    CARD_NOTES, CARD_OPEN, CARD_TAGS, PAGE_CLOSE, PAGE_OPEN,
};
use tumblr_likes::types::{BlogItem, Photo, Photos, Post, PostItem, PostKind, TrailItem};

fn item(name: &str, id: &str, content: &str) -> TrailItem {
    TrailItem {
        blog: BlogItem { name: name.to_string(), active: true },
        post: PostItem { id: id.to_string() },
        content_raw: content.to_string(),
    }
}

fn post(kind: PostKind) -> Post {
    Post {
        blog_name: "artist".to_string(),
        id: 1,
        post_url: "https://artist.tumblr.com/post/1".to_string(),
        kind,
        timestamp: 0,
        date: "2020-01-01".to_string(),
        format: "html".to_string(),
        reblog_key: "k".to_string(),
        note_count: 0,
        tags: vec![],
        body: None,
        trail: None,
        photos: None,
        video_url: None,
    }
}

fn wrapper(name: &str, id: &str) -> String {
    format!("<p><a href='https://{}.tumblr.com/post/{}/'>{}</a>:</p><blockquote>", name, id, name)
}

#[test]
fn trail_nests_last_contributor_outermost() {
    let trail = vec![item("root", "1", "R"), item("middle", "2", "M"), item("leaf", "3", "L")];
    let expected = format!(
        "{}{}{}{{{{content}}}}R</blockquote>M</blockquote>L</blockquote>",
        wrapper("leaf", "3"),
        wrapper("middle", "2"),
        wrapper("root", "1")
    );
    assert_eq!(render_trail(trail), expected);
}

#[test]
fn empty_trail_is_the_slot() {
    assert_eq!(render_trail(vec![]), "{{content}}");
    assert_eq!(render_trail_around(&vec![], "media"), "media");
}

#[test]
fn content_slot_text_is_not_expanded() {
    let trail = vec![item("a", "1", "{{content}}")];
    assert_eq!(
        render_trail_around(&trail, "X"),
        format!("{}X{{{{content}}}}</blockquote>", wrapper("a", "1"))
    );
}

#[test]
fn injected_markup_and_placeholders() {
    let p = Some("export/v.mp4".to_string());
    assert_eq!(
        inject_content(&p, "Could not fetch video", Embed::Video),
        "<p><figure><video controls='controls' autoplay='autoplay' muted='muted'><source src='export/v.mp4'></video></figure></p>"
    );
    assert_eq!(
        inject_content(&Some("export/a.jpg".to_string()), "x", Embed::Image),
        "<figure><img src='export/a.jpg' /></figure>"
    );
    assert_eq!(inject_content(&p, "x", Embed::Plain), "export/v.mp4");
    assert_eq!(inject_content(&None, "Could not fetch photo", Embed::Image), "Could not fetch photo");
}

#[test]
fn text_body_sources_replaced() {
    let mut p = post(PostKind::Text);
    p.body = Some(
        "<p><img src=\"https://m/a/one.png\"> and <img src=\"https://m/b/two.gif\"> and https://m/a/one.png</p>"
            .to_string(),
    );
    let sources = export_sources(&p);
    assert_eq!(sources, vec!["https://m/a/one.png".to_string(), "https://m/b/two.gif".to_string()]);
    assert_eq!(export_path(&sources[0]), "export/one.png");
    let body = render_body(&p, &vec![Some("export/one.png".to_string()), None]);
    assert_eq!(
        body,
        "<p><img src=\"export/one.png\"> and <img src=\"Could not fetch object\"> and export/one.png</p>"
    );
}

#[test]
fn text_without_sources_or_body() {
    let mut p = post(PostKind::Text);
    assert!(export_sources(&p).is_empty());
    assert_eq!(render_body(&p, &vec![]), "");
    p.body = Some("<p>src=\"\" plain</p>".to_string());
    assert!(export_sources(&p).is_empty());
    assert_eq!(render_body(&p, &vec![]), "<p>src=\"\" plain</p>");
}

#[test]
fn substitution_follows_url_order() {
    let urls = vec!["a".to_string(), "b".to_string()];
    let fetched = vec![Some("b".to_string()), Some("c".to_string())];
    assert_eq!(substitute_sources("ab", &urls, &fetched), "cc");
    let urls = vec!["u1".to_string(), "u2".to_string()];
    assert_eq!(
        substitute_sources("[u1][u2]", &urls, &vec![]),
        "[Could not fetch object][Could not fetch object]"
    );
}

#[test]
fn photo_body_with_trail() {
    let mut p = post(PostKind::Photo);
    p.trail = Some(vec![item("root", "9", "caption")]);
    p.photos = Some(vec![
        Photos { caption: String::new(), original_size: Photo { url: "https://x/1.jpg".to_string(), width: 1, height: 1 } },
        Photos { caption: String::new(), original_size: Photo { url: "https://x/2.jpg".to_string(), width: 1, height: 1 } },
    ]);
    assert_eq!(export_sources(&p), vec!["https://x/1.jpg".to_string(), "https://x/2.jpg".to_string()]);
    let body = render_body(&p, &vec![None, Some("export/2.jpg".to_string())]);
    assert_eq!(
        body,
        format!(
            "{}Could not fetch photo<figure><img src='export/2.jpg' /></figure>caption</blockquote>",
            wrapper("root", "9")
        )
    );
}

#[test]
fn media_posts_without_trail_have_empty_body() {
    let mut p = post(PostKind::Video);
    p.video_url = Some("https://v/a.mp4".to_string());
    assert!(export_sources(&p).is_empty());
    assert_eq!(render_body(&p, &vec![]), "");
    p.trail = Some(vec![]);
    assert_eq!(export_sources(&p), vec!["https://v/a.mp4".to_string()]);
    assert_eq!(render_body(&p, &vec![None]), "Could not fetch video");
}

#[test]
fn unknown_kind_body_is_empty() {
    let mut p = post(PostKind::from_name("answer"));
    p.body = Some("<img src=\"https://x/a.png\">".to_string());
    p.trail = Some(vec![item("a", "1", "c")]);
    assert!(export_sources(&p).is_empty());
    assert_eq!(render_body(&p, &vec![]), "");
}

#[test]
fn tag_list() {
    assert_eq!(render_tags(&vec![]), "");
    assert_eq!(
        render_tags(&vec!["art".to_string(), "art".to_string(), "cats".to_string()]),
        "<div class='tags'><span class='tag'>art</span><span class='tag'>art</span><span class='tag'>cats</span></div>"
    );
}

#[test]
fn card_layout() {
    let mut p = post(PostKind::Text);
    p.body = Some("hello".to_string());
    p.note_count = 1234;
    p.tags = vec!["t".to_string()];
    let card = render_card(&p, &vec![]);
    let expected = format!(
        "{}<a href='https://artist.tumblr.com/post/1'>artist</a>{}hello{}{}{}2020-01-01{}1234{}",
        CARD_OPEN,
        CARD_BODY,
        CARD_TAGS,
        "<div class='tags'><span class='tag'>t</span></div>",
        CARD_DATE,
        CARD_NOTES,
        CARD_CLOSE
    );
    assert_eq!(card, expected);
    assert!(card.contains("1234 notes"));
}

#[test]
fn page_holds_cards_in_order() {
    let page = render_page(&vec!["A".to_string(), "B".to_string()]);
    assert_eq!(page, format!("{}AB{}", PAGE_OPEN, PAGE_CLOSE));
    assert!(page.starts_with("<!DOCTYPE html>"));
    assert_eq!(render_page(&vec![]), format!("{}{}", PAGE_OPEN, PAGE_CLOSE));
}
