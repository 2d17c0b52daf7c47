//! The HTML export: one card per post, reblog trails folded into nested
//! quotes, and remote media replaced by their local copies.

use vstd::prelude::*;
use crate::classify::{photo_url_list, photo_urls};
use crate::remote::opt_view;
use crate::text::{decimal, decimal_string, last_segment, last_segment_exec, replace_all, replaced, views};
use crate::types::{Post, PostKind, TrailItem};

verus! {

/// Slot that [`render_trail`] leaves for the post's own media.
pub const CONTENT_SLOT: &'static str = "{{content}}";
/// Folder that export downloads go to.
pub const EXPORT_FOLDER: &'static str = "export";
/// Placeholder for an inline object that could not be fetched.
pub const OBJECT_PLACEHOLDER: &'static str = "Could not fetch object";
/// Placeholder for a video that could not be fetched.
pub const VIDEO_PLACEHOLDER: &'static str = "Could not fetch video";
/// Placeholder for a photo that could not be fetched.
pub const PHOTO_PLACEHOLDER: &'static str = "Could not fetch photo";

/// Card template up to the title.
pub const CARD_OPEN: &'static str = "<div class='card'>\n    <div class='card-header'>\n        <div class='card-header-title'>\n            ";
/// Card template between the title and the body.
pub const CARD_BODY: &'static str = "\n        </div>\n    </div>\n\n    <div class='card-content'>\n        <div class='content'>\n            ";
/// Card template between the body and the tag list.
pub const CARD_TAGS: &'static str = "\n        </div>\n        ";
/// Card template between the tag list and the date.
pub const CARD_DATE: &'static str = "\n        <div class='tags'>\n            <span class='tag'>";
/// Card template between the date and the note count.
pub const CARD_NOTES: &'static str = "</span>\n            <span class='tag'>";
/// Card template after the note count.
pub const CARD_CLOSE: &'static str = " notes</span>\n        </div>\n    </div>\n</div>\n";
/// Export document up to the cards.
pub const PAGE_OPEN: &'static str = "<!DOCTYPE html>\n<html lang='en'>\n<head>\n    <meta charset='UTF-8'>\n    <meta name='viewport' content='width=device-width, initial-scale=1'>\n    <title>Tumblr Likes</title>\n    <link rel='stylesheet' href='https://cdnjs.cloudflare.com/ajax/libs/bulma/0.7.2/css/bulma.min.css'>\n    <style>\n        .container {\n            max-width: 625px;\n        }\n\n        .card {\n            margin-top: 20px;\n            margin-bottom: 20px;\n        }\n    </style>\n</head>\n<body>\n    <div class='container'>\n        ";
/// Export document after the cards.
pub const PAGE_CLOSE: &'static str = "\n    </div>\n</body>\n</html>\n";
/// Tag list up to the first tag.
pub const TAGS_OPEN: &'static str = "<div class='tags'><span class='tag'>";
/// Between two tags of a tag list.
pub const TAGS_SEP: &'static str = "</span><span class='tag'>";
/// Tag list after the last tag.
pub const TAGS_CLOSE: &'static str = "</span></div>";

/// URL of a trail contributor's own post.
pub open spec fn contributor_url(item: TrailItem) -> Seq<char> {
    "https://"@ + item.blog.name@ + ".tumblr.com/post/"@ + item.post.id@ + "/"@
}

/// What stands before the slot of one trail wrapper: the contributor's name,
/// linked to their post, and the opening of the quote.
pub open spec fn wrapper_open(item: TrailItem) -> Seq<char> {
    "<p><a href='"@ + contributor_url(item) + "'>"@ + item.blog.name@ + "</a>:</p>"@
        + "<blockquote>"@
}

/// What stands after the slot of one trail wrapper: the contributor's content
/// and the end of the quote.
pub open spec fn wrapper_close(item: TrailItem) -> Seq<char> {
    item.content_raw@ + "</blockquote>"@
}

/// Openings of the wrappers of the last `k` items of `t`, outermost first.
pub open spec fn opens(t: Seq<TrailItem>, k: nat) -> Seq<char>
    decreases k,
{
    if k == 0 || k > t.len() {
        Seq::empty()
    } else {
        opens(t, (k - 1) as nat) + wrapper_open(t[t.len() - k])
    }
}

/// Closings of the wrappers of the first `k` items of `t`, innermost first.
pub open spec fn closes(t: Seq<TrailItem>, k: nat) -> Seq<char>
    decreases k,
{
    if k == 0 || k > t.len() {
        Seq::empty()
    } else {
        closes(t, (k - 1) as nat) + wrapper_close(t[k - 1])
    }
}

/// `inner` inside the trail `t` (root first): the last contributor's
/// wrapper is outermost, the root's innermost, right around `inner`.
pub open spec fn nest(t: Seq<TrailItem>, inner: Seq<char>) -> Seq<char> {
    opens(t, t.len()) + inner + closes(t, t.len())
}

proof fn lemma_opens_peel(t: Seq<TrailItem>, k: nat)
    requires
        1 <= k <= t.len(),
    ensures
        opens(t, k) == wrapper_open(t.last()) + opens(t.drop_last(), (k - 1) as nat),
    decreases k,
{
    let d = t.drop_last();
    if k == 1 {
        assert(opens(t, 0) =~= Seq::<char>::empty());
        assert(opens(d, 0) =~= Seq::<char>::empty());
        assert(opens(t, 1) =~= wrapper_open(t.last()) + opens(d, 0));
    } else {
        lemma_opens_peel(t, (k - 1) as nat);
        assert(d[d.len() - (k - 1)] == t[t.len() - k]);
        assert(opens(t, k) =~= wrapper_open(t.last()) + opens(d, (k - 1) as nat));
    }
}

proof fn lemma_closes_prefix(t: Seq<TrailItem>, k: nat)
    requires
        k < t.len(),
    ensures
        closes(t.drop_last(), k) == closes(t, k),
    decreases k,
{
    if k > 0 {
        lemma_closes_prefix(t, (k - 1) as nat);
        assert(t.drop_last()[k - 1] == t[k - 1]);
    }
}

/// A trail wraps the innermost content one item at a time: the last item's
/// wrapper stands outermost around the rendering of the rest of the trail.
pub proof fn lemma_trail_nesting(t: Seq<TrailItem>, inner: Seq<char>)
    requires
        t.len() > 0,
    ensures
        nest(t, inner) == wrapper_open(t.last()) + nest(t.drop_last(), inner) + wrapper_close(t.last()),
{
    let d = t.drop_last();
    lemma_opens_peel(t, t.len());
    lemma_closes_prefix(t, d.len());
    assert(closes(t, t.len()) == closes(t, d.len()) + wrapper_close(t[t.len() - 1]));
    assert(nest(t, inner) =~= wrapper_open(t.last()) + nest(d, inner) + wrapper_close(t.last()));
}

/// An empty trail leaves the content bare.
pub proof fn lemma_empty_trail(inner: Seq<char>)
    ensures
        nest(Seq::empty(), inner) == inner,
{
    assert(nest(Seq::empty(), inner) =~= inner);
}

fn push_wrapper_open(out: &mut String, item: &TrailItem)
    ensures
        final(out)@ == old(out)@ + wrapper_open(*item),
{
    out.append("<p><a href='");
    out.append("https://");
    out.append(item.blog.name.as_str());
    out.append(".tumblr.com/post/");
    out.append(item.post.id.as_str());
    out.append("/");
    out.append("'>");
    out.append(item.blog.name.as_str());
    out.append("</a>:</p>");
    out.append("<blockquote>");
    proof {
        assert(final(out)@ =~= old(out)@ + wrapper_open(*item));
    }
}

/// `inner` wrapped in the trail `t`, given root first.
pub fn render_trail_around(t: &Vec<TrailItem>, inner: &str) -> (r: String)
    ensures
        r@ == nest(t@, inner@),
{
    let n = t.len();
    let mut out = String::new();
    let mut k: usize = 0;
    while k < n
        invariant
            n == t@.len(),
            k <= n,
            out@ == opens(t@, k as nat),
        decreases n - k,
    {
        push_wrapper_open(&mut out, &t[n - 1 - k]);
        k = k + 1;
    }
    out.append(inner);
    let ghost mid = out@;
    let mut i: usize = 0;
    while i < n
        invariant
            n == t@.len(),
            i <= n,
            out@ == mid + closes(t@, i as nat),
        decreases n - i,
    {
        out.append(t[i].content_raw.as_str());
        out.append("</blockquote>");
        i = i + 1;
        proof {
            assert(out@ =~= mid + closes(t@, i as nat));
        }
    }
    proof {
        assert(out@ =~= nest(t@, inner@));
    }
    out
}

/// The trail rendered around the slot `{{content}}`, where the post's own
/// media go.
pub fn render_trail(trail: Vec<TrailItem>) -> (r: String)
    ensures
        r@ == nest(trail@, CONTENT_SLOT@),
{
    render_trail_around(&trail, CONTENT_SLOT)
}

/// How a fetched object is embedded in a card.
#[derive(Clone, Copy, Debug, PartialEq, Eq)]
pub enum Embed {
    /// The local path alone, as an attribute value.
    Plain,
    /// A video player.
    Video,
    /// An image.
    Image,
}

/// The markup that embeds the local file `src`.
pub open spec fn embed_html(e: Embed, src: Seq<char>) -> Seq<char> {
    match e {
        Embed::Plain => src,
        Embed::Video => "<p><figure><video controls='controls' autoplay='autoplay' muted='muted'><source src='"@
            + src + "'></video></figure></p>"@,
        Embed::Image => "<figure><img src='"@ + src + "' /></figure>"@,
    }
}

/// The markup for a fetch result: the embedded local copy, or the
/// placeholder where nothing was fetched.
pub open spec fn injected(fetched: Option<Seq<char>>, error_text: Seq<char>, e: Embed) -> Seq<char> {
    match fetched {
        Some(p) => embed_html(e, p),
        None => error_text,
    }
}

/// The `i`-th fetch result, none where the results run short.
pub open spec fn fetched_at(fetched: Seq<Option<String>>, i: int) -> Option<Seq<char>> {
    if 0 <= i < fetched.len() {
        opt_view(fetched[i])
    } else {
        None
    }
}

/// The markup for a fetch result: the embedded local copy, or `error_text`
/// where nothing was fetched.
pub fn inject_content(fetched: &Option<String>, error_text: &str, e: Embed) -> (r: String)
    ensures
        r@ == injected(opt_view(*fetched), error_text@, e),
{
    match fetched {
        Some(p) => {
            match e {
                Embed::Plain => p.clone(),
                Embed::Video => {
                    let mut r = String::from_str("<p><figure><video controls='controls' autoplay='autoplay' muted='muted'><source src='");
                    r.append(p.as_str());
                    r.append("'></video></figure></p>");
                    r
                },
                Embed::Image => {
                    let mut r = String::from_str("<figure><img src='");
                    r.append(p.as_str());
                    r.append("' /></figure>");
                    r
                },
            }
        },
        None => String::from_str(error_text),
    }
}

fn injected_at(fetched: &Vec<Option<String>>, i: usize, error_text: &str, e: Embed) -> (r: String)
    ensures
        r@ == injected(fetched_at(fetched@, i as int), error_text@, e),
{
    if i < fetched.len() {
        inject_content(&fetched[i], error_text, e)
    } else {
        String::from_str(error_text)
    }
}

/// The values of the `src="..."` attributes of an HTML fragment, in order.
pub uninterp spec fn src_attribute_urls(html: Seq<char>) -> Seq<Seq<char>>;

/// Relies on `regex::Regex::captures_iter` with the pattern `src="([^"]+)`:
/// the first group of each successive match, in order of the matches.
#[verifier::external_body]
fn src_urls(html: &str) -> (r: Vec<String>)
    ensures
        views(r@) == src_attribute_urls(html@),
{
    let re = regex::Regex::new(r#"src="([^"]+)"#).unwrap();
    re.captures_iter(html).map(|c| c[1].to_string()).collect()
}

/// `body` after the first `k` of `urls` were each replaced by the markup for
/// their fetch result.
pub open spec fn substituted(body: Seq<char>, urls: Seq<Seq<char>>, fetched: Seq<Option<String>>, k: nat) -> Seq<char>
    decreases k,
{
    if k == 0 || k > urls.len() {
        body
    } else {
        replaced(
            substituted(body, urls, fetched, (k - 1) as nat),
            urls[k - 1],
            injected(fetched_at(fetched, k - 1), OBJECT_PLACEHOLDER@, Embed::Plain),
        )
    }
}

/// `body` with every occurrence of each of `urls`, taken in order, replaced
/// by the local path fetched for it (the `i`-th result of `fetched`), or by
/// the placeholder where nothing was fetched.
pub fn substitute_sources(body: &str, urls: &Vec<String>, fetched: &Vec<Option<String>>) -> (r: String)
    ensures
        r@ == substituted(body@, views(urls@), fetched@, urls@.len()),
{
    let mut content = String::from_str(body);
    let mut i: usize = 0;
    while i < urls.len()
        invariant
            i <= urls@.len(),
            content@ == substituted(body@, views(urls@), fetched@, i as nat),
        decreases urls@.len() - i,
    {
        let local = injected_at(fetched, i, OBJECT_PLACEHOLDER, Embed::Plain);
        assert(views(urls@)[i as int] == urls@[i as int]@);
        content = replace_all(content.as_str(), urls[i].as_str(), local.as_str());
        i = i + 1;
    }
    content
}

/// The images of a photo post, each embedded or replaced by the placeholder,
/// for the first `k` fetch results.
pub open spec fn photo_media(fetched: Seq<Option<String>>, k: nat) -> Seq<char>
    decreases k,
{
    if k == 0 {
        Seq::empty()
    } else {
        photo_media(fetched, (k - 1) as nat)
            + injected(fetched_at(fetched, k - 1), PHOTO_PLACEHOLDER@, Embed::Image)
    }
}

fn photo_media_exec(fetched: &Vec<Option<String>>, n: usize) -> (r: String)
    ensures
        r@ == photo_media(fetched@, n as nat),
{
    let mut out = String::new();
    let mut i: usize = 0;
    while i < n
        invariant
            i <= n,
            out@ == photo_media(fetched@, i as nat),
        decreases n - i,
    {
        let one = injected_at(fetched, i, PHOTO_PLACEHOLDER, Embed::Image);
        out.append(one.as_str());
        i = i + 1;
    }
    out
}

/// The remote objects that the export of a post fetches, in order: the
/// sources named in a text post's body; the video of a video post and the
/// images of a photo post where the post has a trail; nothing else.
pub open spec fn sources_of(p: Post) -> Seq<Seq<char>> {
    match p.kind {
        PostKind::Text => match p.body {
            Some(b) => src_attribute_urls(b@),
            None => Seq::empty(),
        },
        PostKind::Video => match (p.trail, p.video_url) {
            (Some(_), Some(u)) => seq![u@],
            _ => Seq::empty(),
        },
        PostKind::Photo => match (p.trail, p.photos) {
            (Some(_), Some(ps)) => photo_urls(ps@),
            _ => Seq::empty(),
        },
        PostKind::Other(_) => Seq::empty(),
    }
}

/// The body of a post's card, given the fetch result of each of its
/// sources (see [`sources_of`]) in order.
pub open spec fn body_of(p: Post, fetched: Seq<Option<String>>) -> Seq<char> {
    match p.kind {
        PostKind::Text => match p.body {
            Some(b) => substituted(b@, src_attribute_urls(b@), fetched, src_attribute_urls(b@).len()),
            None => Seq::empty(),
        },
        PostKind::Video => match p.trail {
            Some(t) => nest(t@, match p.video_url {
                Some(_) => injected(fetched_at(fetched, 0), VIDEO_PLACEHOLDER@, Embed::Video),
                None => Seq::empty(),
            }),
            None => Seq::empty(),
        },
        PostKind::Photo => match p.trail {
            Some(t) => nest(t@, match p.photos {
                Some(ps) => photo_media(fetched, ps@.len()),
                None => Seq::empty(),
            }),
            None => Seq::empty(),
        },
        PostKind::Other(_) => Seq::empty(),
    }
}

/// The remote objects that the export of `post` fetches, in order.
pub fn export_sources(post: &Post) -> (r: Vec<String>)
    ensures
        views(r@) == sources_of(*post),
{
    match &post.kind {
        PostKind::Text => match &post.body {
            Some(b) => src_urls(b.as_str()),
            None => {
                let r: Vec<String> = Vec::new();
                assert(views(r@) =~= Seq::<Seq<char>>::empty());
                r
            },
        },
        PostKind::Video => match (&post.trail, &post.video_url) {
            (Some(_), Some(u)) => {
                let r: Vec<String> = vec![u.clone()];
                assert(views(r@) =~= seq![u@]);
                r
            },
            _ => {
                let r: Vec<String> = Vec::new();
                assert(views(r@) =~= Seq::<Seq<char>>::empty());
                r
            },
        },
        PostKind::Photo => match (&post.trail, &post.photos) {
            (Some(_), Some(ps)) => photo_url_list(ps),
            _ => {
                let r: Vec<String> = Vec::new();
                assert(views(r@) =~= Seq::<Seq<char>>::empty());
                r
            },
        },
        PostKind::Other(_) => {
            let r: Vec<String> = Vec::new();
            assert(views(r@) =~= Seq::<Seq<char>>::empty());
            r
        },
    }
}

/// Local path, in the export folder, of the remote object at `url`.
pub fn export_path(url: &str) -> (r: String)
    ensures
        r@ == EXPORT_FOLDER@ + "/"@ + last_segment(url@),
{
    let mut r = String::from_str(EXPORT_FOLDER);
    r.append("/");
    let name = last_segment_exec(url);
    r.append(name.as_str());
    r
}

/// The body of `post`'s card, given the fetch result of each of its
/// sources in order (see [`export_sources`]).
pub fn render_body(post: &Post, fetched: &Vec<Option<String>>) -> (r: String)
    ensures
        r@ == body_of(*post, fetched@),
{
    match &post.kind {
        PostKind::Text => match &post.body {
            Some(b) => {
                let urls = src_urls(b.as_str());
                substitute_sources(b.as_str(), &urls, fetched)
            },
            None => String::new(),
        },
        PostKind::Video => match &post.trail {
            Some(t) => {
                let media = match &post.video_url {
                    Some(_) => injected_at(fetched, 0, VIDEO_PLACEHOLDER, Embed::Video),
                    None => String::new(),
                };
                render_trail_around(t, media.as_str())
            },
            None => String::new(),
        },
        PostKind::Photo => match &post.trail {
            Some(t) => {
                let media = match &post.photos {
                    Some(ps) => photo_media_exec(fetched, ps.len()),
                    None => String::new(),
                };
                render_trail_around(t, media.as_str())
            },
            None => String::new(),
        },
        PostKind::Other(_) => String::new(),
    }
}

/// The tags joined by the separator between two tag labels.
pub open spec fn joined_tags(tags: Seq<Seq<char>>) -> Seq<char>
    decreases tags.len(),
{
    if tags.len() == 0 {
        Seq::empty()
    } else if tags.len() == 1 {
        tags[0]
    } else {
        joined_tags(tags.drop_last()) + TAGS_SEP@ + tags.last()
    }
}

/// The tag list of a card: empty where there are no tags.
pub open spec fn tags_html(tags: Seq<Seq<char>>) -> Seq<char> {
    if tags.len() == 0 {
        Seq::empty()
    } else {
        TAGS_OPEN@ + joined_tags(tags) + TAGS_CLOSE@
    }
}

/// The tag list of a card.
pub fn render_tags(tags: &Vec<String>) -> (r: String)
    ensures
        r@ == tags_html(views(tags@)),
{
    let n = tags.len();
    if n == 0 {
        return String::new();
    }
    let ghost ts = views(tags@);
    let mut out = String::from_str(TAGS_OPEN);
    out.append(tags[0].as_str());
    let mut i: usize = 1;
    assert(ts.take(1).drop_last() =~= Seq::<Seq<char>>::empty());
    assert(out@ =~= TAGS_OPEN@ + joined_tags(ts.take(1)));
    while i < n
        invariant
            n == tags@.len(),
            ts == views(tags@),
            1 <= i <= n,
            out@ == TAGS_OPEN@ + joined_tags(ts.take(i as int)),
        decreases n - i,
    {
        out.append(TAGS_SEP);
        out.append(tags[i].as_str());
        i = i + 1;
        proof {
            assert(ts.take(i as int).drop_last() =~= ts.take(i - 1));
            assert(out@ =~= TAGS_OPEN@ + joined_tags(ts.take(i as int)));
        }
    }
    assert(ts.take(n as int) =~= ts);
    out.append(TAGS_CLOSE);
    out
}

/// The card of the post `p` with the body `body`.
pub open spec fn card_html(p: Post, body: Seq<char>) -> Seq<char> {
    CARD_OPEN@ + "<a href='"@ + p.post_url@ + "'>"@ + p.blog_name@ + "</a>"@
        + CARD_BODY@ + body + CARD_TAGS@ + tags_html(views(p.tags@))
        + CARD_DATE@ + p.date@ + CARD_NOTES@ + decimal(p.note_count as nat) + CARD_CLOSE@
}

/// The card of `post`: a header linking to the post under its account's
/// name, the body rendered from the fetch results, the tags, the date and
/// the note count.
pub fn render_card(post: &Post, fetched: &Vec<Option<String>>) -> (r: String)
    ensures
        r@ == card_html(*post, body_of(*post, fetched@)),
{
    let body = render_body(post, fetched);
    let tags = render_tags(&post.tags);
    let notes = decimal_string(post.note_count);
    let mut out = String::from_str(CARD_OPEN);
    out.append("<a href='");
    out.append(post.post_url.as_str());
    out.append("'>");
    out.append(post.blog_name.as_str());
    out.append("</a>");
    out.append(CARD_BODY);
    out.append(body.as_str());
    out.append(CARD_TAGS);
    out.append(tags.as_str());
    out.append(CARD_DATE);
    out.append(post.date.as_str());
    out.append(CARD_NOTES);
    out.append(notes.as_str());
    out.append(CARD_CLOSE);
    proof {
        assert(out@ =~= card_html(*post, body_of(*post, fetched@)));
    }
    out
}

/// The first `k` cards, one after the other.
pub open spec fn concat_all(cards: Seq<Seq<char>>, k: nat) -> Seq<char>
    decreases k,
{
    if k == 0 || k > cards.len() {
        Seq::empty()
    } else {
        concat_all(cards, (k - 1) as nat) + cards[k - 1]
    }
}

/// The export document holding `cards` in order.
pub fn render_page(cards: &Vec<String>) -> (r: String)
    ensures
        r@ == PAGE_OPEN@ + concat_all(views(cards@), cards@.len()) + PAGE_CLOSE@,
{
    let ghost cs = views(cards@);
    let mut out = String::from_str(PAGE_OPEN);
    let mut i: usize = 0;
    while i < cards.len()
        invariant
            cs == views(cards@),
            i <= cards@.len(),
            out@ == PAGE_OPEN@ + concat_all(cs, i as nat),
        decreases cards@.len() - i,
    {
        out.append(cards[i].as_str());
        i = i + 1;
        proof {
            assert(out@ =~= PAGE_OPEN@ + concat_all(cs, i as nat));
        }
    }
    out.append(PAGE_CLOSE);
    out
}

} // verus!
