//! The data model: posts as the remote API describes them, the response
//! envelope, and the run's configuration.

use vstd::prelude::*;

verus! {

/// Account that contributed one hop of a reblog trail.
#[derive(Debug, Clone)]
pub struct BlogItem {
    pub name: String,
    pub active: bool,
}

/// Identifier of a contributor's own post.
#[derive(Debug, Clone)]
pub struct PostItem {
    pub id: String,
}

/// One hop of a reblog chain.
#[derive(Debug, Clone)]
pub struct TrailItem {
    pub blog: BlogItem,
    pub post: PostItem,
    pub content_raw: String,
}

/// One image: remote URL and pixel dimensions.
#[derive(Debug, Clone)]
pub struct Photo {
    pub url: String,
    pub width: i32,
    pub height: i32,
}

/// One image of a photo post, with its caption.
#[derive(Debug, Clone)]
pub struct Photos {
    pub caption: String,
    pub original_size: Photo,
}

/// The kind of a post; kinds this library does not handle are carried by name.
#[derive(Debug, Clone)]
pub enum PostKind {
    Photo,
    Video,
    Text,
    Other(String),
}

/// One liked post.
#[derive(Debug, Clone)]
pub struct Post {
    pub blog_name: String,
    pub id: u64,
    pub post_url: String,
    pub kind: PostKind,
    pub timestamp: u64,
    pub date: String,
    pub format: String,
    pub reblog_key: String,
    pub note_count: u64,
    pub tags: Vec<String>,
    pub body: Option<String>,
    pub trail: Option<Vec<TrailItem>>,
    pub photos: Option<Vec<Photos>>,
    pub video_url: Option<String>,
}

/// Query parameters of the next-page link.
#[derive(Debug, Clone)]
pub struct QueryParams {
    pub limit: Option<String>,
    pub before: Option<String>,
}

/// The next-page link.
#[derive(Debug, Clone)]
pub struct LinksNext {
    pub query_params: QueryParams,
}

/// Links of a response page.
#[derive(Debug, Clone)]
pub struct Links {
    pub next: Option<LinksNext>,
}

/// Body of a likes response.
#[derive(Debug, Clone)]
pub struct Response {
    pub liked_count: i32,
    pub liked_posts: Vec<Post>,
    pub _links: Option<Links>,
}

/// Envelope of a likes response.
#[derive(Debug, Clone)]
pub struct ReturnVal {
    pub response: Response,
}

/// Configuration of one run.
#[derive(Debug, Clone)]
pub struct Arguments {
    pub api_key: String,
    pub blog_name: String,
    pub directory: String,
    pub dump: Option<String>,
    pub restore: Option<String>,
    pub export: Option<String>,
    pub verbose: bool,
}

/// Name of a post kind as the remote API writes it.
pub open spec fn kind_name(k: PostKind) -> Seq<char> {
    match k {
        PostKind::Photo => "photo"@,
        PostKind::Video => "video"@,
        PostKind::Text => "text"@,
        PostKind::Other(s) => s@,
    }
}

impl PostKind {
    /// The kind named by `name`; every unrecognised name is carried as `Other`.
    pub fn from_name(name: &str) -> (r: PostKind)
        ensures
            (r is Other) == (name@ != "photo"@ && name@ != "video"@ && name@ != "text"@),
            name@ == "photo"@ ==> r is Photo,
            name@ == "video"@ ==> r is Video,
            name@ == "text"@ ==> r is Text,
            kind_name(r) == name@,
    {
        proof {
            reveal_strlit("photo");
            reveal_strlit("video");
            reveal_strlit("text");
            assert("photo"@[0] != "video"@[0]);
            assert("photo"@[0] != "text"@[0]);
            assert("video"@[0] != "text"@[0]);
        }
        let s = String::from_str(name);
        if s == String::from_str("photo") {
            PostKind::Photo
        } else if s == String::from_str("video") {
            PostKind::Video
        } else if s == String::from_str("text") {
            PostKind::Text
        } else {
            PostKind::Other(s)
        }
    }

    /// The name the remote API uses for this kind.
    pub fn name(&self) -> (r: String)
        ensures
            r@ == kind_name(*self),
    {
        match self {
            PostKind::Photo => String::from_str("photo"),
            PostKind::Video => String::from_str("video"),
            PostKind::Text => String::from_str("text"),
            PostKind::Other(s) => s.clone(),
        }
    }
}

} // verus!
