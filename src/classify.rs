//! Which media a post refers to.

use vstd::prelude::*;
use crate::types::{Photos, Post, PostKind};

verus! {

/// URLs of the images of a photo post, in the order the API gave them.
pub open spec fn photo_urls(photos: Seq<Photos>) -> Seq<Seq<char>> {
    photos.map_values(|p: Photos| p.original_size.url@)
}

/// The media URLs of a post: every image of a photo post, the video of a
/// video post where it has one, and nothing for any other kind.
pub open spec fn media_of(p: Post) -> Seq<Seq<char>> {
    match p.kind {
        PostKind::Photo => match p.photos {
            Some(v) => photo_urls(v@),
            None => Seq::empty(),
        },
        PostKind::Video => match p.video_url {
            Some(u) => seq![u@],
            None => Seq::empty(),
        },
        _ => Seq::empty(),
    }
}

/// Name of the folder, under the output directory, that a kind's media go to.
pub open spec fn folder_of(k: PostKind) -> Seq<char> {
    match k {
        PostKind::Video => "videos"@,
        _ => "pics"@,
    }
}

/// The URLs of the images, in order.
pub fn photo_url_list(photos: &Vec<Photos>) -> (r: Vec<String>)
    ensures
        r@.map_values(|s: String| s@) == photo_urls(photos@),
{
    let mut r: Vec<String> = Vec::new();
    let mut i: usize = 0;
    while i < photos.len()
        invariant
            i <= photos@.len(),
            r@.len() == i,
            forall|j: int| 0 <= j < i ==> r@[j]@ == photos@[j].original_size.url@,
        decreases photos@.len() - i,
    {
        r.push(photos[i].original_size.url.clone());
        i = i + 1;
    }
    assert(r@.map_values(|s: String| s@) =~= photo_urls(photos@));
    r
}

/// The media URLs of a post, in order; empty for kinds without media.
pub fn media_urls(post: &Post) -> (r: Vec<String>)
    ensures
        r@.map_values(|s: String| s@) == media_of(*post),
{
    match &post.kind {
        PostKind::Photo => match &post.photos {
            Some(v) => photo_url_list(v),
            None => {
                let r: Vec<String> = Vec::new();
                assert(r@.map_values(|s: String| s@) =~= Seq::<Seq<char>>::empty());
                r
            },
        },
        PostKind::Video => match &post.video_url {
            Some(u) => {
                let r: Vec<String> = vec![u.clone()];
                assert(r@.map_values(|s: String| s@) =~= seq![u@]);
                r
            },
            None => {
                let r: Vec<String> = Vec::new();
                assert(r@.map_values(|s: String| s@) =~= Seq::<Seq<char>>::empty());
                r
            },
        },
        _ => {
            let r: Vec<String> = Vec::new();
            assert(r@.map_values(|s: String| s@) =~= Seq::<Seq<char>>::empty());
            r
        },
    }
}

/// The folder that the media of a post of kind `k` are downloaded to.
pub fn media_folder(k: &PostKind) -> (r: &'static str)
    ensures
        r@ == folder_of(*k),
{
    match k {
        PostKind::Video => "videos",
        _ => "pics",
    }
}

/// A post of a kind without media has no media URLs.
pub proof fn lemma_other_kinds_have_no_media(p: Post)
    requires
        !(p.kind is Photo) && !(p.kind is Video),
    ensures
        media_of(p).len() == 0,
{
}

} // verus!
