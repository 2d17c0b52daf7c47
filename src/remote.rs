//! Requests to the likes endpoint and the pagination walker that decides,
//! response after response, which page to ask for next.

use vstd::prelude::*;
use crate::types::{Arguments, Links};

verus! {

/// The `limit` query value: one item for the count-only request, else a full page.
pub open spec fn limit_text(one: bool) -> Seq<char> {
    if one { "1"@ } else { "20"@ }
}

/// The `&before=` part of a request, empty on the first page.
pub open spec fn before_text(before: Option<Seq<char>>) -> Seq<char> {
    match before {
        Some(b) => "&before="@ + b,
        None => Seq::empty(),
    }
}

/// URL of a likes request for `blog` with the key `key`.
pub open spec fn likes_url(blog: Seq<char>, key: Seq<char>, one: bool, before: Option<Seq<char>>) -> Seq<char> {
    "https://api.tumblr.com/v2/blog/"@ + blog + "/likes?api_key="@ + key + "&limit="@
        + limit_text(one) + before_text(before)
}

/// View of an optional string.
pub open spec fn opt_view(o: Option<String>) -> Option<Seq<char>> {
    match o {
        Some(s) => Some(s@),
        None => None,
    }
}

/// The cursor that a response's links carry, if any.
pub open spec fn cursor_of(links: Option<Links>) -> Option<Seq<char>> {
    match links {
        Some(l) => match l.next {
            Some(n) => opt_view(n.query_params.before),
            None => None,
        },
        None => None,
    }
}

/// URL of the likes request: one item when `one`, else a full page, from
/// the cursor `before` when there is one.
pub fn build_url(args: &Arguments, one: bool, before: Option<String>) -> (r: String)
    ensures
        r@ == likes_url(args.blog_name@, args.api_key@, one, opt_view(before)),
{
    let mut r = String::from_str("https://api.tumblr.com/v2/blog/");
    r.append(args.blog_name.as_str());
    r.append("/likes?api_key=");
    r.append(args.api_key.as_str());
    r.append("&limit=");
    if one {
        r.append("1");
    } else {
        r.append("20");
    }
    match before {
        Some(b) => {
            r.append("&before=");
            r.append(b.as_str());
        },
        None => {},
    }
    proof {
        assert(r@ =~= likes_url(args.blog_name@, args.api_key@, one, opt_view(before)));
    }
    r
}

/// The cursor of the next page, if the response's links carry one.
pub fn next_cursor(links: &Option<Links>) -> (r: Option<String>)
    ensures
        opt_view(r) == cursor_of(*links),
{
    match links {
        Some(l) => match &l.next {
            Some(n) => match &n.query_params.before {
                Some(b) => Some(b.clone()),
                None => None,
            },
            None => None,
        },
        None => None,
    }
}

/// Where a walk over the likes stands.
pub enum Phase {
    /// The count-only request is still to be made.
    Count,
    /// A full page is to be requested, from the cursor if there is one.
    Page(Option<String>),
    /// No further request.
    Done,
}

/// Mathematical view of a [`Phase`].
pub enum WalkState {
    Count,
    Page(Option<Seq<char>>),
    Done,
}

/// The state after a response with the links `links` arrived in state `s`.
pub open spec fn after(s: WalkState, links: Option<Links>) -> WalkState {
    match s {
        WalkState::Count => WalkState::Page(None),
        WalkState::Page(_) => match cursor_of(links) {
            Some(c) => WalkState::Page(Some(c)),
            None => WalkState::Done,
        },
        WalkState::Done => WalkState::Done,
    }
}

/// The state after the responses `pages`, in order, starting from `s`.
pub open spec fn walk(s: WalkState, pages: Seq<Option<Links>>) -> WalkState
    decreases pages.len(),
{
    if pages.len() == 0 {
        s
    } else {
        walk(after(s, pages[0]), pages.subrange(1, pages.len() as int))
    }
}

/// The pagination walker: hands out the URL of the next request and takes
/// each response's links in turn.
pub struct Walker {
    pub phase: Phase,
}

impl View for Walker {
    type V = WalkState;

    open spec fn view(&self) -> WalkState {
        match self.phase {
            Phase::Count => WalkState::Count,
            Phase::Page(c) => WalkState::Page(opt_view(c)),
            Phase::Done => WalkState::Done,
        }
    }
}

impl Walker {
    /// A walker that starts with the count-only request.
    pub fn new() -> (r: Walker)
        ensures
            r@ == WalkState::Count,
    {
        Walker { phase: Phase::Count }
    }

    /// Whether no further request is to be made.
    pub fn is_done(&self) -> (r: bool)
        ensures
            r == (self@ is Done),
    {
        match self.phase {
            Phase::Done => true,
            _ => false,
        }
    }

    /// URL of the next request, or `None` once the walk is over.
    pub fn request(&self, args: &Arguments) -> (r: Option<String>)
        ensures
            match self@ {
                WalkState::Count => opt_view(r) == Some(
                    likes_url(args.blog_name@, args.api_key@, true, None),
                ),
                WalkState::Page(c) => opt_view(r) == Some(
                    likes_url(args.blog_name@, args.api_key@, false, c),
                ),
                WalkState::Done => r is None,
            },
    {
        match &self.phase {
            Phase::Count => Some(build_url(args, true, None)),
            Phase::Page(c) => Some(build_url(args, false, c.clone())),
            Phase::Done => None,
        }
    }

    /// Takes the links of the response to the last request. Returns whether
    /// the posts of that response belong to the archive: those of the
    /// count-only request do not.
    pub fn receive(&mut self, links: &Option<Links>) -> (keep: bool)
        ensures
            final(self)@ == after(old(self)@, *links),
            keep == (old(self)@ is Page),
    {
        match self.phase {
            Phase::Count => {
                self.phase = Phase::Page(None);
                false
            },
            Phase::Page(_) => {
                self.phase = match next_cursor(links) {
                    Some(c) => Phase::Page(Some(c)),
                    None => Phase::Done,
                };
                true
            },
            Phase::Done => false,
        }
    }
}

/// A walk over pages of which every one but the last carries a cursor, and
/// the last none, is still paging before each of those pages and is over
/// right after the last one: it stops there and asks for nothing more.
pub proof fn lemma_walk_stops_after_last_page(c: Option<Seq<char>>, pages: Seq<Option<Links>>)
    requires
        pages.len() > 0,
        forall|i: int| 0 <= i < pages.len() - 1 ==> cursor_of(#[trigger] pages[i]) is Some,
        cursor_of(pages[pages.len() - 1]) is None,
    ensures
        walk(WalkState::Page(c), pages) is Done,
        forall|k: int| 0 <= k < pages.len() ==> walk(WalkState::Page(c), #[trigger] pages.take(k)) is Page,
    decreases pages.len(),
{
    let rest = pages.subrange(1, pages.len() as int);
    if pages.len() == 1 {
        assert(walk(WalkState::Done, rest) == WalkState::Done);
    } else {
        assert(cursor_of(pages[0]) is Some);
        let next = after(WalkState::Page(c), pages[0]);
        assert forall|i: int| 0 <= i < rest.len() - 1 implies cursor_of(#[trigger] rest[i]) is Some by {
            assert(rest[i] == pages[i + 1]);
        }
        lemma_walk_stops_after_last_page(cursor_of(pages[0]), rest);
    }
    assert forall|k: int| 0 <= k < pages.len() implies walk(WalkState::Page(c), #[trigger] pages.take(k)) is Page by {
        if k > 0 {
            let t = pages.take(k);
            assert(t.subrange(1, t.len() as int) =~= rest.take(k - 1));
            assert(t[0] == pages[0]);
        } else {
            assert(walk(WalkState::Page(c), pages.take(0)) == WalkState::Page(c));
        }
    }
}

/// A finished walk stays finished, whatever arrives.
pub proof fn lemma_done_is_final(pages: Seq<Option<Links>>)
    ensures
        walk(WalkState::Done, pages) == WalkState::Done,
    decreases pages.len(),
{
    if pages.len() > 0 {
        lemma_done_is_final(pages.subrange(1, pages.len() as int));
    }
}

} // verus!
