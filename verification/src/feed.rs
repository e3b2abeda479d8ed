//! Syndication-feed posts: parsing a fetched feed document and turning its
//! items into the display-ready list, truncated to the requested count (all
//! of them when no count is given).

use vstd::prelude::*;

use crate::transform::limit;

verus! {

/// Why a feed could not produce posts.
#[derive(Clone, Copy, Debug, PartialEq, Eq, Structural)]
pub enum RssError {
    /// The transport failed to fetch the feed document.
    ClientError,
    /// The document could not be parsed as a feed.
    RssError,
}

impl RssError {
    /// The description each failure carries.
    pub open spec fn spec_message(&self) -> Seq<char> {
        match self {
            RssError::ClientError => "http client error"@,
            RssError::RssError => "rss error"@,
        }
    }

    /// A human-readable description of the failure.
    pub fn message(&self) -> (m: &'static str)
        ensures
            m@ == self.spec_message(),
    {
        match self {
            RssError::ClientError => "http client error",
            RssError::RssError => "rss error",
        }
    }
}

/// A feed post as shown to the template. Fields a feed item left out are
/// empty strings.
#[derive(Debug, PartialEq, Eq)]
pub struct Post {
    pub published_at: String,
    pub description: String,
    pub title: String,
    pub link: String,
}

/// One item of a parsed feed, with every field as optional as the feed
/// format leaves it.
#[derive(Debug, PartialEq, Eq)]
pub struct FeedItem {
    pub pub_date: Option<String>,
    pub description: Option<String>,
    pub title: Option<String>,
    pub link: Option<String>,
}

/// A post's contents at the specification level.
pub struct PostModel {
    pub published_at: Seq<char>,
    pub description: Seq<char>,
    pub title: Seq<char>,
    pub link: Seq<char>,
}

/// A feed item's contents at the specification level.
pub struct FeedItemModel {
    pub pub_date: Option<Seq<char>>,
    pub description: Option<Seq<char>>,
    pub title: Option<Seq<char>>,
    pub link: Option<Seq<char>>,
}

impl View for Post {
    type V = PostModel;

    open spec fn view(&self) -> PostModel {
        PostModel {
            published_at: self.published_at@,
            description: self.description@,
            title: self.title@,
            link: self.link@,
        }
    }
}

impl View for FeedItem {
    type V = FeedItemModel;

    open spec fn view(&self) -> FeedItemModel {
        FeedItemModel {
            pub_date: self.pub_date.deep_view(),
            description: self.description.deep_view(),
            title: self.title.deep_view(),
            link: self.link.deep_view(),
        }
    }
}

/// The contents of a batch of posts.
pub open spec fn post_views(posts: Seq<Post>) -> Seq<PostModel> {
    posts.map_values(|p: Post| p@)
}

/// The contents of a batch of feed items.
pub open spec fn item_views(items: Seq<FeedItem>) -> Seq<FeedItemModel> {
    items.map_values(|i: FeedItem| i@)
}

/// An optional field's text, empty when the feed left it out.
pub open spec fn or_empty(s: Option<Seq<char>>) -> Seq<char> {
    match s {
        Some(v) => v,
        None => Seq::empty(),
    }
}

/// The post a feed item stands for.
pub open spec fn post_of(i: FeedItemModel) -> PostModel {
    PostModel {
        published_at: or_empty(i.pub_date),
        description: or_empty(i.description),
        title: or_empty(i.title),
        link: or_empty(i.link),
    }
}

/// The posts a batch of feed items stands for, in feed order.
pub open spec fn posts_of(items: Seq<FeedItemModel>) -> Seq<PostModel> {
    items.map_values(|i: FeedItemModel| post_of(i))
}

/// The feed parser's error type, carried through opaquely.
#[verifier::external_type_specification]
#[verifier::external_body]
pub struct ExRssError(rss::Error);

/// What the feed parser yields on a given document: the items of the parsed
/// channel, in order, or nothing when the bytes are not a well-formed feed.
pub uninterp spec fn feed_parse(content: Seq<u8>) -> Option<Seq<FeedItemModel>>;

/// Relies on rss::Channel::read_from: whether a byte sequence parses as a
/// feed, and which items the channel then holds, depend on the bytes alone.
#[verifier::external_body]
fn read_feed(content: &[u8]) -> (r: Result<Vec<FeedItem>, rss::Error>)
    ensures
        r is Ok <==> feed_parse(content@) is Some,
        r matches Ok(items) ==> Some(item_views(items@)) == feed_parse(content@),
{
    match rss::Channel::read_from(content) {
        Ok(channel) => Ok(channel.items.into_iter().map(
            |i| FeedItem {
                pub_date: i.pub_date,
                description: i.description,
                title: i.title,
                link: i.link,
            },
        ).collect()),
        Err(e) => Err(e),
    }
}

/// Turn parsed feed items into posts, in order, defaulting absent fields to
/// empty text, and keep the first `count` of them (all when none is given).
pub fn posts_from_items(items: Vec<FeedItem>, count: Option<u64>) -> (r: Vec<Post>)
    ensures
        post_views(r@) == match count {
            None => posts_of(item_views(items@)),
            Some(c) => limit(posts_of(item_views(items@)), c as int),
        },
{
    let ghost orig = items@;
    let mut rest = items;
    let mut out: Vec<Post> = Vec::new();
    proof {
        assert(post_views(out@) + posts_of(item_views(rest@)) =~= posts_of(item_views(orig)));
    }
    while rest.len() > 0
        invariant
            post_views(out@) + posts_of(item_views(rest@)) == posts_of(item_views(orig)),
        decreases rest@.len(),
    {
        let ghost pre = rest@;
        let ghost prev = out@;
        let it = rest.remove(0);
        let ghost iv = it;
        let FeedItem { pub_date, description, title, link } = it;
        let post = Post {
            published_at: match pub_date {
                Some(s) => s,
                None => String::new(),
            },
            description: match description {
                Some(s) => s,
                None => String::new(),
            },
            title: match title {
                Some(s) => s,
                None => String::new(),
            },
            link: match link {
                Some(s) => s,
                None => String::new(),
            },
        };
        proof {
            assert(post@ == post_of(iv@));
            assert(item_views(pre) =~= seq![iv@] + item_views(rest@));
            assert(posts_of(item_views(pre)) =~= seq![post_of(iv@)] + posts_of(item_views(rest@)));
        }
        out.push(post);
        proof {
            assert(post_views(out@) =~= post_views(prev) + seq![post_of(iv@)]);
            assert(post_views(out@) + posts_of(item_views(rest@)) =~= post_views(prev) + posts_of(
                item_views(pre),
            ));
        }
    }
    proof {
        assert(item_views(rest@) =~= Seq::<FeedItemModel>::empty());
        assert(posts_of(item_views(rest@)) =~= Seq::<PostModel>::empty());
        assert(post_views(out@) =~= post_views(out@) + posts_of(item_views(rest@)));
    }
    if let Some(c) = count {
        let ghost full = out@;
        if c < (out.len() as u64) {
            let n = c as usize;
            out.truncate(n);
            proof {
                assert(post_views(out@) =~= post_views(full).subrange(0, c as int));
                assert(limit(posts_of(item_views(orig)), c as int) =~= post_views(full).subrange(
                    0,
                    c as int,
                ));
            }
        }
    }
    out
}

/// Parse a fetched feed document and return its posts, truncated to the
/// requested count (all of them when no count is given). A document that is
/// not a well-formed feed is rejected, and with exactly that outcome.
pub fn get_posts(content: &[u8], count: Option<u64>) -> (r: Result<Vec<Post>, RssError>)
    ensures
        r is Ok <==> feed_parse(content@) is Some,
        r matches Err(e) ==> e == RssError::RssError,
        r matches Ok(posts) ==> feed_parse(content@) matches Some(models) && post_views(posts@)
            == match count {
            None => posts_of(models),
            Some(c) => limit(posts_of(models), c as int),
        },
{
    match read_feed(content) {
        Ok(items) => Ok(posts_from_items(items, count)),
        Err(_) => Err(RssError::RssError),
    }
}

} // verus!
