use vstd::prelude::*;
use vstd::utf8::encode_utf8;
use crate::markup::{html_to_ratatui, layout, parsed_markup, root_style};
use crate::store::{content_id, identity_of};
use crate::text::{Text, TextModel};

verus! {

/// Why a feed could not be taken in.
#[derive(Clone, Copy, Debug, PartialEq, Eq, Structural)]
pub enum FeedError {
    /// The bytes are not UTF-8.
    InvalidEncoding,
    /// The bytes are not well-formed XML.
    InvalidXml,
    /// The document is neither an RSS channel nor an Atom feed.
    UnknownFormat,
    /// The feed parser refused the document.
    InvalidFeed,
}

/// What the index records of a feed.
pub struct Metadata {
    pub id: String,
    pub title: String,
    pub url: String,
}

/// A post: its title, its laid-out content, and where the reader has
/// scrolled to (line, column).
pub struct Post {
    pub title: String,
    pub content: Text,
    pub scroll: (u16, u16),
}

/// A feed and its posts, with the post selected in it, if any.
pub struct RussFeed {
    pub meta: Metadata,
    pub posts: Vec<Post>,
    pub selected: Option<usize>,
}

/// An item of an RSS channel, as the feed parser gives it.
pub struct RssItem {
    pub title: Option<String>,
    pub content: Option<String>,
}

/// An RSS channel, as the feed parser gives it.
pub struct RssChannel {
    pub title: String,
    pub link: String,
    pub items: Vec<RssItem>,
}

/// The content element of an Atom entry.
pub struct AtomContent {
    pub value: Option<String>,
}

/// An entry of an Atom feed, as the feed parser gives it.
pub struct AtomEntry {
    pub title: String,
    pub content: Option<AtomContent>,
}

/// An Atom feed, as the feed parser gives it.
pub struct AtomFeed {
    pub id: String,
    pub title: String,
    pub entries: Vec<AtomEntry>,
}

/// What a post holds.
pub struct PostView {
    pub title: Seq<char>,
    pub content: TextModel,
    pub scroll: (u16, u16),
}

/// What feed metadata holds: identity, title, address.
pub type MetaView = (Seq<char>, Seq<char>, Seq<char>);

/// What a feed holds.
pub struct FeedView {
    pub meta: MetaView,
    pub posts: Seq<PostView>,
    pub selected: Option<usize>,
}

impl View for Metadata {
    type V = MetaView;

    open spec fn view(&self) -> MetaView {
        (self.id@, self.title@, self.url@)
    }
}

impl View for Post {
    type V = PostView;

    open spec fn view(&self) -> PostView {
        PostView { title: self.title@, content: self.content@, scroll: self.scroll }
    }
}

impl View for RussFeed {
    type V = FeedView;

    open spec fn view(&self) -> FeedView {
        FeedView {
            meta: self.meta@,
            posts: self.posts@.map_values(|p: Post| p@),
            selected: self.selected,
        }
    }
}

/// A fresh post: the title, and the body laid out in the post style.
pub open spec fn new_post(title: Seq<char>, body: Seq<char>) -> PostView {
    PostView {
        title,
        content: layout(parsed_markup(encode_utf8(body)), root_style()),
        scroll: (0, 0),
    }
}

/// The title an RSS item is shown under.
pub open spec fn rss_title(item: RssItem) -> Seq<char> {
    match item.title {
        Some(t) => t@,
        None => "title not found"@,
    }
}

/// The markup an RSS item's body is read from.
pub open spec fn rss_body(item: RssItem) -> Seq<char> {
    match item.content {
        Some(c) => c@,
        None => "Could not get content from post."@,
    }
}

/// The title an Atom entry is shown under.
pub open spec fn atom_title(entry: AtomEntry) -> Seq<char> {
    if entry.title@.len() == 0 {
        "[untitled]"@
    } else {
        entry.title@
    }
}

/// The markup an Atom entry's body is read from.
pub open spec fn atom_body(entry: AtomEntry) -> Seq<char> {
    match entry.content {
        Some(c) => match c.value {
            Some(v) => v@,
            None => "Could not get value of content"@,
        },
        None => "Could not get content from post."@,
    }
}

/// The offset after one step up: one less, but never below zero.
pub open spec fn scrolled_up(offset: nat) -> nat {
    if offset > 0 {
        (offset - 1) as nat
    } else {
        0
    }
}

/// The offset after `n` steps up.
pub open spec fn scrolled_up_times(offset: nat, n: nat) -> nat
    decreases n,
{
    if n == 0 {
        offset
    } else {
        scrolled_up_times(scrolled_up(offset), (n - 1) as nat)
    }
}

/// The offset after `n` steps down.
pub open spec fn scrolled_down_times(offset: nat, n: nat) -> nat
    decreases n,
{
    if n == 0 {
        offset
    } else {
        scrolled_down_times(offset, (n - 1) as nat) + 1
    }
}

/// Scrolling up from the top stays at the top, and `n` steps down followed
/// by `n` steps up come back to where they started.
pub proof fn lemma_scroll_round_trip(offset: nat, n: nat)
    ensures
        scrolled_up(0) == 0,
        scrolled_up_times(scrolled_down_times(offset, n), n) == offset,
    decreases n,
{
    if n > 0 {
        lemma_scroll_round_trip(offset, (n - 1) as nat);
        assert(scrolled_down_times(offset, n) == scrolled_down_times(offset, (n - 1) as nat) + 1);
    }
}

/// The feed of an RSS channel: its identity comes from the channel's link.
pub open spec fn rss_feed_view(channel: RssChannel) -> FeedView {
    FeedView {
        meta: (content_id(channel.link@), channel.title@, channel.link@),
        posts: channel.items@.map_values(|i: RssItem| new_post(rss_title(i), rss_body(i))),
        selected: None,
    }
}

/// The feed of an Atom document: its identity comes from the feed's id.
pub open spec fn atom_feed_view(feed: AtomFeed) -> FeedView {
    FeedView {
        meta: (content_id(feed.id@), feed.title@, feed.id@),
        posts: feed.entries@.map_values(|e: AtomEntry| new_post(atom_title(e), atom_body(e))),
        selected: None,
    }
}

/// What the RSS parser makes of these bytes, where it accepts them.
pub uninterp spec fn rss_channel_of(xml: Seq<u8>) -> Option<RssChannel>;

/// What the Atom parser makes of these bytes, where it accepts them.
pub uninterp spec fn atom_feed_of(xml: Seq<u8>) -> Option<AtomFeed>;

/// Relies on rss::Channel::read_from: the channel parsed from the bytes, or
/// none where the parser returns an error; the outcome depends on the bytes
/// alone. Title, link and each item's title and content are copied out.
#[verifier::external_body]
pub(crate) fn read_rss(xml: &[u8]) -> (r: Option<RssChannel>)
    ensures
        r == rss_channel_of(xml@),
{
    rss::Channel::read_from(xml).ok().map(|c| RssChannel {
        title: c.title().to_string(),
        link: c.link().to_string(),
        items: c.items().iter().map(|i| RssItem {
            title: i.title().map(String::from),
            content: i.content().map(String::from),
        }).collect(),
    })
}

/// Relies on atom_syndication::Feed::read_from: the feed parsed from the
/// bytes, or none where the parser returns an error; the outcome depends on
/// the bytes alone. Id, title and each entry's title and content value are
/// copied out.
#[verifier::external_body]
pub(crate) fn read_atom(xml: &[u8]) -> (r: Option<AtomFeed>)
    ensures
        r == atom_feed_of(xml@),
{
    atom_syndication::Feed::read_from(xml).ok().map(|f| AtomFeed {
        id: f.id().to_string(),
        title: f.title().as_str().to_string(),
        entries: f.entries().iter().map(|e| AtomEntry {
            title: e.title().as_str().to_string(),
            content: e.content().map(|c| AtomContent { value: c.value().map(String::from) }),
        }).collect(),
    })
}

impl Metadata {
    /// A copy of the metadata.
    pub fn duplicate(&self) -> (r: Metadata)
        ensures
            r@ == self@,
    {
        Metadata { id: self.id.clone(), title: self.title.clone(), url: self.url.clone() }
    }
}

impl Post {
    /// The post of an RSS item: a missing title reads "title not found", a
    /// missing body "Could not get content from post.".
    pub fn from_item(item: &RssItem) -> (r: Result<Post, FeedError>)
        ensures
            r matches Ok(p) && p@ == new_post(rss_title(*item), rss_body(*item)),
    {
        let title = match &item.title {
            Some(t) => t.clone(),
            None => String::from_str("title not found"),
        };
        let body: &str = match &item.content {
            Some(c) => c.as_str(),
            None => "Could not get content from post.",
        };
        let content = html_to_ratatui(body.as_bytes());
        Ok(Post { title, content, scroll: (0, 0) })
    }

    /// The post of an Atom entry: an empty title reads "[untitled]", a
    /// missing body "Could not get content from post.", and a body without
    /// a value "Could not get value of content".
    pub fn from_atom(item: &AtomEntry) -> (r: Result<Post, FeedError>)
        ensures
            r matches Ok(p) && p@ == new_post(atom_title(*item), atom_body(*item)),
    {
        let title = if item.title.as_str().unicode_len() == 0 {
            String::from_str("[untitled]")
        } else {
            item.title.clone()
        };
        let body: &str = match &item.content {
            Some(c) => match &c.value {
                Some(v) => v.as_str(),
                None => "Could not get value of content",
            },
            None => "Could not get content from post.",
        };
        let content = html_to_ratatui(body.as_bytes());
        Ok(Post { title, content, scroll: (0, 0) })
    }

    /// Scrolls one line up, staying at the top.
    pub fn scroll_up(&mut self)
        ensures
            final(self).scroll.0 as nat == scrolled_up(old(self).scroll.0 as nat),
            final(self).scroll.1 == old(self).scroll.1,
            final(self).title == old(self).title,
            final(self).content == old(self).content,
    {
        if self.scroll.0 > 0 {
            self.scroll.0 = self.scroll.0 - 1;
        }
    }

    /// Scrolls one line down.
    pub fn scroll_down(&mut self)
        requires
            old(self).scroll.0 < u16::MAX,
        ensures
            final(self).scroll.0 == old(self).scroll.0 + 1,
            final(self).scroll.1 == old(self).scroll.1,
            final(self).title == old(self).title,
            final(self).content == old(self).content,
    {
        self.scroll.0 = self.scroll.0 + 1;
    }

    /// The line offset to draw the post at, given how many lines it takes
    /// at the current width: the scroll offset, but no further than the last.
    pub fn visible_offset(&self, line_count: usize) -> (r: u16)
        ensures
            r as int == if (self.scroll.0 as int) < (line_count as int) {
                self.scroll.0 as int
            } else {
                line_count as int
            },
    {
        if (self.scroll.0 as usize) < line_count {
            self.scroll.0
        } else {
            line_count as u16
        }
    }

    /// A copy of the post.
    pub fn duplicate(&self) -> (r: Post)
        ensures
            r@ == self@,
    {
        Post { title: self.title.clone(), content: self.content.duplicate(), scroll: self.scroll }
    }
}

impl RussFeed {
    /// The feed of an RSS channel: one post per item, in order, and no post
    /// selected.
    pub fn from_rss(channel: RssChannel) -> (r: Result<RussFeed, FeedError>)
        ensures
            r matches Ok(f) && f@ == rss_feed_view(channel),
    {
        let mut posts: Vec<Post> = Vec::new();
        let mut i: usize = 0;
        while i < channel.items.len()
            invariant
                i <= channel.items@.len(),
                posts@.len() == i,
                forall|k: int| 0 <= k < i ==> #[trigger] posts@[k]@ == new_post(
                    rss_title(channel.items@[k]),
                    rss_body(channel.items@[k]),
                ),
            decreases channel.items@.len() - i,
        {
            match Post::from_item(&channel.items[i]) {
                Ok(p) => posts.push(p),
                Err(e) => return Err(e),
            }
            i = i + 1;
        }
        let id = identity_of(channel.link.as_str());
        let r = RussFeed {
            meta: Metadata { id, title: channel.title, url: channel.link },
            posts,
            selected: None,
        };
        proof {
            assert(r@.posts =~= rss_feed_view(channel).posts);
        }
        Ok(r)
    }

    /// The feed of an Atom document: one post per entry, in order, and no
    /// post selected.
    pub fn from_atom(atom_feed: AtomFeed) -> (r: Result<RussFeed, FeedError>)
        ensures
            r matches Ok(f) && f@ == atom_feed_view(atom_feed),
    {
        let mut posts: Vec<Post> = Vec::new();
        let mut i: usize = 0;
        while i < atom_feed.entries.len()
            invariant
                i <= atom_feed.entries@.len(),
                posts@.len() == i,
                forall|k: int| 0 <= k < i ==> #[trigger] posts@[k]@ == new_post(
                    atom_title(atom_feed.entries@[k]),
                    atom_body(atom_feed.entries@[k]),
                ),
            decreases atom_feed.entries@.len() - i,
        {
            match Post::from_atom(&atom_feed.entries[i]) {
                Ok(p) => posts.push(p),
                Err(e) => return Err(e),
            }
            i = i + 1;
        }
        let id = identity_of(atom_feed.id.as_str());
        let r = RussFeed {
            meta: Metadata { id, title: atom_feed.title, url: atom_feed.id },
            posts,
            selected: None,
        };
        proof {
            assert(r@.posts =~= atom_feed_view(atom_feed).posts);
        }
        Ok(r)
    }

    /// A copy of the feed.
    pub fn duplicate(&self) -> (r: RussFeed)
        ensures
            r@ == self@,
    {
        let mut posts: Vec<Post> = Vec::new();
        let mut i: usize = 0;
        while i < self.posts.len()
            invariant
                i <= self.posts@.len(),
                posts@.len() == i,
                forall|k: int| 0 <= k < i ==> #[trigger] posts@[k]@ == self.posts@[k]@,
            decreases self.posts@.len() - i,
        {
            posts.push(self.posts[i].duplicate());
            i = i + 1;
        }
        let r = RussFeed { meta: self.meta.duplicate(), posts, selected: self.selected };
        proof {
            assert(r@.posts =~= self@.posts);
        }
        r
    }
}

} // verus!
