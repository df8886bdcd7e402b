use vstd::prelude::*;
use vstd::utf8::{decode_utf8, valid_utf8};
use crate::feed::{
    atom_feed_of, atom_feed_view, read_atom, read_rss, rss_channel_of, rss_feed_view, FeedError,
    FeedView, MetaView, Metadata, PostView, RussFeed,
};
use crate::markup::same_text;
use crate::store::Store;

verus! {

/// The two feed formats.
#[derive(Clone, Copy, Debug, PartialEq, Eq, Structural)]
pub enum FeedType {
    RSS,
    Atom,
}

/// Relies on std::str::from_utf8: the text of the bytes where they are
/// valid UTF-8, and none where they are not.
#[verifier::external_body]
fn utf8_text(xml: &[u8]) -> (r: Option<&str>)
    ensures
        r is Some <==> valid_utf8(xml@),
        r matches Some(s) ==> s@ == decode_utf8(xml@),
{
    std::str::from_utf8(xml).ok()
}

/// The events an XML reader finds in a document, a start tag as its name
/// and any other event as none; none at all where the reader fails.
pub uninterp spec fn xml_events_of(text: Seq<char>) -> Option<Vec<Option<Vec<u8>>>>;

/// Relies on quick_xml::Reader (from_str, text trimmed, read_event_into up
/// to the end of the document): each event as the name of a start tag or as
/// none, in order, or none at all at the reader's first error; the outcome
/// depends on the text alone.
#[verifier::external_body]
fn xml_events(text: &str) -> (r: Option<Vec<Option<Vec<u8>>>>)
    ensures
        r == xml_events_of(text@),
{
    let mut reader = quick_xml::Reader::from_str(text);
    reader.config_mut().trim_text(true);
    let mut buf = Vec::new();
    let mut events = Vec::new();
    loop {
        match reader.read_event_into(&mut buf) {
            Err(_) => return None,
            Ok(quick_xml::events::Event::Eof) => return Some(events),
            Ok(quick_xml::events::Event::Start(e)) => events.push(Some(e.name().as_ref().to_vec())),
            Ok(_) => events.push(None),
        }
    }
}

/// The format a root tag announces: `rss` or `feed`.
pub open spec fn tag_format(name: Seq<u8>) -> Option<FeedType> {
    if name == seq![0x72u8, 0x73u8, 0x73u8] {
        Some(FeedType::RSS)
    } else if name == seq![0x66u8, 0x65u8, 0x65u8, 0x64u8] {
        Some(FeedType::Atom)
    } else {
        None
    }
}

/// The format announced by the last start tag, among `events`, that names one.
pub open spec fn detected_format(events: Seq<Option<Vec<u8>>>) -> Option<FeedType>
    decreases events.len(),
{
    if events.len() == 0 {
        None
    } else {
        match events.last() {
            Some(name) if tag_format(name@) is Some => tag_format(name@),
            _ => detected_format(events.drop_last()),
        }
    }
}

/// The format a start tag announces.
pub fn format_of_tag(name: &Vec<u8>) -> (r: Option<FeedType>)
    ensures
        r == tag_format(name@),
{
    if name.len() == 3 && name[0] == 0x72u8 && name[1] == 0x73u8 && name[2] == 0x73u8 {
        proof {
            assert(name@ =~= seq![0x72u8, 0x73u8, 0x73u8]);
        }
        Some(FeedType::RSS)
    } else if name.len() == 4 && name[0] == 0x66u8 && name[1] == 0x65u8 && name[2] == 0x65u8
        && name[3] == 0x64u8 {
        proof {
            assert(name@ =~= seq![0x66u8, 0x65u8, 0x65u8, 0x64u8]);
        }
        Some(FeedType::Atom)
    } else {
        None
    }
}

/// The feed format of a document, from its XML events: the format that the
/// last `rss` or `feed` start tag announces.
pub fn detect_feed_type(events: &Vec<Option<Vec<u8>>>) -> (r: Option<FeedType>)
    ensures
        r == detected_format(events@),
{
    let mut found: Option<FeedType> = None;
    let mut i: usize = 0;
    while i < events.len()
        invariant
            i <= events@.len(),
            found == detected_format(events@.subrange(0, i as int)),
        decreases events@.len() - i,
    {
        proof {
            assert(events@.subrange(0, i + 1).drop_last() =~= events@.subrange(0, i as int));
        }
        match &events[i] {
            Some(name) => {
                let f = format_of_tag(name);
                if f.is_some() {
                    found = f;
                }
            },
            None => {},
        }
        i = i + 1;
    }
    proof {
        assert(events@.subrange(0, i as int) =~= events@);
    }
    found
}

/// What taking in the bytes of a fetched feed yields.
pub open spec fn ingested(xml: Seq<u8>) -> Result<FeedView, FeedError> {
    if !valid_utf8(xml) {
        Err(FeedError::InvalidEncoding)
    } else {
        match xml_events_of(decode_utf8(xml)) {
            None => Err(FeedError::InvalidXml),
            Some(events) => match detected_format(events@) {
                None => Err(FeedError::UnknownFormat),
                Some(FeedType::RSS) => match rss_channel_of(xml) {
                    None => Err(FeedError::InvalidFeed),
                    Some(c) => Ok(rss_feed_view(c)),
                },
                Some(FeedType::Atom) => match atom_feed_of(xml) {
                    None => Err(FeedError::InvalidFeed),
                    Some(f) => Ok(atom_feed_view(f)),
                },
            },
        }
    }
}

/// Takes in the bytes of a fetched feed: finds its format from its root tag,
/// parses it with that format's parser, and builds the feed.
pub fn parse_feed(xml: &[u8]) -> (r: Result<RussFeed, FeedError>)
    ensures
        r is Ok == ingested(xml@) is Ok,
        r matches Ok(f) ==> ingested(xml@) == Ok::<FeedView, FeedError>(f@),
        r matches Err(e) ==> ingested(xml@) == Err::<FeedView, FeedError>(e),
{
    let text = match utf8_text(xml) {
        Some(t) => t,
        None => return Err(FeedError::InvalidEncoding),
    };
    let events = match xml_events(text) {
        Some(ev) => ev,
        None => return Err(FeedError::InvalidXml),
    };
    match detect_feed_type(&events) {
        Some(FeedType::RSS) => match read_rss(xml) {
            Some(c) => RussFeed::from_rss(c),
            None => Err(FeedError::InvalidFeed),
        },
        Some(FeedType::Atom) => match read_atom(xml) {
            Some(f) => RussFeed::from_atom(f),
            None => Err(FeedError::InvalidFeed),
        },
        None => Err(FeedError::UnknownFormat),
    }
}

/// The screens of the reader.
#[derive(Clone, Copy, Debug, PartialEq, Eq, Structural)]
pub enum Screen {
    Reader,
    MainMenu,
    FeedMenu,
    Exiting,
}

/// A key press, as far as navigation tells keys apart.
#[derive(Clone, Copy, Debug, PartialEq, Eq, Structural)]
pub enum Key {
    Char(char),
    Enter,
    Other,
}

/// Where feeds and settings live, and which feeds to fetch.
pub struct Config {
    pub feed_dir: String,
    pub config_dir: String,
    pub feeds: Vec<String>,
}

/// The feeds that exist, and the one selected in the main menu.
pub struct Index {
    pub meta: Vec<Metadata>,
    pub selected: Option<usize>,
}

/// The whole state of a session.
pub struct App {
    pub current_screen: Screen,
    pub index: Index,
    pub feeds: Vec<RussFeed>,
}

/// What a session holds.
pub struct AppView {
    pub screen: Screen,
    pub index: Seq<MetaView>,
    pub selected: Option<usize>,
    pub feeds: Seq<FeedView>,
}

impl View for Index {
    type V = (Seq<MetaView>, Option<usize>);

    open spec fn view(&self) -> (Seq<MetaView>, Option<usize>) {
        (self.meta@.map_values(|m: Metadata| m@), self.selected)
    }
}

impl View for App {
    type V = AppView;

    open spec fn view(&self) -> AppView {
        AppView {
            screen: self.current_screen,
            index: self.index@.0,
            selected: self.index.selected,
            feeds: self.feeds@.map_values(|f: RussFeed| f@),
        }
    }
}

/// The feeds that the index entries `ms` resolve to in the store `m`, in
/// order; an entry with no stored record is left out.
pub open spec fn resolved(ms: Seq<MetaView>, m: Map<Seq<char>, RussFeed>) -> Seq<FeedView>
    decreases ms.len(),
{
    if ms.len() == 0 {
        Seq::empty()
    } else {
        let rest = resolved(ms.drop_last(), m);
        let id = ms.last().0;
        if m.dom().contains(id) {
            rest.push(m[id]@)
        } else {
            rest
        }
    }
}

/// Whether an entry of the index carries the identity `id`.
pub open spec fn has_entry(index: Seq<MetaView>, id: Seq<char>) -> bool {
    exists|i: int| 0 <= i < index.len() && index[i].0 == id
}

/// Each feed of a session stands at the position of its index entry, so a
/// position chosen in the index is the position of its feed.
pub open spec fn one_feed_per_entry(a: AppView) -> bool {
    a.index.len() == a.feeds.len()
}

/// A session that took in the feed `f`: a feed whose identity the index
/// already holds changes nothing; a new one is recorded at the end of the
/// index, and its feed at the end of the feeds.
pub open spec fn indexed(a: AppView, f: FeedView) -> AppView {
    if has_entry(a.index, f.meta.0) {
        a
    } else {
        AppView { index: a.index.push(f.meta), feeds: a.feeds.push(f), ..a }
    }
}

/// The store `after` is `before` with the feed `f` saved under its identity
/// where `written`, and `before` unchanged otherwise; `written` tells whether
/// that identity was new.
pub open spec fn stored(
    before: Map<Seq<char>, RussFeed>,
    after: Map<Seq<char>, RussFeed>,
    f: FeedView,
    written: bool,
) -> bool {
    let id = f.meta.0;
    &&& written == !before.dom().contains(id)
    &&& written ==> after.dom() == before.dom().insert(id) && after[id]@ == f && after.remove(id)
        == before.remove(id)
    &&& !written ==> after == before
}

/// The entries of `ms` whose record the store `m` holds, in order.
pub open spec fn kept(ms: Seq<MetaView>, m: Map<Seq<char>, RussFeed>) -> Seq<MetaView>
    decreases ms.len(),
{
    if ms.len() == 0 {
        Seq::empty()
    } else {
        let rest = kept(ms.drop_last(), m);
        if m.dom().contains(ms.last().0) {
            rest.push(ms.last())
        } else {
            rest
        }
    }
}

/// A selection moved onto a list of `len` entries: kept where it is on the
/// list, the last entry where it is past it, none on an empty list.
pub open spec fn fitted_selection(sel: Option<usize>, len: nat) -> Option<usize> {
    match sel {
        None => None,
        Some(i) => if len == 0 {
            None
        } else if i < len {
            Some(i)
        } else {
            Some((len - 1) as usize)
        },
    }
}

/// A session that took as its index the entries of `ms` that the store `m`
/// holds, with the selection fitted to them, and as its feeds their records.
pub open spec fn loaded(
    a: AppView,
    ms: Seq<MetaView>,
    selected: Option<usize>,
    m: Map<Seq<char>, RussFeed>,
) -> AppView {
    AppView {
        index: kept(ms, m),
        selected: fitted_selection(selected, kept(ms, m).len()),
        feeds: resolved(ms, m),
        ..a
    }
}

/// The feeds that index entries resolve to stand at the positions of the
/// entries kept: the feed at position `i` is the record stored under the
/// identity of the kept entry at `i`.
pub proof fn lemma_kept_resolved(ms: Seq<MetaView>, m: Map<Seq<char>, RussFeed>)
    ensures
        kept(ms, m).len() == resolved(ms, m).len(),
        forall|i: int| 0 <= i < kept(ms, m).len() ==> m.dom().contains(#[trigger] kept(ms, m)[i].0)
            && resolved(ms, m)[i] == m[kept(ms, m)[i].0]@,
    decreases ms.len(),
{
    if ms.len() > 0 {
        lemma_kept_resolved(ms.drop_last(), m);
    }
}

/// Moves a selection onto a list of `len` entries.
pub fn fit_selection(sel: Option<usize>, len: usize) -> (r: Option<usize>)
    ensures
        r == fitted_selection(sel, len as nat),
{
    match sel {
        None => None,
        Some(i) => if len == 0 {
            None
        } else if i < len {
            Some(i)
        } else {
            Some(len - 1)
        },
    }
}

/// The selection after moving one entry down a list of `len` entries.
pub open spec fn next_selection(sel: Option<usize>, len: nat) -> Option<usize> {
    if len == 0 {
        None
    } else {
        match sel {
            None => Some(0),
            Some(i) => if i + 1 < len { Some((i + 1) as usize) } else { Some((len - 1) as usize) },
        }
    }
}

/// The selection after moving one entry up a list of `len` entries.
pub open spec fn previous_selection(sel: Option<usize>, len: nat) -> Option<usize> {
    if len == 0 {
        None
    } else {
        match sel {
            None => Some((len - 1) as usize),
            Some(i) => if i == 0 {
                Some(0)
            } else if i - 1 < len {
                Some((i - 1) as usize)
            } else {
                Some((len - 1) as usize)
            },
        }
    }
}

/// Moves a selection one entry down, staying on the list.
pub fn select_next(sel: Option<usize>, len: usize) -> (r: Option<usize>)
    ensures
        r == next_selection(sel, len as nat),
{
    if len == 0 {
        None
    } else {
        match sel {
            None => Some(0),
            Some(i) => if i < len - 1 { Some(i + 1) } else { Some(len - 1) },
        }
    }
}

/// Moves a selection one entry up, staying on the list.
pub fn select_previous(sel: Option<usize>, len: usize) -> (r: Option<usize>)
    ensures
        r == previous_selection(sel, len as nat),
{
    if len == 0 {
        None
    } else {
        match sel {
            None => Some(len - 1),
            Some(i) => if i == 0 {
                Some(0)
            } else if i - 1 < len {
                Some(i - 1)
            } else {
                Some(len - 1)
            },
        }
    }
}

/// The selected feed, where the main menu's selection names one.
pub open spec fn selected_feed(a: AppView) -> Option<int> {
    match a.selected {
        Some(ch) => if ch < a.feeds.len() { Some(ch as int) } else { None },
        None => None,
    }
}

/// The selected post of the selected feed, where there is one.
pub open spec fn selected_post(a: AppView) -> Option<(int, int)> {
    match selected_feed(a) {
        Some(ch) => match a.feeds[ch].selected {
            Some(p) => if p < a.feeds[ch].posts.len() { Some((ch, p as int)) } else { None },
            None => None,
        },
        None => None,
    }
}

/// A session on another screen.
pub open spec fn on_screen(a: AppView, s: Screen) -> AppView {
    AppView { screen: s, ..a }
}

/// A session whose post `p` of feed `ch` has its line offset changed to `o`.
pub open spec fn with_offset(a: AppView, ch: int, p: int, o: u16) -> AppView {
    let f = a.feeds[ch];
    let post = f.posts[p];
    AppView {
        feeds: a.feeds.update(
            ch,
            FeedView { posts: f.posts.update(p, PostView { scroll: (o, post.scroll.1), ..post }), ..f },
        ),
        ..a
    }
}

/// A session after one step up or down in the post being read; a post
/// already at the largest offset stays there.
pub open spec fn scrolled(a: AppView, up: bool) -> AppView {
    match selected_post(a) {
        Some((ch, p)) => {
            let o = a.feeds[ch].posts[p].scroll.0;
            if up {
                with_offset(a, ch, p, if o > 0 { (o - 1) as u16 } else { 0 })
            } else if o < u16::MAX {
                with_offset(a, ch, p, (o + 1) as u16)
            } else {
                a
            }
        },
        None => a,
    }
}

/// A session whose selected feed has its post selection moved.
pub open spec fn post_selection_moved(a: AppView, down: bool) -> AppView {
    match selected_feed(a) {
        Some(ch) => {
            let f = a.feeds[ch];
            let sel = if down {
                next_selection(f.selected, f.posts.len())
            } else {
                previous_selection(f.selected, f.posts.len())
            };
            AppView { feeds: a.feeds.update(ch, FeedView { selected: sel, ..f }), ..a }
        },
        None => a,
    }
}

/// What one key press does to a session, and whether the session ends.
pub open spec fn stepped(a: AppView, key: Key) -> (AppView, bool) {
    match a.screen {
        Screen::MainMenu => match key {
            Key::Char('q') => (on_screen(a, Screen::Exiting), false),
            Key::Char('j') => (AppView { selected: next_selection(a.selected, a.index.len()), ..a }, false),
            Key::Char('k') => (AppView { selected: previous_selection(a.selected, a.index.len()), ..a }, false),
            Key::Enter => (on_screen(a, Screen::FeedMenu), false),
            _ => (a, false),
        },
        Screen::Exiting => match key {
            Key::Char('y') => (a, true),
            Key::Char('n') | Key::Char('q') => (on_screen(a, Screen::MainMenu), false),
            _ => (a, false),
        },
        Screen::Reader => match key {
            Key::Char('q') => (on_screen(a, Screen::FeedMenu), false),
            Key::Char('j') => (scrolled(a, false), false),
            Key::Char('k') => (scrolled(a, true), false),
            _ => (a, false),
        },
        Screen::FeedMenu => match key {
            Key::Char('q') => (on_screen(a, Screen::MainMenu), false),
            Key::Char('j') => (post_selection_moved(a, true), false),
            Key::Char('k') => (post_selection_moved(a, false), false),
            Key::Enter => if selected_post(a) is Some {
                (on_screen(a, Screen::Reader), false)
            } else {
                (a, false)
            },
            _ => (a, false),
        },
    }
}

impl Index {
    /// An empty index whose selection starts on the first entry.
    pub fn new() -> (r: Index)
        ensures
            r@ == (Seq::<MetaView>::empty(), Some(0usize)),
    {
        let r = Index { meta: Vec::new(), selected: Some(0) };
        proof {
            assert(r@.0 =~= Seq::<MetaView>::empty());
        }
        r
    }

    /// Records a feed at the end of the index.
    pub fn add(&mut self, meta: Metadata)
        ensures
            final(self)@ == (old(self)@.0.push(meta@), old(self)@.1),
    {
        let ghost mv = meta@;
        self.meta.push(meta);
        proof {
            assert(self@.0 =~= old(self)@.0.push(mv));
        }
    }
}

impl Index {
    /// Whether an entry carries the identity `id`.
    pub fn has_id(&self, id: &str) -> (r: bool)
        ensures
            r == has_entry(self@.0, id@),
    {
        let mut i: usize = 0;
        while i < self.meta.len()
            invariant
                i <= self.meta@.len(),
                forall|j: int| 0 <= j < i ==> self@.0[j].0 != id@,
            decreases self.meta@.len() - i,
        {
            if same_text(self.meta[i].id.as_str(), id) {
                proof {
                    assert(self@.0[i as int].0 == id@);
                }
                return true;
            }
            i = i + 1;
        }
        false
    }
}

impl App {
    /// A session on the main menu, with an empty index and no feeds.
    pub fn new() -> (r: App)
        ensures
            r@.screen == Screen::MainMenu,
            r@.index.len() == 0,
            r@.selected == Some(0usize),
            r@.feeds.len() == 0,
            one_feed_per_entry(r@),
    {
        App { current_screen: Screen::MainMenu, index: Index::new(), feeds: Vec::new() }
    }

    /// The selected feed, where the main menu's selection names one.
    fn selected_feed_position(&self) -> (r: Option<usize>)
        ensures
            r matches Some(ch) ==> selected_feed(self@) == Some(ch as int),
            r is None ==> selected_feed(self@) is None,
    {
        match self.index.selected {
            Some(ch) => if ch < self.feeds.len() { Some(ch) } else { None },
            None => None,
        }
    }

    /// The selected post of the selected feed, where there is one.
    fn selected_post_position(&self) -> (r: Option<(usize, usize)>)
        ensures
            r matches Some((ch, p)) ==> selected_post(self@) == Some((ch as int, p as int)),
            r is None ==> selected_post(self@) is None,
    {
        match self.selected_feed_position() {
            Some(ch) => match self.feeds[ch].selected {
                Some(p) => if p < self.feeds[ch].posts.len() { Some((ch, p)) } else { None },
                None => None,
            },
            None => None,
        }
    }

    /// Scrolls the post being read one step up or down.
    fn scroll_selected(&mut self, up: bool)
        ensures
            final(self)@ == scrolled(old(self)@, up),
    {
        match self.selected_post_position() {
            Some((ch, p)) => {
                let o = self.feeds[ch].posts[p].scroll.0;
                if up {
                    self.feeds[ch].posts[p].scroll_up();
                } else if o < u16::MAX {
                    self.feeds[ch].posts[p].scroll_down();
                } else {
                    return;
                }
                proof {
                    let a = old(self)@;
                    let o2 = if up { if o > 0 { (o - 1) as u16 } else { 0 } } else { (o + 1) as u16 };
                    let t = with_offset(a, ch as int, p as int, o2);
                    assert(self@.feeds[ch as int].posts =~= t.feeds[ch as int].posts);
                    assert(self@.feeds =~= t.feeds);
                }
            },
            None => {},
        }
    }

    /// Moves the post selection of the selected feed.
    fn move_post_selection(&mut self, down: bool)
        ensures
            final(self)@ == post_selection_moved(old(self)@, down),
    {
        match self.selected_feed_position() {
            Some(ch) => {
                let n = self.feeds[ch].posts.len();
                let sel = self.feeds[ch].selected;
                let next = if down { select_next(sel, n) } else { select_previous(sel, n) };
                self.feeds[ch].selected = next;
                proof {
                    assert(self@.feeds[ch as int].posts =~= old(self)@.feeds[ch as int].posts);
                    assert(self@.feeds =~= post_selection_moved(old(self)@, down).feeds);
                }
            },
            None => {},
        }
    }

    /// Takes in the bytes of a fetched feed. On success a feed whose
    /// identity is new to the index is recorded at the end of the index and
    /// of the feeds, while one already indexed changes neither; the feed is
    /// saved in the store unless a record of that identity is stored already.
    /// Returns whether the store took the record. On failure nothing changes.
    pub fn add_channel(&mut self, xml: &[u8], store: &mut Store<RussFeed>) -> (r: Result<bool, FeedError>)
        requires
            old(store).wf(),
        ensures
            final(store).wf(),
            r is Ok == ingested(xml@) is Ok,
            r matches Err(e) ==> ingested(xml@) == Err::<FeedView, FeedError>(e)
                && final(self)@ == old(self)@ && final(store)@ == old(store)@,
            r matches Ok(written) ==> final(self)@ == indexed(old(self)@, ingested(xml@)->Ok_0),
            r matches Ok(written) ==> stored(old(store)@, final(store)@, ingested(xml@)->Ok_0, written),
            one_feed_per_entry(old(self)@) ==> one_feed_per_entry(final(self)@),
    {
        let feed = match parse_feed(xml) {
            Ok(f) => f,
            Err(e) => return Err(e),
        };
        let ghost fv = feed@;
        if !self.index.has_id(feed.meta.id.as_str()) {
            self.index.add(feed.meta.duplicate());
            self.feeds.push(feed.duplicate());
            proof {
                assert(self@.index =~= old(self)@.index.push(fv.meta));
                assert(self@.feeds =~= old(self)@.feeds.push(fv));
            }
        }
        let id = feed.meta.id.clone();
        let written = store.save(id, feed);
        proof {
            if written {
                assert(store@.remove(fv.meta.0) =~= old(store)@.remove(fv.meta.0));
            }
        }
        Ok(written)
    }

    /// Takes as the session's index the entries of `index` whose record the
    /// store holds, in order and with the selection fitted to them, and as
    /// the session's feeds those records: an entry without a record leaves
    /// the index with it, so every feed keeps the position of its entry.
    pub fn load_all(&mut self, index: Index, store: &Store<RussFeed>)
        requires
            store.wf(),
        ensures
            final(self)@ == loaded(old(self)@, index@.0, index.selected, store@),
            one_feed_per_entry(final(self)@),
            forall|i: int| 0 <= i < final(self)@.feeds.len() ==> store@.dom().contains(
                #[trigger] final(self)@.index[i].0,
            ) && final(self)@.feeds[i] == store@[final(self)@.index[i].0]@,
    {
        let ghost ms = index@.0;
        let mut meta: Vec<Metadata> = Vec::new();
        let mut feeds: Vec<RussFeed> = Vec::new();
        let mut i: usize = 0;
        while i < index.meta.len()
            invariant
                i <= ms.len(),
                ms == index@.0,
                store.wf(),
                meta@.map_values(|m: Metadata| m@) == kept(ms.subrange(0, i as int), store@),
                feeds@.map_values(|f: RussFeed| f@) == resolved(ms.subrange(0, i as int), store@),
            decreases ms.len() - i,
        {
            proof {
                assert(ms.subrange(0, i + 1).drop_last() =~= ms.subrange(0, i as int));
                assert(index.meta@[i as int]@ == ms[i as int]);
            }
            let ghost meta_before = meta@.map_values(|m: Metadata| m@);
            let ghost feeds_before = feeds@.map_values(|f: RussFeed| f@);
            match store.load(index.meta[i].id.as_str()) {
                Ok(f) => {
                    feeds.push(f.duplicate());
                    meta.push(index.meta[i].duplicate());
                    proof {
                        assert(feeds@.map_values(|f: RussFeed| f@) =~= feeds_before.push(
                            store@[ms[i as int].0]@,
                        ));
                        assert(meta@.map_values(|m: Metadata| m@) =~= meta_before.push(ms[i as int]));
                    }
                },
                Err(_) => {},
            }
            i = i + 1;
        }
        proof {
            assert(ms.subrange(0, i as int) =~= ms);
            lemma_kept_resolved(ms, store@);
        }
        let n = meta.len();
        self.index = Index { meta, selected: fit_selection(index.selected, n) };
        self.feeds = feeds;
    }

    /// Handles one key press; returns whether the session ends.
    pub fn handle_key(&mut self, key: Key) -> (quit: bool)
        ensures
            (final(self)@, quit) == stepped(old(self)@, key),
            one_feed_per_entry(old(self)@) ==> one_feed_per_entry(final(self)@),
    {
        match self.current_screen {
            Screen::MainMenu => match key {
                Key::Char('q') => {
                    self.current_screen = Screen::Exiting;
                },
                Key::Char('j') => {
                    self.index.selected = select_next(self.index.selected, self.index.meta.len());
                },
                Key::Char('k') => {
                    self.index.selected = select_previous(self.index.selected, self.index.meta.len());
                },
                Key::Enter => {
                    self.current_screen = Screen::FeedMenu;
                },
                _ => {},
            },
            Screen::Exiting => match key {
                Key::Char('y') => {
                    return true;
                },
                Key::Char('n') | Key::Char('q') => {
                    self.current_screen = Screen::MainMenu;
                },
                _ => {},
            },
            Screen::Reader => match key {
                Key::Char('q') => {
                    self.current_screen = Screen::FeedMenu;
                },
                Key::Char('j') => {
                    self.scroll_selected(false);
                },
                Key::Char('k') => {
                    self.scroll_selected(true);
                },
                _ => {},
            },
            Screen::FeedMenu => match key {
                Key::Char('q') => {
                    self.current_screen = Screen::MainMenu;
                },
                Key::Char('j') => {
                    self.move_post_selection(true);
                },
                Key::Char('k') => {
                    self.move_post_selection(false);
                },
                Key::Enter => {
                    if self.selected_post_position().is_some() {
                        self.current_screen = Screen::Reader;
                    }
                },
                _ => {},
            },
        }
        false
    }
}

} // verus!
