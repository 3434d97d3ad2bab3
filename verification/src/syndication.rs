//! Normalizing the two feed formats into one model.
//!
//! A document is first attempted as RSS. Only the specific "this is not an
//! RSS document" signal triggers a retry as Atom; a document that is RSS but
//! broken inside is surfaced at once, never reinterpreted. The `rss` and
//! `atom_syndication` crates do the XML parsing; the mapping into the common
//! model, including the choice among an Atom element's links, is this
//! module's own, verified logic.

use core::str::FromStr;
use vstd::prelude::*;

use crate::errors::FeedFormat;
use crate::errors::ParseError;

verus! {

/// The views of a sequence of viewable values.
pub open spec fn views_of<T: View>(s: Seq<T>) -> Seq<T::V> {
    s.map_values(|x: T| x@)
}

/// The character sequences of an optional string.
pub open spec fn opt_view(o: Option<String>) -> Option<Seq<char>> {
    match o {
        Some(s) => Some(s@),
        None => None,
    }
}

/// One entry of a feed, before validation. A field is `None` exactly when it
/// is absent in the source document.
#[derive(Debug)]
pub struct Item {
    pub title: Option<String>,
    pub pub_date: Option<String>,
    pub link: Option<String>,
}

/// The mathematical value of an `Item`.
pub ghost struct ItemView {
    pub title: Option<Seq<char>>,
    pub pub_date: Option<Seq<char>>,
    pub link: Option<Seq<char>>,
}

impl View for Item {
    type V = ItemView;

    open spec fn view(&self) -> ItemView {
        ItemView {
            title: opt_view(self.title),
            pub_date: opt_view(self.pub_date),
            link: opt_view(self.link),
        }
    }
}

/// An owned copy of an optional string, with the same characters.
pub fn clone_opt_string(o: &Option<String>) -> (r: Option<String>)
    ensures
        opt_view(r) == opt_view(*o),
{
    match o {
        Some(s) => Some(s.clone()),
        None => None,
    }
}

impl Clone for Item {
    /// The copy stands for the same item.
    fn clone(&self) -> (r: Item)
        ensures
            r@ == self@,
    {
        Item {
            title: clone_opt_string(&self.title),
            pub_date: clone_opt_string(&self.pub_date),
            link: clone_opt_string(&self.link),
        }
    }
}

/// A feed normalized from either format. `items` keeps the source document's
/// order verbatim; the pipeline, not the parser, decides processing order.
#[derive(Debug)]
pub struct Feed {
    pub title: String,
    pub description: Option<String>,
    pub last_update: Option<String>,
    pub link: Option<String>,
    pub items: Vec<Item>,
}

/// The mathematical value of a `Feed`.
pub ghost struct FeedView {
    pub title: Seq<char>,
    pub description: Option<Seq<char>>,
    pub last_update: Option<Seq<char>>,
    pub link: Option<Seq<char>>,
    pub items: Seq<ItemView>,
}

impl View for Feed {
    type V = FeedView;

    open spec fn view(&self) -> FeedView {
        FeedView {
            title: self.title@,
            description: opt_view(self.description),
            last_update: opt_view(self.last_update),
            link: opt_view(self.link),
            items: views_of(self.items@),
        }
    }
}

/// An RSS channel as the `rss` crate reports it, reduced to the fields the
/// mapping reads.
#[derive(Debug)]
pub struct RawChannel {
    pub title: String,
    pub description: String,
    pub link: String,
    pub last_build_date: Option<String>,
    pub items: Vec<Item>,
}

/// The mathematical value of a `RawChannel`.
pub ghost struct RawChannelView {
    pub title: Seq<char>,
    pub description: Seq<char>,
    pub link: Seq<char>,
    pub last_build_date: Option<Seq<char>>,
    pub items: Seq<ItemView>,
}

impl View for RawChannel {
    type V = RawChannelView;

    open spec fn view(&self) -> RawChannelView {
        RawChannelView {
            title: self.title@,
            description: self.description@,
            link: self.link@,
            last_build_date: opt_view(self.last_build_date),
            items: views_of(self.items@),
        }
    }
}

/// How an RSS parse attempt failed.
#[derive(Clone, Copy, Debug, PartialEq, Eq, Structural)]
pub enum RssFailureKind {
    /// The document does not open with an RSS root: the fallback signal.
    NotRss,
    /// The document is RSS but malformed inside: fatal, no fallback.
    Malformed,
}

/// An RSS parse failure, with the parser's message.
#[derive(Debug)]
pub struct RssFailure {
    pub kind: RssFailureKind,
    pub cause: String,
}

/// One link element of an Atom feed or entry.
#[derive(Debug)]
pub struct AtomLink {
    pub rel: String,
    pub href: String,
}

/// The mathematical value of an `AtomLink`.
pub ghost struct AtomLinkView {
    pub rel: Seq<char>,
    pub href: Seq<char>,
}

impl View for AtomLink {
    type V = AtomLinkView;

    open spec fn view(&self) -> AtomLinkView {
        AtomLinkView { rel: self.rel@, href: self.href@ }
    }
}

/// One entry of an Atom document, reduced to the fields the mapping reads.
#[derive(Debug)]
pub struct AtomEntry {
    pub title: String,
    pub published: Option<String>,
    pub links: Vec<AtomLink>,
}

/// The mathematical value of an `AtomEntry`.
pub ghost struct AtomEntryView {
    pub title: Seq<char>,
    pub published: Option<Seq<char>>,
    pub links: Seq<AtomLinkView>,
}

impl View for AtomEntry {
    type V = AtomEntryView;

    open spec fn view(&self) -> AtomEntryView {
        AtomEntryView {
            title: self.title@,
            published: opt_view(self.published),
            links: views_of(self.links@),
        }
    }
}

/// An Atom document's document-level fields, as the mapping reads them.
#[derive(Debug)]
pub struct AtomHead {
    pub title: String,
    pub subtitle: Option<String>,
    pub updated: String,
    pub links: Vec<AtomLink>,
}

/// The mathematical value of an `AtomHead`.
pub ghost struct AtomHeadView {
    pub title: Seq<char>,
    pub subtitle: Option<Seq<char>>,
    pub updated: Seq<char>,
    pub links: Seq<AtomLinkView>,
}

impl View for AtomHead {
    type V = AtomHeadView;

    open spec fn view(&self) -> AtomHeadView {
        AtomHeadView {
            title: self.title@,
            subtitle: opt_view(self.subtitle),
            updated: self.updated@,
            links: views_of(self.links@),
        }
    }
}

/// What parsing `text` as RSS yields: the channel's relevant fields, or the
/// failure kind. The result depends on the characters alone.
pub uninterp spec fn rss_parse_of(text: Seq<char>) -> Result<RawChannelView, RssFailureKind>;

/// What parsing `text` as Atom yields at document level: title, subtitle,
/// updated timestamp and link elements, or `None` when the text is not a
/// well-formed Atom document. The result depends on the characters alone.
pub uninterp spec fn atom_head_of(text: Seq<char>) -> Option<AtomHeadView>;

/// The entries that parsing `text` as Atom yields, in document order, or
/// `None` when the text is not a well-formed Atom document. The result
/// depends on the characters alone.
pub uninterp spec fn atom_entries_of(text: Seq<char>) -> Option<Seq<AtomEntryView>>;

/// Relies on `rss::Channel::from_str` and the channel and item accessors:
/// the parsed channel's fields, carried over one for one, with
/// `rss::Error::InvalidStartTag` — the "not an RSS document" signal — told
/// apart from every other failure.
#[verifier::external_body]
fn parse_rss(text: &str) -> (r: Result<RawChannel, RssFailure>)
    ensures
        (match r {
            Ok(c) => rss_parse_of(text@) == Ok::<RawChannelView, RssFailureKind>(c@),
            Err(f) => rss_parse_of(text@) == Err::<RawChannelView, RssFailureKind>(f.kind),
        }),
{
    let conv = |i: &rss::Item| Item { title: i.title().map(str::to_owned), pub_date: i.pub_date().map(str::to_owned), link: i.link().map(str::to_owned) };
    match rss::Channel::from_str(text) {
        Ok(c) => Ok(RawChannel {
            title: c.title().to_owned(),
            description: c.description().to_owned(),
            link: c.link().to_owned(),
            last_build_date: c.last_build_date().map(str::to_owned),
            items: c.items().iter().map(conv).collect(),
        }),
        Err(e) => Err(RssFailure {
            kind: if matches!(e, rss::Error::InvalidStartTag) { RssFailureKind::NotRss } else { RssFailureKind::Malformed },
            cause: e.to_string(),
        }),
    }
}

/// Relies on `atom_syndication::Feed::from_str` and the feed and link
/// accessors: the document-level fields carried over one for one, the
/// updated timestamp serialized in RFC 3339 form; the same parse also
/// decides whether the document has entries to report at all.
#[verifier::external_body]
fn parse_atom_head(text: &str) -> (r: Result<AtomHead, String>)
    ensures
        (match r {
            Ok(h) => atom_head_of(text@) == Some(h@) && atom_entries_of(text@) is Some,
            Err(_) => atom_head_of(text@) is None && atom_entries_of(text@) is None,
        }),
{
    let conv = |ls: &[atom_syndication::Link]| -> Vec<AtomLink> { ls.iter().map(|l| AtomLink { rel: l.rel().to_owned(), href: l.href().to_owned() }).collect() };
    match atom_syndication::Feed::from_str(text) {
        Ok(f) => Ok(AtomHead {
            title: f.title().as_str().to_owned(),
            subtitle: f.subtitle().map(|t| t.as_str().to_owned()),
            updated: f.updated().to_rfc3339(),
            links: conv(f.links()),
        }),
        Err(e) => Err(e.to_string()),
    }
}

/// Relies on `atom_syndication::Feed::from_str` and the entry and link
/// accessors: each entry's title, published timestamp (RFC 3339) and link
/// elements carried over one for one, in document order.
#[verifier::external_body]
fn parse_atom_entries(text: &str) -> (r: Option<Vec<AtomEntry>>)
    ensures
        (match r {
            Some(es) => atom_entries_of(text@) == Some(views_of(es@)),
            None => atom_entries_of(text@) is None,
        }),
{
    let conv = |ls: &[atom_syndication::Link]| -> Vec<AtomLink> { ls.iter().map(|l| AtomLink { rel: l.rel().to_owned(), href: l.href().to_owned() }).collect() };
    match atom_syndication::Feed::from_str(text) {
        Ok(f) => Some(f.entries().iter().map(|e| AtomEntry { title: e.title().as_str().to_owned(), published: e.published().map(|d| d.to_rfc3339()), links: conv(e.links()) }).collect()),
        Err(_) => None,
    }
}

/// The first link, from position `i` on, whose relation is `"alternate"`.
pub open spec fn find_alt_from(links: Seq<AtomLinkView>, i: int) -> Option<Seq<char>>
    decreases links.len() - i,
{
    if i < 0 || i >= links.len() {
        None
    } else if links[i].rel == "alternate"@ {
        Some(links[i].href)
    } else {
        find_alt_from(links, i + 1)
    }
}

/// Whether no link declares a relation.
pub open spec fn all_without_rel(links: Seq<AtomLinkView>) -> bool {
    forall|i: int| 0 <= i < links.len() ==> (#[trigger] links[i]).rel.len() == 0
}

/// The link chosen for an Atom feed or entry: the first whose relation is
/// `"alternate"`; else, when no link declares a relation at all, the first
/// link; else none.
pub open spec fn spec_find_alternate(links: Seq<AtomLinkView>) -> Option<Seq<char>> {
    if find_alt_from(links, 0) is Some {
        find_alt_from(links, 0)
    } else if links.len() > 0 && all_without_rel(links) {
        Some(links[0].href)
    } else {
        None
    }
}

/// Choose the link of an Atom feed or entry.
pub fn find_alternate(links: &Vec<AtomLink>) -> (r: Option<String>)
    ensures
        (match r {
            Some(href) => spec_find_alternate(views_of(links@)) == Some(href@),
            None => spec_find_alternate(views_of(links@)) is None,
        }),
{
    let ghost v = views_of(links@);
    let alt: String = "alternate".to_owned();
    let n = links.len();
    let mut i: usize = 0;
    while i < n
        invariant
            i <= n,
            n == links.len(),
            v == views_of(links@),
            alt@ == "alternate"@,
            find_alt_from(v, 0) == find_alt_from(v, i as int),
        decreases n - i,
    {
        if links[i].rel == alt {
            assert(v[i as int].rel == "alternate"@);
            return Some(links[i].href.clone());
        }
        assert(v[i as int].rel != "alternate"@);
        i += 1;
    }
    assert(find_alt_from(v, 0) is None);
    let mut j: usize = 0;
    while j < n
        invariant
            j <= n,
            n == links.len(),
            v == views_of(links@),
            find_alt_from(v, 0) is None,
            forall|k: int| 0 <= k < j ==> (#[trigger] v[k]).rel.len() == 0,
        decreases n - j,
    {
        if !links[j].rel.as_str().is_empty() {
            assert(v[j as int].rel.len() != 0);
            assert(!all_without_rel(v));
            return None;
        }
        j += 1;
    }
    if n > 0 {
        assert(all_without_rel(v));
        Some(links[0].href.clone())
    } else {
        None
    }
}

/// The feed an RSS channel maps to: the fields carry over directly; RSS
/// always declares a description and a channel link.
pub open spec fn spec_feed_of_rss(c: RawChannelView) -> FeedView {
    FeedView {
        title: c.title,
        description: Some(c.description),
        last_update: c.last_build_date,
        link: Some(c.link),
        items: c.items,
    }
}

/// The item an Atom entry maps to: the title is always declared, and the
/// link is chosen among the entry's link elements.
pub open spec fn spec_item_of_entry(e: AtomEntryView) -> ItemView {
    ItemView { title: Some(e.title), pub_date: e.published, link: spec_find_alternate(e.links) }
}

/// The feed an Atom document maps to: subtitle becomes the description, the
/// updated timestamp is always declared, and the feed link is chosen among
/// the document's link elements.
pub open spec fn spec_feed_of_atom(h: AtomHeadView, entries: Seq<AtomEntryView>) -> FeedView {
    FeedView {
        title: h.title,
        description: h.subtitle,
        last_update: Some(h.updated),
        link: spec_find_alternate(h.links),
        items: entries.map_values(|e: AtomEntryView| spec_item_of_entry(e)),
    }
}

impl Item {
    /// Normalize one Atom entry.
    pub fn from_entry(e: &AtomEntry) -> (it: Item)
        ensures
            it@ == spec_item_of_entry(e@),
    {
        let published = match &e.published {
            Some(d) => Some(d.clone()),
            None => None,
        };
        Item { title: Some(e.title.clone()), pub_date: published, link: find_alternate(&e.links) }
    }
}

impl Feed {
    /// Normalize an RSS channel.
    pub fn from_rss(c: RawChannel) -> (f: Feed)
        ensures
            f@ == spec_feed_of_rss(c@),
    {
        Feed {
            title: c.title,
            description: Some(c.description),
            last_update: c.last_build_date,
            link: Some(c.link),
            items: c.items,
        }
    }

    /// Normalize an Atom document from its document-level fields and its
    /// entries.
    pub fn from_atom(head: AtomHead, entries: Vec<AtomEntry>) -> (f: Feed)
        ensures
            f@ == spec_feed_of_atom(head@, views_of(entries@)),
    {
        let ghost ev = views_of(entries@);
        let link = find_alternate(&head.links);
        let mut items: Vec<Item> = Vec::new();
        let n = entries.len();
        let mut i: usize = 0;
        proof {
            assert(views_of(items@) =~= Seq::<ItemView>::empty());
            assert(ev.subrange(0, 0).map_values(|e: AtomEntryView| spec_item_of_entry(e))
                =~= Seq::<ItemView>::empty());
        }
        while i < n
            invariant
                i <= n,
                n == entries.len(),
                ev == views_of(entries@),
                views_of(items@) == ev.subrange(0, i as int).map_values(
                    |e: AtomEntryView| spec_item_of_entry(e),
                ),
            decreases n - i,
        {
            let it = Item::from_entry(&entries[i]);
            let ghost items_pre = items@;
            items.push(it);
            proof {
                assert(views_of(items@) =~= views_of(items_pre).push(it@));
                assert(ev.subrange(0, i as int + 1) =~= ev.subrange(0, i as int).push(
                    ev[i as int],
                ));
                assert(ev.subrange(0, i as int + 1).map_values(
                    |e: AtomEntryView| spec_item_of_entry(e),
                ) =~= ev.subrange(0, i as int).map_values(
                    |e: AtomEntryView| spec_item_of_entry(e),
                ).push(spec_item_of_entry(ev[i as int])));
            }
            i += 1;
        }
        proof {
            assert(ev.subrange(0, n as int) =~= ev);
        }
        Feed {
            title: head.title,
            description: head.subtitle,
            last_update: Some(head.updated),
            link,
            items,
        }
    }

    /// Parse a feed document: try RSS, and fall back to Atom only when the
    /// document's root signals that it is not RSS at all. A document that is
    /// RSS but malformed inside is surfaced at once, with no fallback.
    pub fn parse(text: &str) -> (r: Result<Feed, ParseError>)
        ensures
            (match rss_parse_of(text@) {
                Ok(c) => r matches Ok(f) && f@ == spec_feed_of_rss(c),
                Err(RssFailureKind::Malformed) => r matches Err(e) && (e matches
                ParseError::Malformed { format, .. } && format == FeedFormat::Rss),
                Err(RssFailureKind::NotRss) => (match (atom_head_of(text@), atom_entries_of(
                    text@,
                )) {
                    (Some(h), Some(es)) => r matches Ok(f) && f@ == spec_feed_of_atom(h, es),
                    _ => r matches Err(e) && e is BothFormatsFailed,
                }),
            }),
    {
        match parse_rss(text) {
            Ok(c) => Ok(Feed::from_rss(c)),
            Err(f) => match f.kind {
                RssFailureKind::Malformed => Err(
                    ParseError::Malformed { format: FeedFormat::Rss, cause: f.cause },
                ),
                RssFailureKind::NotRss => match parse_atom_head(text) {
                    Ok(head) => match parse_atom_entries(text) {
                        Some(entries) => Ok(Feed::from_atom(head, entries)),
                        None => unreached(),
                    },
                    Err(cause) => Err(ParseError::BothFormatsFailed { cause }),
                },
            },
        }
    }
}

} // verus!
