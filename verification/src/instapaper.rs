//! Submission candidates for the read-later service: validating an item into
//! a `Link` and resolving its URL to absolute form.

use vstd::prelude::*;

use crate::errors::PipelineError;
use crate::errors::UrlError;
use crate::syndication::Item;
use crate::syndication::ItemView;
use crate::syndication::opt_view;
use crate::urls::UrlClass;
use crate::urls::classify_url;
use crate::urls::join_url;
use crate::urls::url_join_of;
use crate::urls::url_parse_class;

verus! {

/// A validated, titled submission candidate. Its URL must be absolute before
/// submission; an empty title is treated as absent.
#[derive(Debug)]
pub struct Link {
    pub url: String,
    pub title: Option<String>,
}

/// The mathematical value of a `Link`.
pub ghost struct LinkView {
    pub url: Seq<char>,
    pub title: Option<Seq<char>>,
}

impl View for Link {
    type V = LinkView;

    open spec fn view(&self) -> LinkView {
        LinkView { url: self.url@, title: opt_view(self.title) }
    }
}

impl Clone for Link {
    /// The copy stands for the same link.
    fn clone(&self) -> (r: Link)
        ensures
            r@ == self@,
    {
        Link { url: self.url.clone(), title: crate::syndication::clone_opt_string(&self.title) }
    }
}

/// Credentials for the read-later service.
#[derive(Debug)]
pub struct Credentials {
    pub username: String,
    pub password: String,
}

/// The candidate an item yields: an item without a link can never become
/// one, and an empty title is dropped.
pub open spec fn spec_link_of_item(it: ItemView) -> Result<LinkView, PipelineError> {
    match it.link {
        None => Err(PipelineError::MissingLink),
        Some(u) => Ok(
            LinkView {
                url: u,
                title: (match it.title {
                    Some(t) => if t.len() > 0 {
                        Some(t)
                    } else {
                        None
                    },
                    None => None,
                }),
            },
        ),
    }
}

/// What resolving a link against a base string yields: an absolute URL is
/// kept unchanged; a relative reference is joined against the base by
/// standard base+relative resolution; anything else is invalid.
pub open spec fn spec_fix_url_schema(l: LinkView, base: Seq<char>) -> Result<LinkView, UrlError> {
    match url_parse_class(l.url) {
        UrlClass::Absolute => Ok(l),
        UrlClass::Relative => match url_join_of(base, l.url) {
            Some(u) => Ok(LinkView { url: u, title: l.title }),
            None => Err(UrlError::JoinFailed),
        },
        UrlClass::Invalid => Err(UrlError::Invalid),
    }
}

impl Link {
    /// Validate an item into a submission candidate.
    pub fn from_item(item: Item) -> (r: Result<Link, PipelineError>)
        ensures
            (match r {
                Ok(l) => spec_link_of_item(item@) == Ok::<LinkView, PipelineError>(l@),
                Err(e) => spec_link_of_item(item@) == Err::<LinkView, PipelineError>(e),
            }),
    {
        match item.link {
            None => Err(PipelineError::MissingLink),
            Some(url) => {
                let title = match item.title {
                    Some(t) => if t.as_str().is_empty() {
                        None
                    } else {
                        Some(t)
                    },
                    None => None,
                };
                Ok(Link { url, title })
            },
        }
    }

    /// Resolve this link's URL: keep it when it is already absolute, join it
    /// against `feed_base` when it is a relative reference.
    pub fn fix_url_schema(self, feed_base: &str) -> (r: Result<Link, UrlError>)
        ensures
            (match r {
                Ok(l) => spec_fix_url_schema(self@, feed_base@) == Ok::<LinkView, UrlError>(l@),
                Err(e) => spec_fix_url_schema(self@, feed_base@) == Err::<LinkView, UrlError>(e),
            }),
    {
        match classify_url(self.url.as_str()) {
            UrlClass::Absolute => Ok(self),
            UrlClass::Relative => match join_url(feed_base, self.url.as_str()) {
                Some(url) => Ok(Link { url, title: self.title }),
                None => Err(UrlError::JoinFailed),
            },
            UrlClass::Invalid => Err(UrlError::Invalid),
        }
    }
}

} // verus!
