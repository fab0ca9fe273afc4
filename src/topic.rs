//! Exact topics: the `urn:<namespace>:<value>` names of content by hash.

use std::str::FromStr;
use vstd::prelude::*;
use vstd::string::StrSliceExecFns;

use crate::error::{Error, ErrorView};
use crate::text::{chars_of, has_prefix, span_is, split_on, split_spans, starts_with};

verus! {

/// The hash that a magnet link names its content by, one variant per URN
/// namespace.
#[derive(Debug, PartialEq, Eq)]
pub enum Topic {
    AICH(String),
    BitPrint(String),
    BitTorrent(String),
    ED2K(String),
    Kazaa(String),
    MD5(String),
    SHA1(String),
    TTHash(String),
    /// A namespace outside the known ones, for callers that accept it;
    /// [`Topic::parse`] never gives it.
    Unknown(String),
}

/// A [`Topic`] as plain values.
pub enum TopicView {
    AICH(Seq<char>),
    BitPrint(Seq<char>),
    BitTorrent(Seq<char>),
    ED2K(Seq<char>),
    Kazaa(Seq<char>),
    MD5(Seq<char>),
    SHA1(Seq<char>),
    TTHash(Seq<char>),
    Unknown(Seq<char>),
}

impl View for Topic {
    type V = TopicView;

    open spec fn view(&self) -> TopicView {
        match self {
            Topic::AICH(v) => TopicView::AICH(v@),
            Topic::BitPrint(v) => TopicView::BitPrint(v@),
            Topic::BitTorrent(v) => TopicView::BitTorrent(v@),
            Topic::ED2K(v) => TopicView::ED2K(v@),
            Topic::Kazaa(v) => TopicView::Kazaa(v@),
            Topic::MD5(v) => TopicView::MD5(v@),
            Topic::SHA1(v) => TopicView::SHA1(v@),
            Topic::TTHash(v) => TopicView::TTHash(v@),
            Topic::Unknown(v) => TopicView::Unknown(v@),
        }
    }
}

impl Clone for Topic {
    fn clone(&self) -> (r: Self)
        ensures
            r == *self,
    {
        match self {
            Topic::AICH(v) => Topic::AICH(v.clone()),
            Topic::BitPrint(v) => Topic::BitPrint(v.clone()),
            Topic::BitTorrent(v) => Topic::BitTorrent(v.clone()),
            Topic::ED2K(v) => Topic::ED2K(v.clone()),
            Topic::Kazaa(v) => Topic::Kazaa(v.clone()),
            Topic::MD5(v) => Topic::MD5(v.clone()),
            Topic::SHA1(v) => Topic::SHA1(v.clone()),
            Topic::TTHash(v) => Topic::TTHash(v.clone()),
            Topic::Unknown(v) => Topic::Unknown(v.clone()),
        }
    }
}

/// The topic that a two-part URN `<namespace>:<value>` names, for the
/// namespaces that take one segment.
pub open spec fn hash_topic(namespace: Seq<char>, value: Seq<char>) -> Option<TopicView> {
    if namespace == "aich"@ {
        Some(TopicView::AICH(value))
    } else if namespace == "bitprint"@ {
        Some(TopicView::BitPrint(value))
    } else if namespace == "btih"@ {
        Some(TopicView::BitTorrent(value))
    } else if namespace == "ed2k"@ {
        Some(TopicView::ED2K(value))
    } else if namespace == "kzhash"@ {
        Some(TopicView::Kazaa(value))
    } else if namespace == "md5"@ {
        Some(TopicView::MD5(value))
    } else if namespace == "sha1"@ {
        Some(TopicView::SHA1(value))
    } else {
        None
    }
}

/// What the text `s` of an exact topic denotes. It must start with `urn:`;
/// the rest, split at each `:`, is either a known namespace and a value, or
/// `tree`, `tiger` and a value. An unknown namespace of two segments is
/// reported alone; every other refusal reports the whole text.
pub open spec fn topic_of(s: Seq<char>) -> Result<TopicView, ErrorView> {
    if !has_prefix(s, "urn:"@) {
        Err(ErrorView::InvalidTopic(s))
    } else {
        let segs = split_on(s.skip(4), ':');
        if segs.len() == 2 {
            match hash_topic(segs[0], segs[1]) {
                Some(t) => Ok(t),
                None => Err(ErrorView::InvalidTopic(segs[0])),
            }
        } else if segs.len() == 3 && segs[0] == "tree"@ && segs[1] == "tiger"@ {
            Ok(TopicView::TTHash(segs[2]))
        } else {
            Err(ErrorView::InvalidTopic(s))
        }
    }
}

/// The characters of `s` from `start` up to `end`, as a new string.
fn text_between(s: &str, start: usize, end: usize) -> (r: String)
    requires
        start <= end <= s@.len(),
    ensures
        r@ == s@.subrange(start as int, end as int),
{
    s.substring_char(start, end).to_owned()
}

impl Topic {
    /// Reads an exact topic (the value of an `xt` field).
    pub fn parse(s: &str) -> (r: Result<Topic, Error>)
        ensures
            match r {
                Ok(t) => topic_of(s@) == Ok::<TopicView, ErrorView>(t@),
                Err(e) => topic_of(s@) == Err::<TopicView, ErrorView>(e@),
            },
    {
        let cs = chars_of(s);
        if !starts_with(&cs, "urn:") {
            return Err(Error::InvalidTopic(s.to_owned()));
        }
        proof {
            reveal_strlit("urn:");
        }
        let spans = split_spans(&cs, 4, ':');
        assert(spans@.len() == split_on(s@.skip(4), ':').len());
        if spans.len() == 2 {
            let (a, b) = spans[0];
            let (c, e) = spans[1];
            assert(spans@[0].0 == a && spans@[1].0 == c);
            let value = text_between(s, c, e);
            if span_is(&cs, a, b, "aich") {
                Ok(Topic::AICH(value))
            } else if span_is(&cs, a, b, "bitprint") {
                Ok(Topic::BitPrint(value))
            } else if span_is(&cs, a, b, "btih") {
                Ok(Topic::BitTorrent(value))
            } else if span_is(&cs, a, b, "ed2k") {
                Ok(Topic::ED2K(value))
            } else if span_is(&cs, a, b, "kzhash") {
                Ok(Topic::Kazaa(value))
            } else if span_is(&cs, a, b, "md5") {
                Ok(Topic::MD5(value))
            } else if span_is(&cs, a, b, "sha1") {
                Ok(Topic::SHA1(value))
            } else {
                Err(Error::InvalidTopic(text_between(s, a, b)))
            }
        } else if spans.len() == 3 && span_is(&cs, spans[0].0, spans[0].1, "tree") && span_is(
            &cs,
            spans[1].0,
            spans[1].1,
            "tiger",
        ) {
            let (c, e) = spans[2];
            assert(spans@[2].0 == c);
            Ok(Topic::TTHash(text_between(s, c, e)))
        } else {
            Err(Error::InvalidTopic(s.to_owned()))
        }
    }
}

impl FromStr for Topic {
    type Err = Error;

    /// Reads an exact topic, as [`Topic::parse`] does.
    fn from_str(s: &str) -> (r: Result<Topic, Error>)
        ensures
            match r {
                Ok(t) => topic_of(s@) == Ok::<TopicView, ErrorView>(t@),
                Err(e) => topic_of(s@) == Err::<TopicView, ErrorView>(e@),
            },
    {
        Topic::parse(s)
    }
}

} // verus!
