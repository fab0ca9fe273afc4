//! Fields: one typed value for each `key=value` pair of a magnet link.

use vstd::prelude::*;

use crate::error::{Error, ErrorView};
use crate::text::{chars_of, has_prefix, parse_u64, parsed_u64, span_is, starts_with};
use crate::topic::{topic_of, Topic, TopicView};

verus! {

/// One `key=value` pair of a magnet link, by the meaning of its key.
#[derive(Debug, Clone, PartialEq, Eq)]
pub enum Field {
    AcceptableSource(String),
    DisplayName(String),
    Extension(String, String),
    ExactTopic(Topic),
    KeywordTopic(String),
    Length(u64),
    ManifestTopic(String),
    Source(String),
    Tracker(String),
    Unknown(String, String),
}

/// A [`Field`] as plain values.
pub enum FieldView {
    AcceptableSource(Seq<char>),
    DisplayName(Seq<char>),
    Extension(Seq<char>, Seq<char>),
    ExactTopic(TopicView),
    KeywordTopic(Seq<char>),
    Length(u64),
    ManifestTopic(Seq<char>),
    Source(Seq<char>),
    Tracker(Seq<char>),
    Unknown(Seq<char>, Seq<char>),
}

impl View for Field {
    type V = FieldView;

    open spec fn view(&self) -> FieldView {
        match self {
            Field::AcceptableSource(v) => FieldView::AcceptableSource(v@),
            Field::DisplayName(v) => FieldView::DisplayName(v@),
            Field::Extension(k, v) => FieldView::Extension(k@, v@),
            Field::ExactTopic(t) => FieldView::ExactTopic(t@),
            Field::KeywordTopic(v) => FieldView::KeywordTopic(v@),
            Field::Length(n) => FieldView::Length(*n),
            Field::ManifestTopic(v) => FieldView::ManifestTopic(v@),
            Field::Source(v) => FieldView::Source(v@),
            Field::Tracker(v) => FieldView::Tracker(v@),
            Field::Unknown(k, v) => FieldView::Unknown(k@, v@),
        }
    }
}

/// The field that the pair `key=value` makes. Keys are matched exactly;
/// only `xl` (a length) and `xt` (an exact topic) can be refused.
pub open spec fn field_of(key: Seq<char>, value: Seq<char>) -> Result<FieldView, ErrorView> {
    if key == "as"@ {
        Ok(FieldView::AcceptableSource(value))
    } else if key == "dn"@ {
        Ok(FieldView::DisplayName(value))
    } else if key == "kt"@ {
        Ok(FieldView::KeywordTopic(value))
    } else if key == "mt"@ {
        Ok(FieldView::ManifestTopic(value))
    } else if key == "tr"@ {
        Ok(FieldView::Tracker(value))
    } else if key == "xl"@ {
        match parsed_u64(value) {
            Some(n) => Ok(FieldView::Length(n)),
            None => Err(ErrorView::InvalidField(key, value)),
        }
    } else if key == "xs"@ {
        Ok(FieldView::Source(value))
    } else if key == "xt"@ {
        match topic_of(value) {
            Ok(t) => Ok(FieldView::ExactTopic(t)),
            Err(e) => Err(e),
        }
    } else if has_prefix(key, "x."@) {
        Ok(FieldView::Extension(key, value))
    } else {
        Ok(FieldView::Unknown(key, value))
    }
}

/// The text that a field of one of the keys `as`, `dn`, `kt`, `mt`, `tr`,
/// `xs` carries.
pub open spec fn plain_value(f: FieldView) -> Option<Seq<char>> {
    match f {
        FieldView::AcceptableSource(v) => Some(v),
        FieldView::DisplayName(v) => Some(v),
        FieldView::KeywordTopic(v) => Some(v),
        FieldView::ManifestTopic(v) => Some(v),
        FieldView::Tracker(v) => Some(v),
        FieldView::Source(v) => Some(v),
        _ => None,
    }
}

/// A field of `as`, `dn`, `kt`, `mt`, `tr` or `xs` always succeeds and
/// carries the value exactly as given.
pub proof fn lemma_plain_keys_keep_value(key: Seq<char>, value: Seq<char>)
    requires
        key == "as"@ || key == "dn"@ || key == "kt"@ || key == "mt"@ || key == "tr"@ || key
            == "xs"@,
    ensures
        field_of(key, value) is Ok,
        plain_value(field_of(key, value)->Ok_0) == Some(value),
{
    reveal_strlit("as");
    reveal_strlit("dn");
    reveal_strlit("kt");
    reveal_strlit("mt");
    reveal_strlit("tr");
    reveal_strlit("xl");
    reveal_strlit("xs");
    reveal_strlit("xt");
    if key == "dn"@ {
        assert(key[0] == 'd' && "as"@[0] == 'a');
    } else if key == "kt"@ {
        assert(key[0] == 'k' && "as"@[0] == 'a' && "dn"@[0] == 'd');
    } else if key == "mt"@ {
        assert(key[0] == 'm' && "as"@[0] == 'a' && "dn"@[0] == 'd' && "kt"@[0] == 'k');
    } else if key == "tr"@ {
        assert(key[0] == 't' && "as"@[0] == 'a' && "dn"@[0] == 'd' && "kt"@[0] == 'k'
            && "mt"@[0] == 'm');
    } else if key == "xs"@ {
        assert(key[0] == 'x' && "as"@[0] == 'a' && "dn"@[0] == 'd' && "kt"@[0] == 'k'
            && "mt"@[0] == 'm' && "tr"@[0] == 't' && key[1] == 's' && "xl"@[1] == 'l');
    }
}

/// Any key that starts with `x.` is a vendor extension, whatever its value.
pub proof fn lemma_extension_keys(key: Seq<char>, value: Seq<char>)
    requires
        has_prefix(key, "x."@),
    ensures
        field_of(key, value) == Ok::<FieldView, ErrorView>(FieldView::Extension(key, value)),
{
    reveal_strlit("x.");
    reveal_strlit("as");
    reveal_strlit("dn");
    reveal_strlit("kt");
    reveal_strlit("mt");
    reveal_strlit("tr");
    reveal_strlit("xl");
    reveal_strlit("xs");
    reveal_strlit("xt");
    assert(key[1] == key.take(2)[1]);
    assert(key[1] == '.');
    assert("as"@[1] == 's' && "dn"@[1] == 'n' && "kt"@[1] == 't' && "mt"@[1] == 't' && "tr"@[1]
        == 'r' && "xl"@[1] == 'l' && "xs"@[1] == 's' && "xt"@[1] == 't');
}

impl Field {
    /// The field that the pair `key=value` makes.
    pub fn new(key: &str, value: &str) -> (r: Result<Field, Error>)
        ensures
            match r {
                Ok(f) => field_of(key@, value@) == Ok::<FieldView, ErrorView>(f@),
                Err(e) => field_of(key@, value@) == Err::<FieldView, ErrorView>(e@),
            },
    {
        let kc = chars_of(key);
        let n = kc.len();
        assert(kc@.subrange(0, n as int) =~= key@);
        if span_is(&kc, 0, n, "as") {
            Ok(Field::AcceptableSource(value.to_owned()))
        } else if span_is(&kc, 0, n, "dn") {
            Ok(Field::DisplayName(value.to_owned()))
        } else if span_is(&kc, 0, n, "kt") {
            Ok(Field::KeywordTopic(value.to_owned()))
        } else if span_is(&kc, 0, n, "mt") {
            Ok(Field::ManifestTopic(value.to_owned()))
        } else if span_is(&kc, 0, n, "tr") {
            Ok(Field::Tracker(value.to_owned()))
        } else if span_is(&kc, 0, n, "xl") {
            match parse_u64(value) {
                Some(len) => Ok(Field::Length(len)),
                None => Err(Error::InvalidField(key.to_owned(), value.to_owned())),
            }
        } else if span_is(&kc, 0, n, "xs") {
            Ok(Field::Source(value.to_owned()))
        } else if span_is(&kc, 0, n, "xt") {
            match Topic::parse(value) {
                Ok(t) => Ok(Field::ExactTopic(t)),
                Err(e) => Err(e),
            }
        } else if starts_with(&kc, "x.") {
            Ok(Field::Extension(key.to_owned(), value.to_owned()))
        } else {
            Ok(Field::Unknown(key.to_owned(), value.to_owned()))
        }
    }

    /// The field that a decoded `(key, value)` pair makes.
    pub fn from_pair(pair: &(String, String)) -> (r: Result<Field, Error>)
        ensures
            match r {
                Ok(f) => field_of(pair.0@, pair.1@) == Ok::<FieldView, ErrorView>(f@),
                Err(e) => field_of(pair.0@, pair.1@) == Err::<FieldView, ErrorView>(e@),
            },
    {
        Field::new(pair.0.as_str(), pair.1.as_str())
    }
}

} // verus!
