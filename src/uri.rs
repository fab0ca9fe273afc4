//! Magnet links: the scheme, the decoded query and the list of fields.

use serde_urlencoded::de::Error as DecodeError;
use std::str::FromStr;
use vstd::prelude::*;
use vstd::string::StrSliceExecFns;

use crate::error::{Error, ErrorView};
use crate::field::{field_of, Field, FieldView};
use crate::text::{chars_of, has_prefix, starts_with};
use crate::topic::{Topic, TopicView};

verus! {

/// The key/value pairs that an `application/x-www-form-urlencoded` text
/// decodes to, in order, or `None` where the decoder refuses it.
pub uninterp spec fn decoded_query(s: Seq<char>) -> Option<Seq<(Seq<char>, Seq<char>)>>;

/// Decoded pairs as plain values.
pub open spec fn pairs_view(ps: Seq<(String, String)>) -> Seq<(Seq<char>, Seq<char>)> {
    ps.map_values(|p: (String, String)| (p.0@, p.1@))
}

/// Relies on `serde_urlencoded::from_str` into `Vec<(String, String)>`: it
/// percent-decodes the query string into its key/value pairs in order of
/// appearance, and what it gives (or whether it fails) depends on the text
/// alone.
#[verifier::external_body]
fn decode_query(s: &str) -> (r: Result<Vec<(String, String)>, DecodeError>)
    ensures
        match r {
            Ok(v) => decoded_query(s@) == Some(pairs_view(v@)),
            Err(_) => decoded_query(s@) is None,
        },
{
    serde_urlencoded::from_str::<Vec<(String, String)>>(s)
}

/// Fields as plain values.
pub open spec fn fields_view(fs: Seq<Field>) -> Seq<FieldView> {
    fs.map_values(|f: Field| f@)
}

/// The fields that the pairs `ps` make, one for each pair and in the same
/// order, or the error of the first pair that is refused.
pub open spec fn fields_of(ps: Seq<(Seq<char>, Seq<char>)>) -> Result<Seq<FieldView>, ErrorView>
    decreases ps.len(),
{
    if ps.len() == 0 {
        Ok(Seq::empty())
    } else {
        match fields_of(ps.drop_last()) {
            Err(e) => Err(e),
            Ok(fs) => match field_of(ps.last().0, ps.last().1) {
                Ok(f) => Ok(fs.push(f)),
                Err(e) => Err(e),
            },
        }
    }
}

/// What the text `s` of a magnet link denotes: after the prefix `magnet:?`,
/// the fields of its decoded query.
pub open spec fn magnet_of(s: Seq<char>) -> Result<Seq<FieldView>, ErrorView> {
    if !has_prefix(s, "magnet:?"@) {
        Err(ErrorView::InvalidScheme)
    } else {
        match decoded_query(s.skip(8)) {
            None => Err(ErrorView::UrlEncode),
            Some(ps) => fields_of(ps),
        }
    }
}

/// The topic of the first exact-topic field, if any.
pub open spec fn first_topic(fs: Seq<FieldView>) -> Option<TopicView>
    decreases fs.len(),
{
    if fs.len() == 0 {
        None
    } else {
        match fs[0] {
            FieldView::ExactTopic(t) => Some(t),
            _ => first_topic(fs.drop_first()),
        }
    }
}

proof fn lemma_error_of_prefix(ps: Seq<(Seq<char>, Seq<char>)>, k: int)
    requires
        0 <= k <= ps.len(),
        fields_of(ps.take(k)) is Err,
    ensures
        fields_of(ps) == fields_of(ps.take(k)),
    decreases ps.len(),
{
    if k < ps.len() {
        assert(ps.drop_last().take(k) =~= ps.take(k));
        lemma_error_of_prefix(ps.drop_last(), k);
    } else {
        assert(ps.take(k) =~= ps);
    }
}

/// Without the prefix `magnet:?` a text is refused for its scheme, whatever
/// follows.
pub proof fn lemma_scheme_required(s: Seq<char>)
    requires
        !has_prefix(s, "magnet:?"@),
    ensures
        magnet_of(s) == Err::<Seq<FieldView>, ErrorView>(ErrorView::InvalidScheme),
{
}

proof fn lemma_fields_of_ok(ps: Seq<(Seq<char>, Seq<char>)>)
    requires
        fields_of(ps) is Ok,
    ensures
        fields_of(ps)->Ok_0.len() == ps.len(),
        forall|i: int|
            0 <= i < ps.len() ==> field_of(#[trigger] ps[i].0, ps[i].1)
                == Ok::<FieldView, ErrorView>(fields_of(ps)->Ok_0[i]),
    decreases ps.len(),
{
    if ps.len() > 0 {
        lemma_fields_of_ok(ps.drop_last());
        assert forall|i: int| 0 <= i < ps.len() implies field_of(#[trigger] ps[i].0, ps[i].1)
            == Ok::<FieldView, ErrorView>(fields_of(ps)->Ok_0[i]) by {
            if i < ps.len() - 1 {
                assert(ps.drop_last()[i] == ps[i]);
            }
        }
    }
}

/// A magnet link that is accepted has one field per decoded pair of its
/// query, in the order of the pairs, each the field that its own pair makes.
pub proof fn lemma_fields_follow_pairs(s: Seq<char>)
    requires
        magnet_of(s) is Ok,
    ensures
        decoded_query(s.skip(8)) is Some,
        magnet_of(s)->Ok_0.len() == decoded_query(s.skip(8))->Some_0.len(),
        forall|i: int|
            0 <= i < magnet_of(s)->Ok_0.len() ==> {
                let pair = #[trigger] decoded_query(s.skip(8))->Some_0[i];
                field_of(pair.0, pair.1) == Ok::<FieldView, ErrorView>(magnet_of(s)->Ok_0[i])
            },
{
    lemma_fields_of_ok(decoded_query(s.skip(8))->Some_0);
}

/// A parsed magnet link: its fields in the order of the query.
#[derive(Debug, PartialEq, Eq)]
pub struct MagnetUri {
    fields: Vec<Field>,
}

impl View for MagnetUri {
    type V = Seq<FieldView>;

    closed spec fn view(&self) -> Seq<FieldView> {
        fields_view(self.fields@)
    }
}

impl MagnetUri {
    /// A magnet link made of the given fields.
    pub fn from_fields(fields: Vec<Field>) -> (r: Self)
        ensures
            r@ == fields_view(fields@),
    {
        MagnetUri { fields }
    }

    /// The fields, in order.
    pub fn fields(&self) -> (r: &Vec<Field>)
        ensures
            fields_view(r@) == self@,
    {
        &self.fields
    }

    /// The topic of the first exact-topic field, if there is one.
    pub fn topic(&self) -> (r: Option<Topic>)
        ensures
            match r {
                Some(t) => first_topic(self@) == Some(t@),
                None => first_topic(self@) is None,
            },
    {
        let ghost fs = self@;
        let mut i: usize = 0;
        assert(fs.skip(0) =~= fs);
        while i < self.fields.len()
            invariant
                fs == fields_view(self.fields@),
                i <= self.fields.len(),
                first_topic(fs) == first_topic(fs.skip(i as int)),
            decreases self.fields.len() - i,
        {
            assert(fs.skip(i as int)[0] == self.fields@[i as int]@);
            assert(fs.skip(i as int).drop_first() =~= fs.skip(i + 1));
            if let Field::ExactTopic(t) = &self.fields[i] {
                return Some(t.clone());
            }
            i += 1;
        }
        None
    }

    /// Reads a magnet link: the prefix `magnet:?`, then a query string whose
    /// pairs each become one field.
    pub fn parse(s: &str) -> (r: Result<MagnetUri, Error>)
        ensures
            match r {
                Ok(u) => magnet_of(s@) == Ok::<Seq<FieldView>, ErrorView>(u@),
                Err(e) => magnet_of(s@) == Err::<Seq<FieldView>, ErrorView>(e@),
            },
            !has_prefix(s@, "magnet:?"@) ==> r matches Err(Error::InvalidScheme),
    {
        let cs = chars_of(s);
        if !starts_with(&cs, "magnet:?") {
            return Err(Error::InvalidScheme);
        }
        proof {
            reveal_strlit("magnet:?");
        }
        let n = s.unicode_len();
        let rest = s.substring_char(8, n);
        assert(rest@ =~= s@.skip(8));
        let pairs = match decode_query(rest) {
            Ok(p) => p,
            Err(e) => {
                return Err(Error::UrlEncode(e));
            },
        };
        let ghost ps = pairs_view(pairs@);
        let mut fields: Vec<Field> = Vec::new();
        let mut i: usize = 0;
        assert(ps.take(0) =~= Seq::<(Seq<char>, Seq<char>)>::empty());
        assert(fields_view(fields@) =~= Seq::<FieldView>::empty());
        while i < pairs.len()
            invariant
                ps == pairs_view(pairs@),
                has_prefix(s@, "magnet:?"@),
                "magnet:?"@.len() == 8,
                decoded_query(s@.skip(8)) == Some(ps),
                i <= pairs.len(),
                fields_of(ps.take(i as int)) == Ok::<Seq<FieldView>, ErrorView>(
                    fields_view(fields@),
                ),
            decreases pairs.len() - i,
        {
            assert(ps.take(i + 1).drop_last() =~= ps.take(i as int));
            assert(ps.take(i + 1).last() == (pairs@[i as int].0@, pairs@[i as int].1@));
            match Field::from_pair(&pairs[i]) {
                Ok(f) => {
                    let ghost before = fields@;
                    fields.push(f);
                    assert(fields_view(fields@) =~= fields_view(before).push(f@));
                },
                Err(e) => {
                    proof {
                        lemma_error_of_prefix(ps, i + 1);
                    }
                    return Err(e);
                },
            }
            i += 1;
        }
        assert(ps.take(i as int) =~= ps);
        Ok(MagnetUri { fields })
    }
}

impl FromStr for MagnetUri {
    type Err = Error;

    /// Reads a magnet link, as [`MagnetUri::parse`] does.
    fn from_str(s: &str) -> (r: Result<MagnetUri, Error>)
        ensures
            match r {
                Ok(u) => magnet_of(s@) == Ok::<Seq<FieldView>, ErrorView>(u@),
                Err(e) => magnet_of(s@) == Err::<Seq<FieldView>, ErrorView>(e@),
            },
            !has_prefix(s@, "magnet:?"@) ==> r matches Err(Error::InvalidScheme),
    {
        MagnetUri::parse(s)
    }
}

} // verus!
