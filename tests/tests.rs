use std::str::FromStr;

use magneturi::{parse_u64, Error, Field, MagnetUri, Topic};

const BTIH: &str = "99ab87be389e5487ff626162a5a5988ce696574a";

fn one_field(query: &str) -> Result<Field, Error> {
    let uri = MagnetUri::parse(&format!("magnet:?{}", query))?;
    assert_eq!(uri.fields().len(), 1);
    Ok(uri.fields()[0].clone())
}

fn invalid_topic(text: &str) -> Error {
    Error::InvalidTopic(text.to_string())
}

#[test]
fn parse_btih() {
    let uri = MagnetUri::from_str("magnet:?xt=urn:btih:99ab87be389e5487ff626162a5a5988ce696574a&dn=Name&tr=http%3A%2F%example.tracker.com%3A7777%2Fannounce");

    assert!(uri.is_ok())
}

#[test]
fn scheme_is_required() {
    for text in ["", "magnet:", "magnet:xt=urn:btih:abc", "http://example.com/?dn=x", " magnet:?dn=x", "MAGNET:?dn=x"] {
        assert_eq!(MagnetUri::parse(text), Err(Error::InvalidScheme), "{}", text);
    }
}

#[test]
fn empty_query_has_no_fields() {
    let uri = MagnetUri::parse("magnet:?").unwrap();
    assert!(uri.fields().is_empty());
    assert_eq!(uri.topic(), None);
}

#[test]
fn fields_follow_pair_order() {
    let uri = MagnetUri::parse("magnet:?tr=a&dn=b&tr=c&zz=d").unwrap();
    assert_eq!(
        uri.fields(),
        &vec![
            Field::Tracker("a".to_string()),
            Field::DisplayName("b".to_string()),
            Field::Tracker("c".to_string()),
            Field::Unknown("zz".to_string(), "d".to_string()),
        ]
    );
}

#[test]
fn plain_keys_keep_value() {
    let value = "some value";
    assert_eq!(Field::new("as", value).unwrap(), Field::AcceptableSource(value.to_string()));
    assert_eq!(Field::new("dn", value).unwrap(), Field::DisplayName(value.to_string()));
    assert_eq!(Field::new("kt", value).unwrap(), Field::KeywordTopic(value.to_string()));
    assert_eq!(Field::new("mt", value).unwrap(), Field::ManifestTopic(value.to_string()));
    assert_eq!(Field::new("tr", value).unwrap(), Field::Tracker(value.to_string()));
    assert_eq!(Field::new("xs", value).unwrap(), Field::Source(value.to_string()));
    assert_eq!(one_field("dn=a%20b+c").unwrap(), Field::DisplayName("a b c".to_string()));
}

#[test]
fn keys_are_case_sensitive() {
    assert_eq!(
        Field::new("DN", "x").unwrap(),
        Field::Unknown("DN".to_string(), "x".to_string())
    );
}

#[test]
fn length_field() {
    assert_eq!(one_field("xl=12345").unwrap(), Field::Length(12345));
    assert_eq!(
        one_field("xl=abc"),
        Err(Error::InvalidField("xl".to_string(), "abc".to_string()))
    );
    assert_eq!(
        one_field("xl=-1"),
        Err(Error::InvalidField("xl".to_string(), "-1".to_string()))
    );
    assert_eq!(Field::new("xl", "+7").unwrap(), Field::Length(7));
    assert_eq!(Field::new("xl", "0").unwrap(), Field::Length(0));
    assert_eq!(
        Field::new("xl", "18446744073709551615").unwrap(),
        Field::Length(u64::MAX)
    );
    for bad in ["", "+", "18446744073709551616", "99999999999999999999999", "12a", " 1", "1 "] {
        assert_eq!(
            Field::new("xl", bad),
            Err(Error::InvalidField("xl".to_string(), bad.to_string())),
            "{}",
            bad
        );
    }
}

#[test]
fn number_reading() {
    assert_eq!(parse_u64("42"), Some(42));
    assert_eq!(parse_u64("+0042"), Some(42));
    assert_eq!(parse_u64("4x2"), None);
    assert_eq!(parse_u64("-0"), None);
}

#[test]
fn exact_topic_btih() {
    let query = format!("xt=urn:btih:{}", BTIH);
    assert_eq!(
        one_field(&query).unwrap(),
        Field::ExactTopic(Topic::BitTorrent(BTIH.to_string()))
    );
}

#[test]
fn exact_topic_namespaces() {
    let cases: [(&str, fn(String) -> Topic); 7] = [
        ("aich", Topic::AICH),
        ("bitprint", Topic::BitPrint),
        ("btih", Topic::BitTorrent),
        ("ed2k", Topic::ED2K),
        ("kzhash", Topic::Kazaa),
        ("md5", Topic::MD5),
        ("sha1", Topic::SHA1),
    ];
    for (namespace, make) in cases {
        let text = format!("urn:{}:HASH", namespace);
        assert_eq!(Topic::parse(&text), Ok(make("HASH".to_string())), "{}", text);
    }
    assert_eq!(Topic::parse("urn:btih:"), Ok(Topic::BitTorrent(String::new())));
}

#[test]
fn exact_topic_tiger_tree() {
    assert_eq!(
        one_field("xt=urn:tree:tiger:ABCDEF").unwrap(),
        Field::ExactTopic(Topic::TTHash("ABCDEF".to_string()))
    );
    assert_eq!(
        one_field("xt=urn:tree:other:ABCDEF"),
        Err(invalid_topic("urn:tree:other:ABCDEF"))
    );
    assert_eq!(
        Topic::parse("urn:TREE:tiger:ABCDEF"),
        Err(invalid_topic("urn:TREE:tiger:ABCDEF"))
    );
}

#[test]
fn exact_topic_refusals() {
    assert_eq!(one_field("xt=notaurn"), Err(invalid_topic("notaurn")));
    assert_eq!(Topic::parse("urn:"), Err(invalid_topic("urn:")));
    assert_eq!(Topic::parse("urn:btih"), Err(invalid_topic("urn:btih")));
    assert_eq!(Topic::parse("urn:a:b:c:d"), Err(invalid_topic("urn:a:b:c:d")));
    assert_eq!(Topic::parse("URN:btih:abc"), Err(invalid_topic("URN:btih:abc")));
    assert_eq!(Topic::parse("urn:foo:abc"), Err(invalid_topic("foo")));
    assert_eq!(Topic::parse("urn:BTIH:abc"), Err(invalid_topic("BTIH")));
    assert_eq!(Topic::from_str("urn:md5:x"), Ok(Topic::MD5("x".to_string())));
}

#[test]
fn extension_keys() {
    assert_eq!(
        one_field("x.myapp=anything").unwrap(),
        Field::Extension("x.myapp".to_string(), "anything".to_string())
    );
    assert_eq!(
        Field::new("x.", "").unwrap(),
        Field::Extension("x.".to_string(), String::new())
    );
}

#[test]
fn unknown_keys_are_kept() {
    assert_eq!(
        one_field("zz=foo").unwrap(),
        Field::Unknown("zz".to_string(), "foo".to_string())
    );
    assert_eq!(
        Field::new("x", "1").unwrap(),
        Field::Unknown("x".to_string(), "1".to_string())
    );
}

#[test]
fn end_to_end() {
    let text = "magnet:?xt=urn:btih:99ab87be389e5487ff626162a5a5988ce696574a&dn=Name&tr=http%3A%2F%2Fexample.tracker.com%3A7777%2Fannounce";
    let uri = MagnetUri::parse(text).unwrap();
    assert_eq!(
        uri.fields(),
        &vec![
            Field::ExactTopic(Topic::BitTorrent(BTIH.to_string())),
            Field::DisplayName("Name".to_string()),
            Field::Tracker("http://example.tracker.com:7777/announce".to_string()),
        ]
    );
    assert_eq!(uri.topic(), Some(Topic::BitTorrent(BTIH.to_string())));
}

#[test]
fn first_error_aborts() {
    assert_eq!(
        MagnetUri::parse("magnet:?dn=a&xl=x&xt=bad"),
        Err(Error::InvalidField("xl".to_string(), "x".to_string()))
    );
    assert_eq!(
        MagnetUri::parse("magnet:?dn=a&xt=bad&xl=x"),
        Err(invalid_topic("bad"))
    );
}

#[test]
fn topic_is_first_exact_topic() {
    let uri = MagnetUri::from_fields(vec![
        Field::DisplayName("n".to_string()),
        Field::ExactTopic(Topic::SHA1("one".to_string())),
        Field::ExactTopic(Topic::MD5("two".to_string())),
    ]);
    assert_eq!(uri.topic(), Some(Topic::SHA1("one".to_string())));
    assert_eq!(uri.fields().len(), 3);
    let none = MagnetUri::from_fields(vec![Field::Length(3)]);
    assert_eq!(none.topic(), None);
}

#[test]
fn pair_form() {
    let pair = ("tr".to_string(), "udp://t".to_string());
    assert_eq!(Field::from_pair(&pair).unwrap(), Field::Tracker("udp://t".to_string()));
}
