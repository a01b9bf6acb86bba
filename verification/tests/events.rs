use sdef::events::{ns_events, plain_events, AttrItem, XmlEvent};

fn describe(evs: &[XmlEvent]) -> Vec<String> {
    evs.iter()
        .map(|e| match e {
            XmlEvent::Open { name, attrs } => format!(
                "open {} {}",
                String::from_utf8_lossy(name),
                attrs.len()
            ),
            XmlEvent::Empty { name, attrs } => format!(
                "empty {} {}",
                String::from_utf8_lossy(name),
                attrs.len()
            ),
            XmlEvent::Close { name } => format!("close {}", String::from_utf8_lossy(name)),
            XmlEvent::Text { raw } => format!("text {}", String::from_utf8_lossy(raw)),
            XmlEvent::CData { raw } => format!("cdata {}", String::from_utf8_lossy(raw)),
            XmlEvent::Eof => "eof".to_string(),
            XmlEvent::Failed(_) => "failed".to_string(),
        })
        .collect()
}

#[test]
fn prelude_and_comments_are_left_out_of_the_stream() {
    let xml = r#"<?xml version="1.0"?><!DOCTYPE d><!--c--><d a="1&amp;2"><?pi x?>t<![CDATA[<c>]]></d>"#;
    let evs = plain_events(xml);
    assert_eq!(
        describe(&evs),
        vec!["open d 1", "text t", "cdata <c>", "close d", "eof"]
    );
    match &evs[0] {
        XmlEvent::Open { attrs, .. } => match &attrs[0] {
            AttrItem::Pair { key, value } => {
                assert_eq!(key.as_slice(), b"a");
                assert_eq!(value.as_slice(), b"1&amp;2");
            }
            AttrItem::Malformed(_) => panic!("attribute should be well-formed"),
        },
        _ => panic!("first event should open <d>"),
    }
}

#[test]
fn the_stream_stops_at_the_first_failure() {
    let evs = ns_events("<a></b><c/>");
    assert_eq!(describe(&evs), vec!["open a 0", "failed"]);
}

#[test]
fn malformed_attributes_are_kept_in_place() {
    let evs = plain_events(r#"<a x="1" x="2" y="3"/>"#);
    match &evs[0] {
        XmlEvent::Empty { attrs, .. } => {
            assert_eq!(attrs.len(), 3);
            assert!(matches!(attrs[0], AttrItem::Pair { .. }));
            assert!(matches!(attrs[1], AttrItem::Malformed(_)));
            assert!(matches!(attrs[2], AttrItem::Pair { .. }));
        }
        _ => panic!("expected an empty tag"),
    }
    assert!(matches!(evs.last(), Some(XmlEvent::Eof)));
}

#[test]
fn text_without_ampersand_reads_as_itself() {
    assert_eq!(sdef::text::decode_unescape(b"SUITcmd1 <x>"), Some("SUITcmd1 <x>".to_string()));
    assert_eq!(sdef::text::decode_unescape(b"a &amp; b"), Some("a & b".to_string()));
    assert_eq!(sdef::text::decode_unescape(&[0xff]), None);
}
