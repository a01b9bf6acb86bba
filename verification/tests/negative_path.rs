use sdef::{CocoaBooleanValue, Dictionary, Error};

#[test]
fn missing_required_attribute_surfaces_typed_error() {
    let xml = r#"<?xml version="1.0"?>
        <dictionary>
            <suite name="missing-code"/>
        </dictionary>"#;

    let err = xml
        .parse::<Dictionary>()
        .expect_err("missing required `code` on <suite> must error");
    assert!(
        matches!(err, Error::Xml(_)),
        "expected Error::Xml from missing #REQUIRED attr, got {err:?}"
    );
}

#[test]
fn empty_dictionary_parses_with_zero_suites() {
    let xml = r#"<?xml version="1.0"?>
        <dictionary></dictionary>"#;
    let dict: Dictionary = xml.parse().expect("empty dictionary must parse");
    assert!(dict.suites.is_empty());
}

#[test]
fn lowercase_cocoa_boolean_value_strict_rejects() {
    let xml = r#"<?xml version="1.0"?>
        <dictionary>
            <suite name="S" code="SUIT">
                <class name="thing" code="thng">
                    <property name="p" code="prop" type="boolean">
                        <cocoa boolean-value="yes"/>
                    </property>
                </class>
            </suite>
        </dictionary>"#;
    let err = Dictionary::from_str_strict(xml)
        .expect_err("lowercase boolean-value must be rejected in strict mode");
    match err {
        Error::UnknownAttributeValue {
            element,
            attribute,
            value,
        } => {
            assert_eq!(element, "cocoa");
            assert_eq!(attribute, "boolean-value");
            assert_eq!(value, "yes");
        }
        other => panic!("expected UnknownAttributeValue, got {other:?}"),
    }
}

#[test]
fn lowercase_cocoa_boolean_value_lenient_keeps_other() {
    let xml = r#"<?xml version="1.0"?>
        <dictionary>
            <suite name="S" code="SUIT">
                <class name="thing" code="thng">
                    <property name="p" code="prop" type="boolean">
                        <cocoa boolean-value="yes"/>
                    </property>
                </class>
            </suite>
        </dictionary>"#;
    let dict: Dictionary = xml.parse().expect("lenient must accept");
    let prop = &dict.suites[0].classes[0].properties[0];
    let cocoa = prop.cocoa.as_ref().expect("property has <cocoa>");
    assert_eq!(
        cocoa.boolean_value,
        Some(CocoaBooleanValue::Other("yes".to_owned()))
    );
}

#[test]
fn multiple_root_documentation_siblings_tolerated_in_lenient_mode() {
    let xml = r#"<?xml version="1.0"?>
        <dictionary>
            <documentation><html>One.</html></documentation>
            <documentation><html>Two.</html></documentation>
            <documentation><html>Three.</html></documentation>
            <suite name="S" code="SUIT">
                <command name="c" code="SUITcmd1"/>
            </suite>
        </dictionary>"#;
    let dict: Dictionary = xml
        .parse()
        .expect("lenient must tolerate dictionary-level documentation");
    assert_eq!(dict.suites.len(), 1);
    assert_eq!(dict.suites[0].commands[0].name, "c");
}

#[test]
fn html_with_entity_encoded_markup_parses_to_decoded_text() {
    let xml = r#"<?xml version="1.0"?>
        <dictionary>
            <suite name="S" code="SUIT">
                <documentation>
                    <html>&lt;b&gt;bold&lt;/b&gt; &amp; italic</html>
                </documentation>
                <command name="c" code="SUITcmd1"/>
            </suite>
        </dictionary>"#;
    let dict: Dictionary = xml.parse().expect("entity-encoded html must parse");
    let docs = &dict.suites[0].documentation;
    assert_eq!(docs.len(), 1);
    assert_eq!(docs[0].html.len(), 1);
    let body = &docs[0].html[0];
    assert!(
        body.contains("<b>") && body.contains("</b>") && body.contains("&"),
        "expected entity-decoded markup, got {body:?}"
    );
}

#[test]
fn html_with_cdata_section_parses() {
    let xml = "<?xml version=\"1.0\"?>\n\
        <dictionary>\n\
            <suite name=\"S\" code=\"SUIT\">\n\
                <documentation>\n\
                    <html><![CDATA[<b>bold</b> & italic]]></html>\n\
                </documentation>\n\
                <command name=\"c\" code=\"SUITcmd1\"/>\n\
            </suite>\n\
        </dictionary>";
    let dict: Dictionary = xml.parse().expect("cdata html must parse");
    let body = &dict.suites[0].documentation[0].html[0];
    assert!(
        body.contains("<b>") && body.contains("</b>"),
        "expected CDATA contents intact, got {body:?}"
    );
}
