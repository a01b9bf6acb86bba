use sdef::{known_elements, validate_strict, Error};

#[test]
fn known_elements_count_matches_modeled_dtd() {
    // The sdef DTD defines 25 element types at the modelled macOS release.
    assert_eq!(known_elements().len(), 25);
}

#[test]
fn known_elements_are_sorted_for_binary_search() {
    let mut sorted: Vec<&str> = known_elements();
    sorted.sort_unstable();
    assert_eq!(
        known_elements(),
        sorted,
        "known elements must stay sorted: binary search relies on it"
    );
}

#[test]
fn known_elements_have_no_duplicates() {
    let mut seen: Vec<&str> = known_elements();
    seen.sort_unstable();
    seen.dedup();
    assert_eq!(seen.len(), known_elements().len(), "duplicates in the known elements");
}

#[test]
fn validate_accepts_minimal_valid_dictionary() {
    let xml = r#"<?xml version="1.0"?>
            <dictionary>
                <suite name="S" code="SUIT">
                    <command name="c" code="SUITcmd1"/>
                </suite>
            </dictionary>"#;
    validate_strict(xml).expect("minimal valid dictionary must pass strict mode");
}

#[test]
fn validate_rejects_unknown_element_with_local_name() {
    let xml = r#"<?xml version="1.0"?>
            <dictionary>
                <suite name="S" code="SUIT">
                    <vendor-thing/>
                </suite>
            </dictionary>"#;
    match validate_strict(xml) {
        Err(Error::UnknownElement { name }) => {
            assert_eq!(name, "vendor-thing");
        }
        other => panic!("expected UnknownElement, got {other:?}"),
    }
}

#[test]
fn validate_rejects_xi_include_by_prefix() {
    let xml = r#"<?xml version="1.0"?>
            <dictionary xmlns:xi="http://www.w3.org/2001/XInclude">
                <suite name="S" code="SUIT">
                    <xi:include href="other.sdef"/>
                </suite>
            </dictionary>"#;
    match validate_strict(xml) {
        Err(Error::XIncludeUnsupported) => {}
        other => panic!("expected XIncludeUnsupported, got {other:?}"),
    }
}

#[test]
fn validate_rejects_unknown_accessor_style() {
    let xml = r#"<?xml version="1.0"?>
            <dictionary>
                <suite name="S" code="SUIT">
                    <class name="thing" code="thng">
                        <element type="bit">
                            <accessor style="weird"/>
                        </element>
                    </class>
                </suite>
            </dictionary>"#;
    match validate_strict(xml) {
        Err(Error::UnknownAttributeValue {
            element,
            attribute,
            value,
        }) => {
            assert_eq!(element, "accessor");
            assert_eq!(attribute, "style");
            assert_eq!(value, "weird");
        }
        other => panic!("expected UnknownAttributeValue, got {other:?}"),
    }
}

#[test]
fn validate_rejects_unknown_access_value() {
    let xml = r#"<?xml version="1.0"?>
            <dictionary>
                <suite name="S" code="SUIT">
                    <class name="thing" code="thng">
                        <element type="bit" access="execute"/>
                    </class>
                </suite>
            </dictionary>"#;
    match validate_strict(xml) {
        Err(Error::UnknownAttributeValue {
            element,
            attribute,
            value,
        }) => {
            assert_eq!(element, "element");
            assert_eq!(attribute, "access");
            assert_eq!(value, "execute");
        }
        other => panic!("expected UnknownAttributeValue, got {other:?}"),
    }
}

#[test]
fn validate_accepts_canonical_closed_enum_values() {
    let xml = r#"<?xml version="1.0"?>
            <dictionary>
                <suite name="S" code="SUIT">
                    <class name="thing" code="thng">
                        <element type="bit" access="rw">
                            <accessor style="index"/>
                        </element>
                    </class>
                </suite>
            </dictionary>"#;
    validate_strict(xml).expect("canonical closed-enum values must pass strict mode");
}
