use flame::error::FlameError;
use flame::flmctl::{required_application, split_documents};

#[test]
fn yaml_documents_are_split_and_trimmed() {
    let text = "metadata:\n  name: a\n---\n\n  \n---\nmetadata:\n  name: b\n";
    assert_eq!(
        split_documents(text),
        vec!["metadata:\n  name: a".to_string(), "metadata:\n  name: b".to_string()]
    );
    assert_eq!(split_documents(""), Vec::<String>::new());
    assert_eq!(split_documents("  one  "), vec!["one".to_string()]);
    assert_eq!(split_documents("a\n---\n---\nb"), vec!["a".to_string(), "---\nb".to_string()]);
}

#[test]
fn update_needs_an_application() {
    assert_eq!(required_application(&Some("app.yaml".to_string())).unwrap(), "app.yaml");
    match required_application(&None) {
        Err(FlameError::InvalidConfig(m)) => assert_eq!(m, "application is required"),
        _ => panic!("expected an invalid configuration"),
    }
}
