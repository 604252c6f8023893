use plexi::marketplace::{check_marketplace_section, submission_lines, MarketplaceSection, SubmissionSummary};

#[test]
fn publishing_needs_a_publisher() {
    assert!(check_marketplace_section(None).unwrap_err().starts_with("error: no [marketplace] section in manifest.toml."));
    let none = MarketplaceSection { publisher: None, private: false };
    assert_eq!(
        check_marketplace_section(Some(&none)),
        Err("error: [marketplace].publisher is required to publish".to_string())
    );
    let empty = MarketplaceSection { publisher: Some(String::new()), private: false };
    assert!(check_marketplace_section(Some(&empty)).is_err());
    let ok = MarketplaceSection { publisher: Some("acme".into()), private: false };
    assert_eq!(check_marketplace_section(Some(&ok)), Ok(None));
    let private = MarketplaceSection { publisher: Some("acme".into()), private: true };
    assert!(check_marketplace_section(Some(&private)).unwrap().unwrap().starts_with("warning: [marketplace].visibility is \"private\""));
}

#[test]
fn submissions_are_summarised() {
    let mut s = SubmissionSummary {
        id: "notes".into(),
        version: "1.0".into(),
        publisher: "acme".into(),
        visibility: "public".into(),
        price: "free".into(),
        requires_min: None,
        requires_max: None,
        trust: "community".into(),
        artifact: "/tmp/notes.plexipkg".into(),
        checksum: "abc".into(),
    };
    assert_eq!(
        submission_lines(&s),
        vec![
            "Prepared submission for 'notes' v1.0:",
            "  publisher:  acme",
            "  visibility: public",
            "  price:      free",
            "  trust:      community",
            "  artifact:   /tmp/notes.plexipkg",
            "  checksum:   abc",
        ]
    );
    s.requires_max = Some("2.0".into());
    assert_eq!(submission_lines(&s)[4], "  requires:   Plexi any .. 2.0");
}
