use scancode::import::{
    companion_file_name, from_scancode_database, is_metadata_entry, metadata_entries,
    SourceDocument,
};
use scancode::models::{MalformedDocument, ScancodeError};

fn minimal_yaml(key: &str) -> String {
    [
        &format!("key: {}", key),
        "short_name: Minimal",
        "name: Minimal License",
        "category: Permissive",
        "owner: Nobody",
    ]
    .join("\n")
}

#[test]
fn metadata_entries_filter_by_extension() {
    let names: Vec<String> = vec![
        "gpl-3.0.yml".into(),
        "gpl-3.0.LICENSE".into(),
        "README".into(),
        "mit.yml".into(),
        "notes.txt".into(),
    ];
    let picked = metadata_entries(&names);
    assert_eq!(picked, vec!["gpl-3.0.yml".to_string(), "mit.yml".to_string()]);
}

#[test]
fn index_file_is_always_skipped() {
    assert!(!is_metadata_entry("index.yml"));
    assert!(is_metadata_entry("mit.yml"));
    assert!(!is_metadata_entry("mit.txt"));
    assert!(!is_metadata_entry(".yml"));
    let names: Vec<String> = vec!["index.yml".into(), "mit.yml".into()];
    let picked = metadata_entries(&names);
    assert_eq!(picked, vec!["mit.yml".to_string()]);
}

#[test]
fn companion_name_replaces_extension() {
    assert_eq!(companion_file_name("gpl-3.0.yml"), "gpl-3.0.LICENSE");
    assert_eq!(companion_file_name("a.b.yml"), "a.b.LICENSE");
}

#[test]
fn directory_with_missing_companion_yields_empty_text() {
    let docs = vec![SourceDocument {
        name: "gpl-3.0.yml".into(),
        metadata: [
            "key: gpl-3.0",
            "short_name: GPL 3.0",
            "name: GNU General Public License 3.0",
            "category: Copyleft",
            "owner: Free Software Foundation (FSF)",
        ]
        .join("\n"),
        text: None,
    }];
    let licenses = from_scancode_database(&docs).unwrap();
    assert_eq!(licenses.len(), 1);
    assert!(!licenses[0].is_exception);
    assert_eq!(licenses[0].text, "");
}

#[test]
fn manifest_is_skipped_and_exception_flag_kept() {
    let names: Vec<String> = vec!["gpl-2.0-library.yml".into(), "index.yml".into()];
    let picked = metadata_entries(&names);
    assert_eq!(picked, vec!["gpl-2.0-library.yml".to_string()]);
    let docs: Vec<SourceDocument> = picked
        .into_iter()
        .map(|name| SourceDocument {
            name,
            metadata: [
                "key: gpl-2.0-library",
                "short_name: GPL 2.0 with Library exception",
                "name: GNU General Public License 2.0 with Library exception",
                "category: Copyleft Limited",
                "owner: Grammatica",
                "is_exception: yes",
            ]
            .join("\n"),
            text: None,
        })
        .collect();
    let licenses = from_scancode_database(&docs).unwrap();
    assert_eq!(licenses.len(), 1);
    assert!(licenses[0].is_exception);
}

#[test]
fn companion_text_is_attached_verbatim() {
    let docs = vec![SourceDocument {
        name: "mit.yml".into(),
        metadata: minimal_yaml("mit"),
        text: Some("Permission is hereby granted...\n".into()),
    }];
    let licenses = from_scancode_database(&docs).unwrap();
    assert_eq!(licenses[0].text, "Permission is hereby granted...\n");
}

#[test]
fn one_malformed_document_fails_the_whole_import() {
    for n in [2usize, 5, 20] {
        for bad in 0..n {
            let docs: Vec<SourceDocument> = (0..n)
                .map(|i| SourceDocument {
                    name: format!("lic-{}.yml", i),
                    metadata: if i == bad {
                        "key: [broken".to_string()
                    } else {
                        minimal_yaml(&format!("lic-{}", i))
                    },
                    text: None,
                })
                .collect();
            let result = from_scancode_database(&docs);
            match result {
                Err(ScancodeError::RecordInvalid { path, cause }) => {
                    assert_eq!(path, format!("lic-{}.yml", bad));
                    assert!(matches!(cause, MalformedDocument::Syntax));
                }
                _ => panic!("expected a fail-fast import error"),
            }
        }
    }
}

#[test]
fn import_keeps_listing_order() {
    let docs: Vec<SourceDocument> = (0..10)
        .map(|i| SourceDocument {
            name: format!("lic-{}.yml", i),
            metadata: minimal_yaml(&format!("lic-{}", i)),
            text: None,
        })
        .collect();
    let licenses = from_scancode_database(&docs).unwrap();
    assert_eq!(licenses.len(), 10);
    for (i, license) in licenses.iter().enumerate() {
        assert_eq!(license.key, format!("lic-{}", i));
    }
}

#[test]
fn deserialize_all_licenses_from_scancode_licensedb() {
    let docs: Vec<SourceDocument> = (0..1001)
        .map(|i| SourceDocument {
            name: format!("lic-{}.yml", i),
            metadata: minimal_yaml(&format!("lic-{}", i)),
            text: Some(format!("license text {}", i)),
        })
        .collect();
    let licenses = from_scancode_database(&docs).unwrap();
    assert!(licenses.len() > 1000);
}
