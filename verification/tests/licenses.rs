use realistic_mouse_jiggler::licenses::{
    count_matching_lines, filtered_body, filtered_credits_count, license_section_to_spdx, line_count,
    parse_used_by_line, shown_line_count, third_party_credit_entries, LicenseDocument, Page, ThirdPartyCredit,
};

#[test]
fn filters_license_body_by_matching_line() {
    let filtered = filtered_body("alpha\nbeta license\ngamma", "license");
    assert_eq!(filtered, "    2  beta license");
}

#[test]
fn parses_cargo_about_used_by_line() {
    let entry = parse_used_by_line(
        "- [`egui 0.35.0`](https://github.com/emilk/egui)",
        "MIT OR Apache-2.0",
    )
    .unwrap();
    assert_eq!(entry.name, "egui");
    assert_eq!(entry.version, "0.35.0");
    assert_eq!(entry.license, "MIT OR Apache-2.0");
    assert_eq!(entry.url, "https://github.com/emilk/egui");
}

#[test]
fn filter_is_case_insensitive_and_trimmed() {
    let text = "MIT License\r\nPermission is hereby granted\nTHE SOFTWARE IS PROVIDED\n";
    assert_eq!(filtered_body(text, "  software "), "    3  THE SOFTWARE IS PROVIDED");
    assert_eq!(count_matching_lines(text, "  software "), 1);
    assert_eq!(count_matching_lines(text, "i"), 3);
}

#[test]
fn empty_filter_shows_whole_document() {
    let text = "a\nb\n";
    assert_eq!(filtered_body(text, "   "), text);
    assert_eq!(count_matching_lines(text, ""), 0);
}

#[test]
fn filter_without_matches_says_so() {
    assert_eq!(filtered_body("alpha\nbeta", " Zeta"), "No matches for ' Zeta'.");
}

#[test]
fn filtered_lines_are_numbered_in_five_columns() {
    let mut text = String::new();
    for i in 0..12 {
        text.push_str(&format!("line {i}\n"));
    }
    assert_eq!(filtered_body(&text, "line 1"), "    2  line 1\n   11  line 10\n   12  line 11");
}

#[test]
fn line_count_follows_str_lines() {
    assert_eq!(line_count(""), 0);
    assert_eq!(line_count("one"), 1);
    assert_eq!(line_count("one\n"), 1);
    assert_eq!(line_count("one\r\ntwo\n\nfour"), 4);
}

#[test]
fn unparseable_used_by_lines_are_none() {
    assert_eq!(parse_used_by_line("* [`egui 0.35.0`](https://x)", "MIT"), None);
    assert_eq!(parse_used_by_line("- [`egui`](https://x)", "MIT"), None);
    assert_eq!(parse_used_by_line("- [`egui 1.0`](https://x", "MIT"), None);
    assert_eq!(parse_used_by_line("- [`egui 1.0` https://x)", "MIT"), None);
}

#[test]
fn version_is_after_last_space() {
    let entry = parse_used_by_line("- [`windows sys 0.52.0`](https://w)", "MIT").unwrap();
    assert_eq!(entry.name, "windows sys");
    assert_eq!(entry.version, "0.52.0");
}

#[test]
fn license_titles_map_to_spdx() {
    assert_eq!(license_section_to_spdx("Apache License 2.0"), "Apache-2.0");
    assert_eq!(license_section_to_spdx("BSD 3-Clause &quot;New&quot; or &quot;Revised&quot; License"), "BSD-3-Clause");
    assert_eq!(license_section_to_spdx("zlib License"), "Zlib");
    assert_eq!(license_section_to_spdx("Some &quot;Odd&quot; &amp; &lt;New&gt; License"), "Some \"Odd\" & <New> License");
}

const BUNDLE: &str = "# Third Party Licenses\n\
\n\
- [`ignored 1.0`](https://before.example)\n\
\n\
## License Texts\n\
\n\
### MIT License\n\
\n\
Used by:\n\
\n\
- [`zeta 1.0.0`](https://zeta.example)\n\
- [`alpha 2.0.0`](https://alpha2.example)\n\
- [`alpha 1.0.0`](https://alpha1.example)\n\
\n\
```\n\
- [`inside 9.9.9`](https://code.example)\n\
```\n\
\n\
### Apache License 2.0\n\
\n\
Used by:\n\
\n\
- [`alpha 1.0.0`](https://alpha-apache.example)\n\
---\n\
- [`after 1.0.0`](https://after.example)\n";

#[test]
fn credits_are_read_from_license_sections_and_sorted() {
    let entries = third_party_credit_entries(BUNDLE);
    let names: Vec<(String, String, String)> = entries
        .iter()
        .map(|c| (c.name.clone(), c.version.clone(), c.license.clone()))
        .collect();
    assert_eq!(
        names,
        vec![
            ("alpha".to_string(), "1.0.0".to_string(), "Apache-2.0".to_string()),
            ("alpha".to_string(), "1.0.0".to_string(), "MIT".to_string()),
            ("alpha".to_string(), "2.0.0".to_string(), "MIT".to_string()),
            ("zeta".to_string(), "1.0.0".to_string(), "MIT".to_string()),
        ]
    );
    assert_eq!(entries[0].url, "https://alpha-apache.example");
}

#[test]
fn credits_filter_counts_name_version_and_license() {
    let credits = vec![
        ThirdPartyCredit {
            name: "egui".to_string(),
            version: "0.35.0".to_string(),
            license: "MIT OR Apache-2.0".to_string(),
            url: "https://github.com/emilk/egui".to_string(),
        },
        ThirdPartyCredit {
            name: "ksni".to_string(),
            version: "0.3.7".to_string(),
            license: "Unlicense".to_string(),
            url: "https://github.com/iovxw/ksni".to_string(),
        },
    ];
    assert_eq!(filtered_credits_count("", &credits), 2);
    assert_eq!(filtered_credits_count(" APACHE ", &credits), 1);
    assert_eq!(filtered_credits_count("0.3", &credits), 2);
    assert_eq!(filtered_credits_count("ksni", &credits), 1);
    assert_eq!(filtered_credits_count("github", &credits), 0);
}

#[test]
fn pages_and_documents_have_names() {
    assert!(Page::Credits.about_group());
    assert!(!Page::Settings.about_group());
    assert_eq!(LicenseDocument::Credits.label(), "Acknowledgments");
    assert_eq!(
        LicenseDocument::Runtime.subtitle(),
        "System services and optional tools Realistic Mouse Jiggler integrates with."
    );
}

#[test]
fn shown_count_is_all_lines_for_an_empty_query() {
    let text = "one\ntwo license\nthree license";
    assert_eq!(shown_line_count(text, "   "), 3);
    assert_eq!(shown_line_count(text, "LICENSE"), 2);
    assert_eq!(shown_line_count(text, "nothing"), 0);
}

#[test]
fn count_matches_the_lines_the_body_shows() {
    let text = "alpha\nbeta license\r\ngamma\nLicense delta";
    let count = count_matching_lines(text, "license");
    assert_eq!(count, 2);
    assert!(count <= line_count(text));
    assert_eq!(filtered_body(text, "license").lines().count(), count);
    assert_eq!(filtered_body(text, "zeta"), "No matches for 'zeta'.");
}
