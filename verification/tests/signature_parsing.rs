use jaytripper::events::{ScanPercent, SignatureEntry};
use jaytripper::signatures::{
    is_valid_signature_id, merge_signature_snapshot, parse_signature_snapshot,
    ProjectedSignature, SignatureParseError,
};

fn sp(hundredths: u16) -> ScanPercent {
    ScanPercent::from_hundredths(hundredths).expect("percent in range")
}

fn find<'a>(sigs: &'a [ProjectedSignature], id: &str) -> Option<&'a ProjectedSignature> {
    sigs.iter().find(|s| s.signature_id == id)
}

#[test]
fn validates_signature_ids() {
    assert!(is_valid_signature_id("ABC-123"));
    assert!(!is_valid_signature_id("abc-123"));
    assert!(!is_valid_signature_id("ABCD-123"));
    assert!(!is_valid_signature_id("ABC123"));
}

#[test]
fn parses_scan_percentages_and_ignores_distance_column() {
    let input = "ABC-123\tCosmic Signature\tGas Site\t\t28.6%\t21.93 AU\n";
    let entries = parse_signature_snapshot(input).expect("parse snapshot");

    assert_eq!(entries.len(), 1);
    assert_eq!(entries[0].signature_id, "ABC-123");
    assert_eq!(entries[0].scan_percent, Some(sp(2860)));
    assert_eq!(entries[0].site_type.as_deref(), Some("Gas Site"));
}

#[test]
fn reports_invalid_percent_with_line_context() {
    let input = "ABC-123\tCosmic Signature\tGas Site\t\tabs%\t21.93 AU\n";
    let err = parse_signature_snapshot(input).expect_err("parse should fail");
    assert!(err.message().contains("line 1"));
}

#[test]
fn reports_out_of_range_percent() {
    let input = "ABC-123\tCosmic Signature\tGas Site\t\t101.0%\t21.93 AU\n";
    let err = parse_signature_snapshot(input).expect_err("parse should fail");
    assert!(err.message().contains("between 0 and 100"));
}

#[test]
fn merge_keeps_highest_percent_seen_and_updates_latest() {
    let mut projected: Vec<ProjectedSignature> = Vec::new();

    merge_signature_snapshot(
        &mut projected,
        &vec![SignatureEntry {
            signature_id: "ABC-123".to_owned(),
            group: "Cosmic Signature".to_owned(),
            site_type: Some("Relic Site".to_owned()),
            name: None,
            scan_percent: Some(sp(7000)),
        }],
    );

    merge_signature_snapshot(
        &mut projected,
        &vec![SignatureEntry {
            signature_id: "ABC-123".to_owned(),
            group: "Cosmic Signature".to_owned(),
            site_type: Some("Relic Site".to_owned()),
            name: Some("Relic Training Site".to_owned()),
            scan_percent: Some(sp(0)),
        }],
    );

    let signature = find(&projected, "ABC-123").expect("signature should exist");
    assert_eq!(signature.latest_scan_percent, Some(sp(0)));
    assert_eq!(signature.highest_scan_percent_seen, Some(sp(7000)));
    assert_eq!(
        signature.name.as_deref(),
        Some("Relic Training Site"),
        "name should be refined by newer snapshots"
    );
    assert!(!signature.missing_from_latest_snapshot);
}

#[test]
fn merge_marks_absent_signatures_as_missing_from_latest_snapshot() {
    let mut projected: Vec<ProjectedSignature> = Vec::new();

    merge_signature_snapshot(
        &mut projected,
        &vec![
            SignatureEntry {
                signature_id: "ABC-123".to_owned(),
                group: "Cosmic Signature".to_owned(),
                site_type: None,
                name: None,
                scan_percent: Some(sp(1000)),
            },
            SignatureEntry {
                signature_id: "DEF-456".to_owned(),
                group: "Cosmic Signature".to_owned(),
                site_type: None,
                name: None,
                scan_percent: Some(sp(2500)),
            },
        ],
    );

    merge_signature_snapshot(
        &mut projected,
        &vec![SignatureEntry {
            signature_id: "ABC-123".to_owned(),
            group: "Cosmic Signature".to_owned(),
            site_type: None,
            name: None,
            scan_percent: Some(sp(5000)),
        }],
    );

    let abc = find(&projected, "ABC-123").expect("ABC should exist");
    let def = find(&projected, "DEF-456").expect("DEF should exist");
    assert!(!abc.missing_from_latest_snapshot);
    assert!(def.missing_from_latest_snapshot);
}

fn snapshot_block(ids: &[&str]) -> String {
    let mut out = String::new();
    for id in ids {
        out.push_str(id);
        out.push_str("\tCosmic Signature\tGas Site\t\t10.0%\t21.93 AU\n");
    }
    out
}

#[test]
fn parses_curated_snapshot_fixtures() {
    let first = snapshot_block(&[
        "CWT-368", "ABC-100", "ABC-101", "ABC-102", "ABC-103", "ABC-104", "ABC-105",
        "ABC-106", "ABC-107", "ABC-108", "ABC-109",
    ]);
    let second = snapshot_block(&[
        "VMJ-105", "DEF-100", "DEF-101", "DEF-102", "DEF-103", "DEF-104", "DEF-105",
        "DEF-106", "DEF-107", "DEF-108", "DEF-109",
    ]);
    let third = snapshot_block(&[
        "ZZO-660", "GHI-100", "GHI-101", "GHI-102", "GHI-103", "GHI-104", "GHI-105",
        "GHI-106", "GHI-107", "GHI-108", "GHI-109", "GHI-110",
    ]);
    let snapshots = [
        (first, 11_usize, "CWT-368"),
        (second, 11_usize, "VMJ-105"),
        (third, 12_usize, "ZZO-660"),
    ];

    for (fixture, expected_count, expected_id) in snapshots {
        let entries = parse_signature_snapshot(&fixture).expect("snapshot should parse");
        assert_eq!(entries.len(), expected_count);
        assert!(entries.iter().any(|entry| entry.signature_id == expected_id));
    }
}

#[test]
fn malformed_missing_id_fixture_fails_with_line_context() {
    let fixture = "NOPE\tCosmic Signature\tGas Site\t\t10.0%\n";
    let err = parse_signature_snapshot(fixture).expect_err("fixture should fail");

    match err {
        SignatureParseError::InvalidSignatureId { line, .. } => assert_eq!(line, 1),
        other => panic!("expected invalid signature id error, got {other:?}"),
    }
}

#[test]
fn malformed_percent_fixture_fails_with_line_context() {
    let fixture = "ABC-123\tCosmic Signature\tGas Site\t\tnope%\n";
    let err = parse_signature_snapshot(fixture).expect_err("fixture should fail");

    match err {
        SignatureParseError::InvalidScanPercent { line, .. } => assert_eq!(line, 1),
        other => panic!("expected invalid scan percent error, got {other:?}"),
    }
}

#[test]
fn malformed_column_fixture_fails_with_line_context() {
    let fixture = "ABC-123\tCosmic Signature\n";
    let err = parse_signature_snapshot(fixture).expect_err("fixture should fail");

    match err {
        SignatureParseError::InvalidColumnCount { line, .. } => assert_eq!(line, 1),
        other => panic!("expected invalid column count error, got {other:?}"),
    }
}

#[test]
fn parses_all_blocks_in_multi_snapshot_fixture() {
    let fixture = format!(
        "{}\n{}\n{}",
        snapshot_block(&["AAA-111", "AAA-112"]),
        snapshot_block(&["BBB-221"]),
        snapshot_block(&["CCC-331", "CCC-332", "CCC-333"]),
    );
    let blocks: Vec<String> = {
        let mut blocks = Vec::new();
        let mut current: Vec<&str> = Vec::new();
        for line in fixture.lines() {
            if line.trim().is_empty() {
                if !current.is_empty() {
                    blocks.push(current.join("\n"));
                    current.clear();
                }
                continue;
            }
            current.push(line);
        }
        if !current.is_empty() {
            blocks.push(current.join("\n"));
        }
        blocks
    };

    assert!(!blocks.is_empty());
    for (idx, block) in blocks.iter().enumerate() {
        let entries = parse_signature_snapshot(block)
            .unwrap_or_else(|_| panic!("block {} failed to parse", idx + 1));
        assert!(!entries.is_empty(), "block {} should contain at least one entry", idx + 1);
    }
}

#[test]
fn parser_trims_columns_and_reads_optional_fields() {
    let input = "  ABC-123 \t  Cosmic Signature \t\t The Name \t\t extra\n";
    let entries = parse_signature_snapshot(input).expect("parse snapshot");
    assert_eq!(entries.len(), 1);
    assert_eq!(entries[0].signature_id, "ABC-123");
    assert_eq!(entries[0].group, "Cosmic Signature");
    assert_eq!(entries[0].site_type, None);
    assert_eq!(entries[0].name.as_deref(), Some("The Name"));
    assert_eq!(entries[0].scan_percent, None);
}

#[test]
fn parser_skips_blank_lines_but_counts_them_in_diagnostics() {
    let input = "\n   \nABC-123\tCosmic Signature\tGas Site\t\t10.0%\n\nBAD\tX\tY\tZ\t1%\n";
    let err = parse_signature_snapshot(input).expect_err("bad id on fifth raw line");
    match err {
        SignatureParseError::InvalidSignatureId { line, value } => {
            assert_eq!(line, 5);
            assert_eq!(value, "BAD");
        },
        other => panic!("expected invalid signature id, got {other:?}"),
    }
}

#[test]
fn parser_reads_percent_edge_values() {
    let entries =
        parse_signature_snapshot("ABC-123\tSig\t\t\t100.0%\nDEF-456\tSig\t\t\t0%\n").expect("parse");
    assert_eq!(entries[0].scan_percent, Some(sp(10000)));
    assert_eq!(entries[1].scan_percent, Some(sp(0)));

    let err = parse_signature_snapshot("ABC-123\tSig\t\t\t100.01%\n").expect_err("over 100");
    assert!(matches!(err, SignatureParseError::InvalidScanPercent { .. }));
}
