use neatify::journal::{parse_journal, serialize_journal, MoveRecord};

fn rec(destination: &str, origin: &str) -> MoveRecord {
    MoveRecord { destination: destination.to_string(), origin: origin.to_string() }
}

#[test]
fn serialize_empty_journal() {
    let rs: Vec<MoveRecord> = Vec::new();
    assert_eq!(serialize_journal(&rs), "");
}

#[test]
fn serialize_one_record() {
    let rs = vec![rec("root/Documents/PDF/a.pdf", "root/a.pdf")];
    assert_eq!(serialize_journal(&rs), "root/Documents/PDF/a.pdf|root/a.pdf");
}

#[test]
fn serialize_two_records_joined_without_trailing_newline() {
    let rs = vec![rec("d1", "o1"), rec("d2", "o2")];
    assert_eq!(serialize_journal(&rs), "d1|o1\nd2|o2");
}

#[test]
fn parse_recovers_records() {
    let rs = parse_journal("d1|o1\nd2|o2");
    assert_eq!(rs.len(), 2);
    assert_eq!(rs[0].destination, "d1");
    assert_eq!(rs[0].origin, "o1");
    assert_eq!(rs[1].destination, "d2");
    assert_eq!(rs[1].origin, "o2");
}

#[test]
fn parse_empty_text_yields_no_records() {
    assert_eq!(parse_journal("").len(), 0);
}

#[test]
fn parse_skips_lines_without_separator() {
    let rs = parse_journal("d1|o1\nnot a record\nd2|o2");
    assert_eq!(rs.len(), 2);
    assert_eq!(rs[0].destination, "d1");
    assert_eq!(rs[1].destination, "d2");
}

#[test]
fn parse_splits_at_first_separator_only() {
    let rs = parse_journal("dest|ori|gin");
    assert_eq!(rs.len(), 1);
    assert_eq!(rs[0].destination, "dest");
    assert_eq!(rs[0].origin, "ori|gin");
}

#[test]
fn round_trip_preserves_records() {
    let rs = vec![
        rec("root/Documents/PDF/a.pdf", "root/a.pdf"),
        rec("root/Media/Images/b.jpg", "root/b.jpg"),
        rec("root/Others/c", "root/c"),
    ];
    let text = serialize_journal(&rs);
    let back = parse_journal(&text);
    assert_eq!(back.len(), rs.len());
    for i in 0..rs.len() {
        assert_eq!(back[i].destination, rs[i].destination);
        assert_eq!(back[i].origin, rs[i].origin);
    }
}

#[test]
fn round_trip_allows_separator_inside_origin() {
    let rs = vec![rec("clean/dest", "odd|origin")];
    let text = serialize_journal(&rs);
    let back = parse_journal(&text);
    assert_eq!(back.len(), 1);
    assert_eq!(back[0].destination, "clean/dest");
    assert_eq!(back[0].origin, "odd|origin");
}
