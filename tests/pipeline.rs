use std::collections::HashSet;
use uuidgen::batch::{fill_slot, generate_uuids, remove_duplicates};
use uuidgen::ident::{format_uuid, new_entry};
use uuidgen::output::format_output;
use uuidgen::pipeline::{run, RunConfig};
use uuidgen::style::FormatStyle;

const SAMPLE: u128 = 0x67e5504410b1426f9247bb680e5fe0c8;

fn is_canonical_v4(s: &str) -> bool {
    let b = s.as_bytes();
    if b.len() != 36 {
        return false;
    }
    for (i, c) in b.iter().enumerate() {
        let dash = i == 8 || i == 13 || i == 18 || i == 23;
        if dash != (*c == b'-') {
            return false;
        }
        if !dash && !(c.is_ascii_digit() || (b'a'..=b'f').contains(c)) {
            return false;
        }
    }
    b[14] == b'4' && b"89ab".contains(&b[19])
}

#[test]
fn tags_select_styles() {
    assert_eq!(FormatStyle::from_tag("u"), FormatStyle::Bare);
    assert_eq!(FormatStyle::from_tag("ul"), FormatStyle::BareComma);
    assert_eq!(FormatStyle::from_tag("q"), FormatStyle::Quoted);
    assert_eq!(FormatStyle::from_tag("ql"), FormatStyle::QuotedComma);
    assert_eq!(FormatStyle::from_tag("qlb"), FormatStyle::BracketList);
    assert_eq!(FormatStyle::from_tag("qlbl"), FormatStyle::BraceList);
}

#[test]
fn unknown_tag_is_bare() {
    assert_eq!(FormatStyle::from_tag("bogus"), FormatStyle::Bare);
    assert_eq!(FormatStyle::from_tag(""), FormatStyle::Bare);
    assert_eq!(FormatStyle::from_tag("qlbq"), FormatStyle::Bare);
    assert_eq!(FormatStyle::from_tag("uq"), FormatStyle::Bare);
    let bogus = run(&RunConfig { count: 2, style: FormatStyle::from_tag("bogus"), check: false }).ok().unwrap();
    for e in &bogus.entries {
        assert!(is_canonical_v4(e));
    }
    assert_eq!(bogus.text, format!("{}\n{}", bogus.entries[0], bogus.entries[1]));
}

#[test]
fn list_flag() {
    assert!(FormatStyle::BracketList.is_list());
    assert!(FormatStyle::BraceList.is_list());
    assert!(!FormatStyle::QuotedComma.is_list());
}

#[test]
fn format_uuid_templates() {
    let id = "67e55044-10b1-426f-9247-bb680e5fe0c8";
    assert_eq!(format_uuid(SAMPLE, FormatStyle::Bare), id);
    assert_eq!(format_uuid(SAMPLE, FormatStyle::BareComma), format!("{},", id));
    assert_eq!(format_uuid(SAMPLE, FormatStyle::Quoted), format!("\"{}\"", id));
    assert_eq!(format_uuid(SAMPLE, FormatStyle::QuotedComma), format!("\"{}\",", id));
    assert_eq!(format_uuid(SAMPLE, FormatStyle::BracketList), format!("\"{}\",", id));
    assert_eq!(format_uuid(SAMPLE, FormatStyle::BraceList), format!("\"{}\",", id));
    assert_eq!(format_uuid(0, FormatStyle::Bare), "00000000-0000-0000-0000-000000000000");
    assert_eq!(format_uuid(u128::MAX, FormatStyle::Bare), "ffffffff-ffff-ffff-ffff-ffffffffffff");
}

#[test]
fn new_entries_are_v4() {
    for _ in 0..50 {
        let e = new_entry(FormatStyle::Bare);
        assert!(is_canonical_v4(&e));
        let q = new_entry(FormatStyle::QuotedComma);
        assert!(q.starts_with('"') && q.ends_with("\","));
        assert!(is_canonical_v4(&q[1..37]));
    }
}

#[test]
fn generate_yields_count_entries() {
    for n in [0u32, 1, 7, 100] {
        let b = generate_uuids(n, FormatStyle::Quoted);
        assert_eq!(b.len(), n as usize);
        for e in &b {
            assert_eq!(e.len(), 38);
            assert!(is_canonical_v4(&e[1..37]));
        }
    }
}

#[test]
fn three_bare_lines() {
    let b = generate_uuids(3, FormatStyle::Bare);
    let out = format_output(&b, FormatStyle::Bare);
    let lines: Vec<&str> = out.split('\n').collect();
    assert_eq!(lines.len(), 3);
    for l in lines {
        assert!(is_canonical_v4(l));
    }
    assert!(!out.ends_with(','));
}

#[test]
fn two_in_bracket_list() {
    let b = generate_uuids(2, FormatStyle::BracketList);
    let out = format_output(&b, FormatStyle::BracketList);
    assert_eq!(out, format!("[\n\t{}\n\t{}\n]", b[0], b[1]));
    for e in &b {
        assert!(e.starts_with('"') && e.ends_with("\","));
        assert!(is_canonical_v4(&e[1..37]));
    }
}

#[test]
fn zero_count_outputs() {
    let empty: Vec<String> = Vec::new();
    assert_eq!(format_output(&empty, FormatStyle::Bare), "");
    assert_eq!(format_output(&empty, FormatStyle::BareComma), "");
    assert_eq!(format_output(&empty, FormatStyle::Quoted), "");
    assert_eq!(format_output(&empty, FormatStyle::QuotedComma), "");
    assert_eq!(format_output(&empty, FormatStyle::BracketList), "[\n\t\n]");
    assert_eq!(format_output(&empty, FormatStyle::BraceList), "{\n\t\n}");
    let r = run(&RunConfig { count: 0, style: FormatStyle::BraceList, check: true }).ok().unwrap();
    assert_eq!(r.text, "{\n\t\n}");
    assert!(!r.duplicates_found);
    assert_eq!(r.duplicates, 0);
}

#[test]
fn only_final_comma_is_stripped() {
    let items = vec!["a,".to_string(), "b,".to_string()];
    assert_eq!(format_output(&items, FormatStyle::BareComma), "a,\nb");
    let doubled = vec!["x,,".to_string()];
    assert_eq!(format_output(&doubled, FormatStyle::QuotedComma), "x,");
    let plain = vec!["a".to_string(), "b".to_string()];
    assert_eq!(format_output(&plain, FormatStyle::Bare), "a\nb");
    assert_eq!(format_output(&items, FormatStyle::BracketList), "[\n\ta,\n\tb,\n]");
    assert_eq!(format_output(&items, FormatStyle::BraceList), "{\n\ta,\n\tb,\n}");
}

#[test]
fn repair_replaces_two_injected_duplicates() {
    let mut b = generate_uuids(3, FormatStyle::Quoted);
    let first_three = b.clone();
    b.insert(1, first_three[0].clone());
    b.push(first_three[2].clone());
    assert_eq!(b.len(), 5);
    let r = remove_duplicates(&mut b, FormatStyle::Quoted);
    assert_eq!(r, Ok((true, 2)));
    assert_eq!(b.len(), 5);
    assert_eq!(&b[..3], &first_three[..]);
    let unique: HashSet<&String> = b.iter().collect();
    assert_eq!(unique.len(), 5);
    for e in &b[3..] {
        assert!(is_canonical_v4(&e[1..37]));
    }
}

#[test]
fn repair_keeps_first_occurrences_in_order() {
    let mut b: Vec<String> = ["c", "a", "c", "b", "a", "a"].iter().map(|s| s.to_string()).collect();
    let r = remove_duplicates(&mut b, FormatStyle::Bare);
    assert_eq!(r, Ok((true, 3)));
    assert_eq!(b.len(), 6);
    assert_eq!(&b[..3], &["c", "a", "b"]);
    let unique: HashSet<&String> = b.iter().collect();
    assert_eq!(unique.len(), 6);
    for e in &b[3..] {
        assert!(is_canonical_v4(e));
    }
}

#[test]
fn repair_without_duplicates_changes_nothing() {
    let mut b = generate_uuids(4, FormatStyle::BareComma);
    let before = b.clone();
    assert_eq!(remove_duplicates(&mut b, FormatStyle::BareComma), Ok((false, 0)));
    assert_eq!(b, before);
    let mut empty: Vec<String> = Vec::new();
    assert_eq!(remove_duplicates(&mut empty, FormatStyle::Bare), Ok((false, 0)));
    assert!(empty.is_empty());
}

#[test]
fn run_with_check() {
    let r = run(&RunConfig { count: 20, style: FormatStyle::BareComma, check: true }).ok().unwrap();
    assert_eq!(r.entries.len(), 20);
    let unique: HashSet<&String> = r.entries.iter().collect();
    assert_eq!(unique.len(), 20);
    assert_eq!(r.duplicates_found, r.duplicates > 0);
    let joined = r.entries.join("\n");
    assert_eq!(r.text, joined[..joined.len() - 1]);
}

fn strings(items: &[&str]) -> Vec<String> {
    items.iter().map(|s| s.to_string()).collect()
}

#[test]
fn fill_slot_takes_first_fresh_candidate() {
    let mut b = strings(&["a", "b"]);
    assert!(fill_slot(&mut b, &strings(&["b", "a", "c", "d"])));
    assert_eq!(b, strings(&["a", "b", "c"]));
}

#[test]
fn fill_slot_without_fresh_candidate() {
    let mut b = strings(&["a", "b"]);
    assert!(!fill_slot(&mut b, &strings(&["b", "a", "b"])));
    assert_eq!(b, strings(&["a", "b"]));
    assert!(!fill_slot(&mut b, &Vec::new()));
    assert_eq!(b, strings(&["a", "b"]));
    let mut empty: Vec<String> = Vec::new();
    assert!(fill_slot(&mut empty, &strings(&["x"])));
    assert_eq!(empty, strings(&["x"]));
}

#[test]
fn run_single_with_check() {
    let r = run(&RunConfig { count: 1, style: FormatStyle::Quoted, check: true }).ok().unwrap();
    assert_eq!(r.entries.len(), 1);
    assert_eq!(r.text, r.entries[0]);
    assert!(!r.duplicates_found);
    assert_eq!(r.duplicates, 0);
}
