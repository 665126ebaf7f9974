use regfs::dir_enum::{EnumAction, EnumEvent, SimpleDirEnumerator};
use regfs::entry::{entry_less, sort_entries, DirEntry};

fn sample() -> Vec<DirEntry> {
    vec![
        DirEntry::directory("Alpha".to_string()),
        DirEntry::file("beta.txt".to_string(), 3),
        DirEntry::directory("Gamma".to_string()),
        DirEntry::file("delta.txt".to_string(), 0),
        DirEntry::file("Epsilon".to_string(), 12),
    ]
}

/// Runs one pass the way a driver does: tests names with `matches` and fills
/// a buffer of `capacity` entries; names in `refused` are rejected by the
/// buffer. Returns the names that went into the buffer.
fn pass(
    en: &mut SimpleDirEnumerator,
    restart: bool,
    capacity: usize,
    matches: fn(&str) -> bool,
    refused: &[&str],
) -> Vec<String> {
    let mut buffer: Vec<String> = Vec::new();
    let mut action = en.get_dir_enum(restart);
    loop {
        let event = match action {
            EnumAction::Done => break,
            EnumAction::Test => EnumEvent::Matched(matches(&en.current().unwrap().name)),
            EnumAction::Fill => {
                let name = en.current().unwrap().name.clone();
                if buffer.len() == capacity {
                    EnumEvent::BufferFull
                } else if refused.contains(&name.as_str()) {
                    EnumEvent::NameRejected
                } else {
                    buffer.push(name);
                    EnumEvent::Filled
                }
            }
        };
        action = en.step(event);
    }
    buffer
}

fn every(_: &str) -> bool {
    true
}

fn nothing(_: &str) -> bool {
    false
}

fn txt(name: &str) -> bool {
    name.ends_with(".txt")
}

fn names(v: &[DirEntry]) -> Vec<String> {
    v.iter().map(|e| e.name.clone()).collect()
}

#[test]
fn pages_join_into_the_full_listing_for_every_buffer_size() {
    for capacity in 1..=6 {
        for (matches, expected) in [
            (every as fn(&str) -> bool, names(&sample())),
            (txt as fn(&str) -> bool, vec!["beta.txt".to_string(), "delta.txt".to_string()]),
        ] {
            let mut en = SimpleDirEnumerator::new(sample());
            let mut all: Vec<String> = Vec::new();
            let mut restart = true;
            for _ in 0..20 {
                let page = pass(&mut en, restart, capacity, matches, &[]);
                restart = false;
                assert!(page.len() <= capacity);
                all.extend(page);
            }
            assert_eq!(all, expected, "capacity {}", capacity);
        }
    }
}

#[test]
fn exhausted_listing_gives_empty_passes() {
    let mut en = SimpleDirEnumerator::new(sample());
    assert_eq!(pass(&mut en, false, 10, every, &[]).len(), 5);
    assert_eq!(pass(&mut en, false, 10, every, &[]), Vec::<String>::new());
    assert_eq!(en.get_dir_enum(false), EnumAction::Done);
}

#[test]
fn restart_lists_everything_again() {
    let mut en = SimpleDirEnumerator::new(sample());
    let first = pass(&mut en, false, 2, every, &[]);
    assert_eq!(first, vec!["Alpha".to_string(), "beta.txt".to_string()]);
    let mut again = pass(&mut en, true, 10, every, &[]);
    assert_eq!(again, names(&sample()));
    again = pass(&mut en, true, 10, every, &[]);
    assert_eq!(again, names(&sample()));
}

#[test]
fn pattern_matching_everything_lists_every_entry() {
    let mut en = SimpleDirEnumerator::new(sample());
    assert_eq!(pass(&mut en, true, 100, every, &[]), names(&sample()));
}

#[test]
fn pattern_matching_nothing_lists_nothing() {
    let mut en = SimpleDirEnumerator::new(sample());
    assert_eq!(pass(&mut en, true, 100, nothing, &[]), Vec::<String>::new());
    assert_eq!(en.awaited(), EnumAction::Done);
    assert!(en.current().is_none());
}

#[test]
fn full_buffer_keeps_the_entry_for_the_next_pass() {
    let mut en = SimpleDirEnumerator::new(sample());
    assert_eq!(en.get_dir_enum(false), EnumAction::Test);
    assert_eq!(en.step(EnumEvent::Matched(true)), EnumAction::Fill);
    assert_eq!(en.step(EnumEvent::BufferFull), EnumAction::Done);
    assert_eq!(en.current().unwrap().name, "Alpha");
    assert_eq!(en.get_dir_enum(false), EnumAction::Test);
    assert_eq!(en.current().unwrap().name, "Alpha");
}

#[test]
fn rejected_name_is_skipped_and_listing_goes_on() {
    let mut en = SimpleDirEnumerator::new(sample());
    let page = pass(&mut en, true, 100, every, &["Gamma"]);
    assert_eq!(
        page,
        vec!["Alpha".to_string(), "beta.txt".to_string(), "delta.txt".to_string(), "Epsilon".to_string()]
    );
}

#[test]
fn unmatched_entry_is_passed_over() {
    let mut en = SimpleDirEnumerator::new(sample());
    assert_eq!(en.get_dir_enum(true), EnumAction::Test);
    assert_eq!(en.step(EnumEvent::Matched(false)), EnumAction::Test);
    assert_eq!(en.current().unwrap().name, "beta.txt");
}

#[test]
fn empty_listing_is_done_at_once() {
    let mut en = SimpleDirEnumerator::new(Vec::new());
    assert_eq!(en.get_dir_enum(true), EnumAction::Done);
    assert!(en.current().is_none());
}

#[test]
fn sorting_orders_by_name_bytes_then_directories_first() {
    let v = vec![
        DirEntry::file("b".to_string(), 1),
        DirEntry::file("B".to_string(), 7),
        DirEntry::directory("b".to_string()),
        DirEntry::file("a".to_string(), 2),
        DirEntry::file("ab".to_string(), 2),
        DirEntry::file("a".to_string(), 1),
    ];
    let r = sort_entries(v);
    assert_eq!(
        r,
        vec![
            DirEntry::file("B".to_string(), 7),
            DirEntry::file("a".to_string(), 1),
            DirEntry::file("a".to_string(), 2),
            DirEntry::file("ab".to_string(), 2),
            DirEntry::directory("b".to_string()),
            DirEntry::file("b".to_string(), 1),
        ]
    );
}

#[test]
fn sorting_empty_and_non_ascii_names() {
    assert_eq!(sort_entries(Vec::new()), Vec::<DirEntry>::new());
    let r = sort_entries(vec![
        DirEntry::directory("é".to_string()),
        DirEntry::directory("z".to_string()),
    ]);
    assert_eq!(names(&r), vec!["z".to_string(), "é".to_string()]);
}

#[test]
fn entry_order_compares() {
    let a = DirEntry::directory("x".to_string());
    let b = DirEntry::file("x".to_string(), 0);
    assert!(entry_less(&a, &b));
    assert!(!entry_less(&b, &a));
    assert!(!entry_less(&a, &a));
    assert!(b.file_size() == 0 && !b.is_directory() && a.is_directory());
}
