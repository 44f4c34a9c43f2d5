use exif_mtime::scan::ListingEntry;
use exif_mtime::scan::Scanner;

#[test]
fn the_scan_starts_at_the_root_and_ends_when_nothing_is_pending() {
    let mut s = Scanner::new(String::from("root"));
    assert_eq!(s.next_dir(), Some(String::from("root")));
    assert_eq!(s.next_dir(), None);
}

#[test]
fn a_listing_queues_subdirectories_and_hands_files_on() {
    let mut s = Scanner::new(String::from("root"));
    assert_eq!(s.next_dir(), Some(String::from("root")));
    let files = s.on_listing(vec![
        ListingEntry::Subdir(String::from("root/a")),
        ListingEntry::RegularFile(String::from("root/x.jpg")),
        ListingEntry::Other,
        ListingEntry::Unknown,
        ListingEntry::Subdir(String::from("root/b")),
        ListingEntry::RegularFile(String::from("root/y.jpg")),
    ]);
    assert_eq!(files, vec![String::from("root/x.jpg"), String::from("root/y.jpg")]);
    assert_eq!(s.next_dir(), Some(String::from("root/b")));
    assert_eq!(s.next_dir(), Some(String::from("root/a")));
    assert_eq!(s.next_dir(), None);
}

#[test]
fn a_directory_whose_listing_fails_leaves_its_siblings_queued() {
    let mut s = Scanner::new(String::from("root"));
    assert_eq!(s.next_dir(), Some(String::from("root")));
    let files = s.on_listing(vec![
        ListingEntry::Subdir(String::from("root/broken")),
        ListingEntry::Subdir(String::from("root/fine")),
    ]);
    assert!(files.is_empty());
    // The caller pops "root/fine", its listing succeeds and holds one file.
    assert_eq!(s.next_dir(), Some(String::from("root/fine")));
    let files = s.on_listing(vec![ListingEntry::RegularFile(String::from("root/fine/z.jpg"))]);
    assert_eq!(files, vec![String::from("root/fine/z.jpg")]);
    // The caller pops "root/broken"; its listing fails, so nothing is handed
    // back, and the scan simply runs on to its end.
    assert_eq!(s.next_dir(), Some(String::from("root/broken")));
    assert_eq!(s.next_dir(), None);
}

#[test]
fn an_empty_listing_adds_nothing() {
    let mut s = Scanner::new(String::from("root"));
    assert_eq!(s.next_dir(), Some(String::from("root")));
    let files = s.on_listing(Vec::new());
    assert!(files.is_empty());
    assert_eq!(s.next_dir(), None);
}
