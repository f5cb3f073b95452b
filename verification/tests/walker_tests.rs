use jpgfromraw::walker::{batch_succeeded, count_failures, is_raw_extension, output_rel_name};

#[test]
fn default_list_extensions_match() {
    for ext in [
        "arw", "cr2", "crw", "dng", "erf", "kdc", "mef", "mrw", "nef", "nrw", "orf", "pef",
        "raf", "raw", "rw2", "rwl", "sr2", "srf", "srw", "x3f",
    ] {
        assert!(is_raw_extension(ext.as_bytes(), None), "{ext} should match");
    }
}

#[test]
fn extension_match_ignores_ascii_case() {
    assert!(is_raw_extension(b"ARW", None));
    assert!(is_raw_extension(b"Arw", None));
    assert!(is_raw_extension(b"nEf", None));
}

#[test]
fn other_extensions_do_not_match() {
    assert!(!is_raw_extension(b"txt", None));
    assert!(!is_raw_extension(b"jpg", None));
    assert!(!is_raw_extension(b"arww", None));
    assert!(!is_raw_extension(b"ar", None));
    assert!(!is_raw_extension(b"", None));
}

#[test]
fn extra_extension_matches_exactly() {
    assert!(is_raw_extension(b"heif", Some(&b"heif"[..])));
    assert!(!is_raw_extension(b"heif", None));
    assert!(!is_raw_extension(b"heic", Some(&b"heif"[..])));
    // The extra extension is matched as given, not case-folded.
    assert!(!is_raw_extension(b"HEIF", Some(&b"heif"[..])));
}

#[test]
fn one_matching_file_of_two_is_selected() {
    // A directory holding one RAW file and one unrelated file: exactly the
    // RAW file is selected for processing.
    let names: [(&[u8], &[u8]); 2] = [(b"photo.arw", b"arw"), (b"notes.txt", b"txt")];
    let selected: Vec<&[u8]> = names
        .iter()
        .filter(|(_, ext)| is_raw_extension(ext, None))
        .map(|(name, _)| *name)
        .collect();
    assert_eq!(selected, vec![&b"photo.arw"[..]]);
}

#[test]
fn output_name_replaces_extension() {
    assert_eq!(output_rel_name(b"photo.arw"), b"photo.jpg");
    assert_eq!(output_rel_name(b"trip/day1/shot.NEF"), b"trip/day1/shot.jpg");
}

#[test]
fn output_name_appends_when_no_extension() {
    assert_eq!(output_rel_name(b"noext"), b"noext.jpg");
    // A dot before the final separator is not an extension.
    assert_eq!(output_rel_name(b"a.b/c"), b"a.b/c.jpg");
}

#[test]
fn failure_counting_and_batch_outcome() {
    assert_eq!(count_failures(&vec![true, true, true]), 0);
    assert_eq!(count_failures(&vec![true, false, false]), 2);
    assert_eq!(count_failures(&vec![]), 0);
    assert!(batch_succeeded(&vec![true, true]));
    assert!(batch_succeeded(&vec![]));
    assert!(!batch_succeeded(&vec![true, false]));
}
