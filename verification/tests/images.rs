use gallery::error::GalleryError;
use gallery::extract::extract_metadata;
use gallery::handler::{build_gallery_view, ImageRecord};
use gallery::metadata::MetadataFields;
use gallery::store::{EntryKind, StoreEntry, StoreListing};

/// A little-endian TIFF with one directory: Orientation 1, XResolution 72/1,
/// ResolutionUnit 2.
fn tiff_with_three_fields() -> Vec<u8> {
    let mut data = vec![0x49, 0x49, 0x2a, 0x00, 0x08, 0x00, 0x00, 0x00];
    data.extend_from_slice(&[0x03, 0x00]);
    data.extend_from_slice(&[0x12, 0x01, 0x03, 0x00, 0x01, 0x00, 0x00, 0x00, 0x01, 0x00, 0x00, 0x00]);
    data.extend_from_slice(&[0x1a, 0x01, 0x05, 0x00, 0x01, 0x00, 0x00, 0x00, 0x32, 0x00, 0x00, 0x00]);
    data.extend_from_slice(&[0x28, 0x01, 0x03, 0x00, 0x01, 0x00, 0x00, 0x00, 0x02, 0x00, 0x00, 0x00]);
    data.extend_from_slice(&[0x00, 0x00, 0x00, 0x00]);
    data.extend_from_slice(&[0x48, 0x00, 0x00, 0x00, 0x01, 0x00, 0x00, 0x00]);
    data
}

/// A big-endian TIFF with two directories: the first holds XResolution 72/1,
/// the second XResolution 300/1 and ResolutionUnit 3.
fn tiff_with_a_repeated_tag() -> Vec<u8> {
    let mut data = vec![0x4d, 0x4d, 0x00, 0x2a, 0x00, 0x00, 0x00, 0x08];
    // first directory at 8: one entry, next directory at 26
    data.extend_from_slice(&[0x00, 0x01]);
    data.extend_from_slice(&[0x01, 0x1a, 0x00, 0x05, 0x00, 0x00, 0x00, 0x01, 0x00, 0x00, 0x00, 0x38]);
    data.extend_from_slice(&[0x00, 0x00, 0x00, 0x1a]);
    // second directory at 26: two entries, no next directory
    data.extend_from_slice(&[0x00, 0x02]);
    data.extend_from_slice(&[0x01, 0x1a, 0x00, 0x05, 0x00, 0x00, 0x00, 0x01, 0x00, 0x00, 0x00, 0x40]);
    data.extend_from_slice(&[0x01, 0x28, 0x00, 0x03, 0x00, 0x00, 0x00, 0x01, 0x00, 0x03, 0x00, 0x00]);
    data.extend_from_slice(&[0x00, 0x00, 0x00, 0x00]);
    // values at 56 and 64
    data.extend_from_slice(&[0x00, 0x00, 0x00, 0x48, 0x00, 0x00, 0x00, 0x01]);
    data.extend_from_slice(&[0x00, 0x00, 0x01, 0x2c, 0x00, 0x00, 0x00, 0x01]);
    data
}

fn jpeg_around(tiff: &[u8]) -> Vec<u8> {
    let mut data = vec![0xff, 0xd8, 0xff, 0xe1];
    let length = (tiff.len() + 8) as u16;
    data.extend_from_slice(&length.to_be_bytes());
    data.extend_from_slice(b"Exif\0\0");
    data.extend_from_slice(tiff);
    data.extend_from_slice(&[0xff, 0xd9]);
    data
}

fn png_without_metadata() -> Vec<u8> {
    let mut data = b"\x89PNG\x0d\x0a\x1a\x0a".to_vec();
    data.extend_from_slice(&[0, 0, 0, 13]);
    data.extend_from_slice(b"IHDR");
    data.extend_from_slice(&[0, 0, 0, 1, 0, 0, 0, 1, 8, 0, 0, 0, 0]);
    data.extend_from_slice(&[0x3a, 0x7e, 0x9b, 0x55]);
    data.extend_from_slice(&[0, 0, 0, 0]);
    data.extend_from_slice(b"IEND");
    data.extend_from_slice(&[0xae, 0x42, 0x60, 0x82]);
    data
}

fn pair(name: &str, value: &str) -> (String, String) {
    (name.to_string(), value.to_string())
}

#[test]
fn extract_reads_the_fields_of_a_tiff_file() {
    let fields = extract_metadata(&tiff_with_three_fields()).unwrap();
    assert_eq!(
        fields.entries(),
        &vec![
            pair("Orientation", "row 0 at top and column 0 at left"),
            pair("XResolution", "72 pixels per inch"),
            pair("ResolutionUnit", "inch"),
        ]
    );
}

#[test]
fn extract_reads_the_fields_of_a_jpeg_file() {
    let fields = extract_metadata(&jpeg_around(&tiff_with_three_fields())).unwrap();
    assert_eq!(fields.len(), 3);
    assert_eq!(
        fields.get("Orientation"),
        Some(&"row 0 at top and column 0 at left".to_string())
    );
    assert_eq!(fields.get("XResolution"), Some(&"72 pixels per inch".to_string()));
    assert_eq!(fields.get("ResolutionUnit"), Some(&"inch".to_string()));
}

#[test]
fn extract_lets_the_later_directory_win_for_a_repeated_tag() {
    let fields = extract_metadata(&tiff_with_a_repeated_tag()).unwrap();
    assert_eq!(
        fields.entries(),
        &vec![pair("XResolution", "300 pixels per cm"), pair("ResolutionUnit", "cm")]
    );
}

#[test]
fn extract_reports_bytes_that_are_no_image() {
    assert_eq!(
        extract_metadata(b"this is not an image").err(),
        Some(GalleryError::MetadataUnavailable)
    );
}

#[test]
fn extract_reports_an_empty_file() {
    assert_eq!(extract_metadata(&[]).err(), Some(GalleryError::MetadataUnavailable));
}

#[test]
fn extract_reports_a_png_file_without_metadata() {
    assert_eq!(
        extract_metadata(&png_without_metadata()).err(),
        Some(GalleryError::MetadataUnavailable)
    );
}

#[test]
fn extract_reports_a_truncated_tiff_file() {
    let mut data = tiff_with_three_fields();
    data.truncate(30);
    assert_eq!(extract_metadata(&data).err(), Some(GalleryError::MetadataUnavailable));
}

#[test]
fn extract_reports_a_jpeg_file_without_metadata() {
    assert_eq!(
        extract_metadata(&[0xff, 0xd8, 0xff, 0xd9]).err(),
        Some(GalleryError::MetadataUnavailable)
    );
}

#[test]
fn record_keeps_the_fields_of_a_good_extraction() {
    let fields = MetadataFields::from_pairs(vec![pair("Make", "\"ACME\"")]);
    let record = ImageRecord::new("a.jpg".to_string(), Ok(fields));
    assert_eq!(record.filename, "a.jpg");
    let kept = record.metadata_fields.unwrap();
    assert_eq!(kept.entries(), &vec![pair("Make", "\"ACME\"")]);
}

#[test]
fn record_of_a_failed_extraction_has_no_metadata() {
    let record = ImageRecord::new("b.png".to_string(), Err(GalleryError::MetadataUnavailable));
    assert_eq!(record.filename, "b.png");
    assert!(record.metadata_fields.is_none());
}

#[test]
fn record_from_file_reads_the_metadata() {
    let bytes = tiff_with_three_fields();
    let record = ImageRecord::from_file("scan.tif".to_string(), Some(&bytes));
    assert_eq!(record.filename, "scan.tif");
    assert_eq!(record.metadata_fields.unwrap().len(), 3);
}

#[test]
fn record_from_file_without_bytes_has_no_metadata() {
    let record = ImageRecord::from_file("locked.jpg".to_string(), None);
    assert_eq!(record.filename, "locked.jpg");
    assert!(record.metadata_fields.is_none());
}

#[test]
fn gallery_has_one_record_for_each_regular_file() {
    let listing = StoreListing::Entries(vec![
        StoreEntry::file("a.jpg".to_string(), jpeg_around(&tiff_with_three_fields())),
        StoreEntry::other("thumbs".to_string(), EntryKind::Directory),
        StoreEntry::file("b.png".to_string(), png_without_metadata()),
        StoreEntry::unreadable_file("c.jpg".to_string()),
        StoreEntry::other("socket".to_string(), EntryKind::Other),
        StoreEntry::file("notes.txt".to_string(), b"plain text".to_vec()),
    ]);
    let view = build_gallery_view(listing).unwrap();
    assert_eq!(view.len(), 4);
    assert!(!view.is_empty());
    let names: Vec<&str> = view.images.iter().map(|r| r.filename.as_str()).collect();
    assert_eq!(names, vec!["a.jpg", "b.png", "c.jpg", "notes.txt"]);
}

#[test]
fn gallery_keeps_files_without_metadata() {
    let listing = StoreListing::Entries(vec![
        StoreEntry::file("b.png".to_string(), png_without_metadata()),
        StoreEntry::unreadable_file("c.jpg".to_string()),
        StoreEntry::file("a.jpg".to_string(), jpeg_around(&tiff_with_three_fields())),
    ]);
    let view = build_gallery_view(listing).unwrap();
    assert_eq!(view.len(), 3);
    assert!(view.images[0].metadata_fields.is_none());
    assert!(view.images[1].metadata_fields.is_none());
    let fields = view.images[2].metadata_fields.as_ref().unwrap();
    assert_eq!(fields.get("XResolution"), Some(&"72 pixels per inch".to_string()));
}

#[test]
fn gallery_of_files_that_all_fail_still_lists_them() {
    let listing = StoreListing::Entries(vec![
        StoreEntry::unreadable_file("x".to_string()),
        StoreEntry::file("y".to_string(), Vec::new()),
    ]);
    let view = build_gallery_view(listing).unwrap();
    assert_eq!(view.len(), 2);
    assert!(view.images.iter().all(|r| r.metadata_fields.is_none()));
}

#[test]
fn gallery_of_an_empty_directory_is_empty() {
    let view = build_gallery_view(StoreListing::Entries(Vec::new())).unwrap();
    assert_eq!(view.len(), 0);
    assert!(view.is_empty());
}

#[test]
fn gallery_of_a_directory_without_regular_files_is_empty() {
    let listing = StoreListing::Entries(vec![
        StoreEntry::other("a".to_string(), EntryKind::Directory),
        StoreEntry::other("b".to_string(), EntryKind::Other),
    ]);
    let view = build_gallery_view(listing).unwrap();
    assert!(view.is_empty());
}

#[test]
fn gallery_fails_when_the_directory_cannot_be_listed() {
    let built = build_gallery_view(StoreListing::Unavailable);
    assert_eq!(built.err(), Some(GalleryError::StoreUnavailable));
}

#[test]
fn gallery_ignores_bytes_that_came_with_an_entry_that_is_no_file() {
    let entry = StoreEntry {
        filename: "dir".to_string(),
        kind: EntryKind::Directory,
        contents: Some(tiff_with_three_fields()),
    };
    let view = build_gallery_view(StoreListing::Entries(vec![entry])).unwrap();
    assert!(view.is_empty());
}

#[test]
fn gallery_gives_each_file_name_one_record() {
    let listing = StoreListing::Entries(vec![
        StoreEntry::file("one.jpg".to_string(), Vec::new()),
        StoreEntry::other("one.jpg.d".to_string(), EntryKind::Directory),
        StoreEntry::file("two.jpg".to_string(), Vec::new()),
        StoreEntry::file("three.jpg".to_string(), Vec::new()),
    ]);
    let view = build_gallery_view(listing).unwrap();
    assert_eq!(view.len(), 3);
    for a in 0..view.images.len() {
        for b in (a + 1)..view.images.len() {
            assert_ne!(view.images[a].filename, view.images[b].filename);
        }
    }
}
