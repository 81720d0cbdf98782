//! What the index page shows: one record for each regular file of the image
//! directory, in the order of the directory, with the file's metadata where
//! it has any.

use vstd::prelude::*;
use crate::error::GalleryError;
use crate::extract::{embedded_fields, extract_metadata};
use crate::metadata::{pairs_to_map, MetadataFields};
use crate::store::{contents_of, is_regular_file, regular, EntryKind, StoreEntry, StoreListing};

verus! {

/// The template variable under which the records are handed to the page.
pub const IMAGES_VARIABLE: &'static str = "images";

/// The key under which a record shows its file name to the page.
pub const FILENAME_KEY: &'static str = "filename";

/// The key under which a record shows its metadata to the page.
pub const METADATA_KEY: &'static str = "metadata";

/// One image of the gallery.
#[derive(Debug)]
pub struct ImageRecord {
    pub filename: String,
    /// The metadata of the image; `None` where the file has none that could
    /// be read.
    pub metadata_fields: Option<MetadataFields>,
}

/// An image record as plain values.
pub struct ImageRecordView {
    pub filename: Seq<char>,
    pub metadata_fields: Option<Map<Seq<char>, Seq<char>>>,
}

impl View for ImageRecord {
    type V = ImageRecordView;

    open spec fn view(&self) -> ImageRecordView {
        ImageRecordView {
            filename: self.filename@,
            metadata_fields: match self.metadata_fields {
                Some(fields) => Some(fields@),
                None => None,
            },
        }
    }
}

/// What is handed to the page: the records to show, in order.
#[derive(Debug)]
pub struct GalleryView {
    pub images: Vec<ImageRecord>,
}

impl View for GalleryView {
    type V = Seq<ImageRecordView>;

    open spec fn view(&self) -> Seq<ImageRecordView> {
        self.images@.map_values(|record: ImageRecord| record@)
    }
}

/// The metadata of a file with these bytes: the mapping that its embedded
/// fields stand for, or `None` where the bytes were not read or hold no
/// fields that can be parsed.
pub open spec fn metadata_of(contents: Option<Seq<u8>>) -> Option<Map<Seq<char>, Seq<char>>> {
    match contents {
        Some(data) => match embedded_fields(data) {
            Some(pairs) => Some(pairs_to_map(pairs)),
            None => None,
        },
        None => None,
    }
}

/// The record that stands for a directory entry.
pub open spec fn record_of(entry: StoreEntry) -> ImageRecordView {
    ImageRecordView { filename: entry.filename@, metadata_fields: metadata_of(contents_of(entry)) }
}

/// `record_of` as a function on entries.
pub open spec fn to_record() -> spec_fn(StoreEntry) -> ImageRecordView {
    |entry: StoreEntry| record_of(entry)
}

/// The records for a directory: one for each regular file, in the order of
/// the entries.
pub open spec fn records_of(entries: Seq<StoreEntry>) -> Seq<ImageRecordView> {
    entries.filter(regular()).map_values(to_record())
}

/// The answer to "what should the index page show?".
pub open spec fn gallery_of(listing: StoreListing) -> Result<Seq<ImageRecordView>, GalleryError> {
    match listing {
        StoreListing::Unavailable => Err(GalleryError::StoreUnavailable),
        StoreListing::Entries(entries) => Ok(records_of(entries@)),
    }
}

impl ImageRecord {
    /// The record of a file, given its name and how the extraction of its
    /// metadata went. A failed extraction leaves the record without
    /// metadata; it is no failure of the record.
    pub fn new(filename: String, extracted: Result<MetadataFields, GalleryError>) -> (record: Self)
        ensures
            record.filename == filename,
            match extracted {
                Ok(fields) => record.metadata_fields == Some(fields),
                Err(_) => record.metadata_fields is None,
            },
    {
        let metadata_fields = match extracted {
            Ok(fields) => Some(fields),
            Err(_) => None,
        };
        ImageRecord { filename, metadata_fields }
    }

    /// The record of a regular file of the directory.
    pub fn from_file(filename: String, contents: Option<&Vec<u8>>) -> (record: Self)
        ensures
            record@.filename == filename@,
            record@.metadata_fields == metadata_of(
                match contents {
                    Some(bytes) => Some(bytes@),
                    None => None,
                },
            ),
    {
        let extracted = match contents {
            Some(bytes) => extract_metadata(bytes.as_slice()),
            None => Err(GalleryError::MetadataUnavailable),
        };
        ImageRecord::new(filename, extracted)
    }
}

impl GalleryView {
    /// The number of images to show.
    pub fn len(&self) -> (n: usize)
        ensures
            n == self@.len(),
    {
        self.images.len()
    }

    /// Whether there is no image to show.
    pub fn is_empty(&self) -> (empty: bool)
        ensures
            empty == (self@.len() == 0),
    {
        self.images.len() == 0
    }
}

/// Builds what the index page shows from what was found in the image
/// directory.
///
/// It fails only where the directory could not be listed, and then with
/// `StoreUnavailable`. Otherwise every regular file gets its record, in the
/// order of the directory, whether or not its metadata could be read.
pub fn build_gallery_view(listing: StoreListing) -> (built: Result<GalleryView, GalleryError>)
    ensures
        match gallery_of(listing) {
            Ok(records) => built matches Ok(view) && view@ == records,
            Err(e) => built matches Err(x) && x == e,
        },
{
    match listing {
        StoreListing::Unavailable => Err(GalleryError::StoreUnavailable),
        StoreListing::Entries(entries) => {
            let mut images: Vec<ImageRecord> = Vec::new();
            let mut i: usize = 0;
            assert(entries@.take(0) =~= Seq::<StoreEntry>::empty());
            assert(records_of(Seq::<StoreEntry>::empty()) =~= Seq::<ImageRecordView>::empty()) by {
                reveal(Seq::filter);
            }
            while i < entries.len()
                invariant
                    i <= entries.len(),
                    images@.map_values(|record: ImageRecord| record@) == records_of(
                        entries@.take(i as int),
                    ),
                decreases entries.len() - i,
            {
                let entry = &entries[i];
                proof {
                    lemma_records_push(entries@.take(i as int), entries@[i as int]);
                    assert(entries@.take(i + 1) =~= entries@.take(i as int).push(entries@[i as int]));
                }
                if entry.kind == EntryKind::RegularFile {
                    let record = ImageRecord::from_file(
                        entry.filename.clone(),
                        entry.contents.as_ref(),
                    );
                    assert(record@ == record_of(*entry));
                    let ghost before = images@;
                    images.push(record);
                    assert(images@.map_values(|record: ImageRecord| record@) =~= before.map_values(
                        |record: ImageRecord| record@,
                    ).push(record@));
                }
                i += 1;
            }
            assert(entries@.take(i as int) =~= entries@);
            Ok(GalleryView { images })
        },
    }
}

/// A further entry adds its record at the end where it is a regular file, and
/// changes nothing where it is not.
pub proof fn lemma_records_push(entries: Seq<StoreEntry>, entry: StoreEntry)
    ensures
        records_of(entries.push(entry)) == if is_regular_file(entry) {
            records_of(entries).push(record_of(entry))
        } else {
            records_of(entries)
        },
{
    entries.lemma_filter_push(entry, regular());
    if is_regular_file(entry) {
        assert(entries.filter(regular()).push(entry).map_values(to_record()) =~= entries.filter(
            regular(),
        ).map_values(to_record()).push(record_of(entry)));
    }
}

/// The place that the record of entry `i` takes among the records: the
/// number of regular files that stand before it.
pub open spec fn rank(entries: Seq<StoreEntry>, i: int) -> int {
    entries.take(i).filter(regular()).len() as int
}

/// A directory with N regular files gives exactly N records, and the k-th
/// record is that of the k-th regular file. Nothing is asked of the files'
/// metadata: a file counts whether or not any could be read from it.
pub proof fn lemma_one_record_per_regular_file(entries: Seq<StoreEntry>)
    ensures
        records_of(entries).len() == entries.filter(regular()).len(),
        forall|k: int|
            0 <= k < records_of(entries).len() ==> #[trigger] records_of(entries)[k] == record_of(
                entries.filter(regular())[k],
            ),
{
}

/// Every regular file of the directory has its record, at the place that
/// its rank among the regular files gives it.
pub proof fn lemma_record_position(entries: Seq<StoreEntry>, i: int)
    requires
        0 <= i < entries.len(),
        is_regular_file(entries[i]),
    ensures
        0 <= rank(entries, i) < records_of(entries).len(),
        records_of(entries)[rank(entries, i)] == record_of(entries[i]),
    decreases entries.len(),
{
    let front = entries.drop_last();
    let last = entries.last();
    assert(entries =~= front.push(last));
    lemma_records_push(front, last);
    if i == entries.len() - 1 {
        assert(entries.take(i) =~= front);
    } else {
        assert(entries.take(i) =~= front.take(i));
        assert(front[i] == entries[i]);
        lemma_record_position(front, i);
    }
}

/// A file from which no metadata could be read does not make the listing
/// fail: the listing succeeds, and the file has its record, without
/// metadata.
pub proof fn lemma_file_without_metadata(listing: StoreListing, i: int)
    requires
        listing matches StoreListing::Entries(entries) && 0 <= i < entries@.len()
            && is_regular_file(entries@[i]) && metadata_of(contents_of(entries@[i])) is None,
    ensures
        listing matches StoreListing::Entries(entries) && gallery_of(listing) matches Ok(records)
            && 0 <= rank(entries@, i) < records.len() && records[rank(entries@, i)].filename
            == entries@[i].filename@ && records[rank(entries@, i)].metadata_fields is None,
{
    let entries = listing->Entries_0;
    lemma_record_position(entries@, i);
}

/// Where the directory could not be listed, the answer is
/// `StoreUnavailable`, and there are no records at all; in every other case
/// there is an answer.
pub proof fn lemma_unavailable_store(listing: StoreListing)
    ensures
        listing is Unavailable <==> gallery_of(listing) is Err,
        gallery_of(listing) matches Err(e) ==> e == GalleryError::StoreUnavailable,
{
}

/// No two regular files of the directory share a name.
pub open spec fn distinct_filenames(entries: Seq<StoreEntry>) -> bool {
    forall|i: int, j: int|
        0 <= i < j < entries.len() && is_regular_file(#[trigger] entries[i]) && is_regular_file(
            #[trigger] entries[j],
        ) ==> entries[i].filename@ != entries[j].filename@
}

/// Where no two regular files of the directory share a name, no two records
/// do: a file name stands for one image.
pub proof fn lemma_distinct_filenames(entries: Seq<StoreEntry>)
    requires
        distinct_filenames(entries),
    ensures
        forall|a: int, b: int|
            0 <= a < b < records_of(entries).len() ==> (#[trigger] records_of(entries)[a]).filename
                != (#[trigger] records_of(entries)[b]).filename,
    decreases entries.len(),
{
    if entries.len() == 0 {
        assert(records_of(entries).len() == 0) by {
            reveal(Seq::filter);
        }
    } else {
        let front = entries.drop_last();
        let last = entries.last();
        assert(entries =~= front.push(last));
        assert forall|i: int, j: int|
            0 <= i < j < front.len() && is_regular_file(#[trigger] front[i]) && is_regular_file(
                #[trigger] front[j],
            ) implies front[i].filename@ != front[j].filename@ by {
            assert(front[i] == entries[i]);
            assert(front[j] == entries[j]);
        }
        lemma_distinct_filenames(front);
        lemma_records_push(front, last);
        if is_regular_file(last) {
            let kept = front.filter(regular());
            assert forall|a: int| 0 <= a < records_of(front).len() implies (
            #[trigger] records_of(front)[a]).filename != last.filename@ by {
                front.lemma_filter_pred(regular(), a);
                assert(kept.contains(kept[a]));
                front.lemma_filter_contains_rev(regular(), kept[a]);
                let j = choose|j: int| 0 <= j < front.len() && front[j] == kept[a];
                assert(entries[j] == front[j]);
                assert(is_regular_file(entries[j]));
                assert(is_regular_file(entries[entries.len() - 1]));
            }
        }
    }
}

} // verus!
