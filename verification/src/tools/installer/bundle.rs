//! The ZIP bundle of a component: its entries as the zip crate reads them,
//! and the folders and files that unpacking it into the component's
//! folder makes.
use vstd::prelude::*;
use crate::paths::{join, join_seq};
use crate::text::{ends_with, ends_with_seq};

verus! {

/// An entry of a ZIP archive.
#[derive(Debug)]
pub struct ArchiveEntry {
    /// The entry's name as a safe relative path (no absolute path, no
    /// escape from the folder, no NUL), where it has one.
    pub enclosed_name: Option<String>,
    /// The entry's name as stored.
    pub name: String,
    /// The entry's uncompressed contents.
    pub data: Vec<u8>,
}

/// The entries read from an archive, in archive order; `broken` where
/// reading stopped at an entry that could not be opened or decompressed
/// (it and the entries after it are not listed).
#[derive(Debug)]
pub struct ArchiveListing {
    pub entries: Vec<ArchiveEntry>,
    pub broken: bool,
}

/// An archive entry as data: enclosed name, stored name, contents.
pub type EntryView = (Option<Seq<char>>, Seq<char>, Seq<u8>);

/// The view of an optional string.
pub open spec fn opt_text(o: Option<String>) -> Option<Seq<char>> {
    match o {
        Some(s) => Some(s@),
        None => None,
    }
}

/// Views of archive entries.
pub open spec fn entries_view(v: Seq<ArchiveEntry>) -> Seq<EntryView> {
    v.map_values(|e: ArchiveEntry| (opt_text(e.enclosed_name), e.name@, e.data@))
}

/// What the zip crate (with its DEFLATE reader) reads from the bytes of an
/// archive: `None` where `ZipArchive::new` refuses them; else the entries
/// that `by_index` opens and reads in order, and whether reading stopped
/// at an entry it could not open or read.
pub uninterp spec fn zip_entries(b: Seq<u8>) -> Option<(Seq<EntryView>, bool)>;

/// `zip::ZipArchive::new` over the bytes, then each entry through
/// `by_index`, `enclosed_name`, `name` and a read of its contents. The
/// contract names the listing; what the zip format gives is left to the
/// name. A stored name that cannot be decoded is listed as empty (such an
/// entry has no enclosed name either).
#[verifier::external_body]
pub(crate) fn archive_entries(bytes: &[u8]) -> (r: Option<ArchiveListing>)
    ensures
        match r {
            Some(l) => zip_entries(bytes@) == Some((entries_view(l.entries@), l.broken)),
            None => zip_entries(bytes@) is None,
        },
{
    let mut zip = zip::ZipArchive::new(std::io::Cursor::new(bytes)).ok()?;
    let mut entries = Vec::new();
    for i in 0..zip.len() {
        let Ok(mut f) = zip.by_index(i) else { return Some(ArchiveListing { entries, broken: true }) };
        let mut data = Vec::new();
        if std::io::Read::read_to_end(&mut f, &mut data).is_err() {
            return Some(ArchiveListing { entries, broken: true });
        }
        let enclosed_name = f.enclosed_name().map(|p| p.to_string_lossy().into_owned());
        let name = f.name().map(|n| n.into_owned()).unwrap_or_default();
        entries.push(ArchiveEntry { enclosed_name, name, data });
    }
    Some(ArchiveListing { entries, broken: false })
}

/// What unpacking one entry does.
#[derive(Debug, Clone, PartialEq, Eq)]
pub enum ExtractStep {
    /// Create this folder (and its parents).
    CreateDir(String),
    /// Write the contents of the entry at this position to this file,
    /// creating its folder where it is missing.
    WriteFile(String, usize),
}

/// An unpacking step as data.
pub ghost enum StepView {
    CreateDir(Seq<char>),
    WriteFile(Seq<char>, int),
}

/// Views of unpacking steps.
pub open spec fn steps_view(v: Seq<ExtractStep>) -> Seq<StepView> {
    v.map_values(
        |s: ExtractStep|
            match s {
                ExtractStep::CreateDir(p) => StepView::CreateDir(p@),
                ExtractStep::WriteFile(p, i) => StepView::WriteFile(p@, i as int),
            },
    )
}

/// The steps of unpacking entries into `dir`, in entry order: an entry
/// without an enclosed name is skipped; an entry whose stored name ends
/// with `/` is a folder; any other entry is a file, written at its
/// enclosed name under `dir`.
pub open spec fn extraction_plan(dir: Seq<char>, entries: Seq<EntryView>) -> Seq<StepView>
    decreases entries.len(),
{
    if entries.len() == 0 {
        Seq::empty()
    } else {
        let prev = extraction_plan(dir, entries.drop_last());
        let e = entries.last();
        match e.0 {
            None => prev,
            Some(n) => prev.push(
                if ends_with_seq(e.1, "/"@) {
                    StepView::CreateDir(join_seq(dir, n))
                } else {
                    StepView::WriteFile(join_seq(dir, n), entries.len() - 1)
                },
            ),
        }
    }
}

/// The steps of unpacking the entries into `component_dir`.
pub fn extraction_steps(component_dir: &str, entries: &Vec<ArchiveEntry>) -> (r: Vec<ExtractStep>)
    ensures
        steps_view(r@) == extraction_plan(component_dir@, entries_view(entries@)),
{
    let ghost ev = entries_view(entries@);
    let mut r: Vec<ExtractStep> = Vec::new();
    let mut i: usize = 0;
    assert(steps_view(r@) =~= extraction_plan(component_dir@, ev.subrange(0, 0)));
    while i < entries.len()
        invariant
            i <= entries@.len(),
            ev == entries_view(entries@),
            steps_view(r@) == extraction_plan(component_dir@, ev.subrange(0, i as int)),
        decreases entries@.len() - i,
    {
        proof {
            assert(ev.subrange(0, i + 1).drop_last() =~= ev.subrange(0, i as int));
            assert(ev.subrange(0, i + 1).last() == ev[i as int]);
        }
        let e = &entries[i];
        match &e.enclosed_name {
            Some(n) => {
                let path = join(component_dir, n.as_str());
                let ghost before = r@;
                if ends_with(e.name.as_str(), "/") {
                    r.push(ExtractStep::CreateDir(path));
                } else {
                    r.push(ExtractStep::WriteFile(path, i));
                }
                assert(steps_view(r@) =~= steps_view(before).push(steps_view(r@).last()));
            },
            None => {},
        }
        i = i + 1;
    }
    assert(ev.subrange(0, ev.len() as int) =~= ev);
    r
}

/// How a downloaded bundle unpacks into a component folder: the entries
/// read from it and the steps; `None` where the bytes are no ZIP archive.
#[derive(Debug)]
pub struct BundleExtraction {
    pub entries: Vec<ArchiveEntry>,
    pub steps: Vec<ExtractStep>,
    /// Reading stopped at an entry that could not be read: the unpacking
    /// fails after the steps of the entries before it.
    pub broken: bool,
}

/// Plans the unpacking of a downloaded bundle into `component_dir`:
/// nothing where the zip crate reads no archive from the bytes; else the
/// entries it reads, the steps that unpack them, and whether reading
/// stopped at a broken entry.
pub fn plan_bundle_extraction(component_dir: &str, bytes: &[u8]) -> (r: Option<BundleExtraction>)
    ensures
        match zip_entries(bytes@) {
            Some((ev, broken)) => r matches Some(x) && entries_view(x.entries@) == ev && x.broken == broken
                && steps_view(x.steps@) == extraction_plan(component_dir@, ev),
            None => r is None,
        },
{
    match archive_entries(bytes) {
        Some(l) => {
            let steps = extraction_steps(component_dir, &l.entries);
            Some(BundleExtraction { entries: l.entries, steps, broken: l.broken })
        },
        None => None,
    }
}

} // verus!
