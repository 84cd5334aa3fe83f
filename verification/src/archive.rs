//! Taking the engine's executable out of a release package: the first entry
//! whose name ends with the executable's name, read from a zip archive or from
//! a gzip-compressed tar archive.

use vstd::prelude::*;

use crate::engine::{is_cli_entry, is_cli_entry_spec, Os};

verus! {

#[verifier::external_type_specification]
#[verifier::external_body]
#[verifier::reject_recursive_types(T)]
pub struct ExCursor<T>(std::io::Cursor<T>);

#[verifier::external_type_specification]
#[verifier::external_body]
#[verifier::reject_recursive_types(R)]
pub struct ExZipArchive<R>(zip::ZipArchive<R>);

/// A zip archive read from memory.
pub type ZipReader = zip::ZipArchive<std::io::Cursor<Vec<u8>>>;

/// What one entry of an archive yields when it is read in order: nothing when
/// the entry itself cannot be read, else its name (empty when it has no safe
/// one) and its content (nothing when the content cannot be read).
pub type ItemView = Option<(Seq<char>, Option<Seq<u8>>)>;

/// The entries of an open zip archive, by index.
pub uninterp spec fn zip_contents(archive: ZipReader) -> Seq<ItemView>;

/// What `ZipArchive::new` finds in the given bytes: the entries, or nothing
/// when the bytes are not a zip archive.
pub uninterp spec fn zip_listing(bytes: Seq<u8>) -> Option<Seq<ItemView>>;

/// `zip::ZipArchive::new` over the bytes in memory. The entries of the archive
/// are what the bytes hold.
#[verifier::external_body]
fn zip_open(bytes: Vec<u8>) -> (r: Option<ZipReader>)
    ensures
        match r {
            Some(a) => zip_listing(bytes@) == Some(zip_contents(a)),
            None => zip_listing(bytes@) is None,
        },
{
    zip::ZipArchive::new(std::io::Cursor::new(bytes)).ok()
}

/// `ZipArchive::len`: the number of entries.
#[verifier::external_body]
fn zip_len(archive: &ZipReader) -> (r: usize)
    ensures
        r == zip_contents(*archive).len(),
{
    archive.len()
}

/// `ZipArchive::by_index(i)` and `ZipFile::enclosed_name`: the entry's name,
/// or nothing when the entry cannot be opened. Reading leaves the entries as
/// they are.
#[verifier::external_body]
fn zip_entry_name(archive: &mut ZipReader, i: usize) -> (r: Option<String>)
    ensures
        zip_contents(*final(archive)) == zip_contents(*old(archive)),
        i < zip_contents(*old(archive)).len() ==> match r {
            Some(n) => zip_contents(*old(archive))[i as int] matches Some((m, _)) && m == n@,
            None => zip_contents(*old(archive))[i as int] is None,
        },
{
    match archive.by_index(i) {
        Ok(f) => match f.enclosed_name() {
            Some(p) => Some(p.to_string_lossy().into_owned()),
            None => Some(String::new()),
        },
        Err(_) => None,
    }
}

/// `ZipArchive::by_index(i)` and `Read::read_to_end`: the entry's content, or
/// the error's text when the entry cannot be opened or read. Reading leaves the
/// entries as they are; the error's text is not described.
#[verifier::external_body]
fn zip_entry_data(archive: &mut ZipReader, i: usize) -> (r: Result<Vec<u8>, String>)
    ensures
        zip_contents(*final(archive)) == zip_contents(*old(archive)),
        i < zip_contents(*old(archive)).len() ==> match r {
            Ok(v) => zip_contents(*old(archive))[i as int] matches Some((_, Some(d))) && d == v@,
            Err(_) => zip_contents(*old(archive))[i as int] is None || zip_contents(
                *old(archive),
            )[i as int] matches Some((_, None)),
        },
{
    let mut f = match archive.by_index(i) {
        Ok(f) => f,
        Err(e) => return Err(e.to_string()),
    };
    let mut buf: Vec<u8> = Vec::new();
    match std::io::Read::read_to_end(&mut f, &mut buf) {
        Ok(_) => Ok(buf),
        Err(e) => Err(e.to_string()),
    }
}

/// The outcome of looking through an archive's entries in order.
pub enum SearchView {
    /// The content of the first entry named like the executable.
    Found(Seq<u8>),
    /// An entry before it could not be read.
    EntryFailed,
    /// The executable's entry was found but its content could not be read.
    ReadFailed,
    /// No entry is named like the executable.
    Missing,
}

/// Looks through the entries in order, as far as the first one named like the
/// executable.
pub open spec fn search(items: Seq<ItemView>, os: Os) -> SearchView
    decreases items.len(),
{
    if items.len() == 0 {
        SearchView::Missing
    } else {
        match items[0] {
            None => SearchView::EntryFailed,
            Some((name, data)) => if is_cli_entry_spec(name, os) {
                match data {
                    Some(d) => SearchView::Found(d),
                    None => SearchView::ReadFailed,
                }
            } else {
                search(items.drop_first(), os)
            },
        }
    }
}

/// The message when no entry holds the executable.
pub open spec fn missing_message() -> Seq<char> {
    "发布包里没有找到 gemini-web-cli 可执行文件"@
}

/// What taking the executable out of an archive gives: `open_msg` when the
/// entries cannot be listed, `entry_msg` when an entry before the executable's
/// cannot be read, an error when its content cannot be read, the content when
/// it can, and `missing_message()` when no entry is the executable.
pub open spec fn extract_outcome(
    listing: Option<Seq<ItemView>>,
    os: Os,
    open_msg: Seq<char>,
    entry_msg: Seq<char>,
    r: Result<Vec<u8>, String>,
) -> bool {
    match listing {
        None => r matches Err(e) && e@ == open_msg,
        Some(items) => match search(items, os) {
            SearchView::Found(d) => r matches Ok(v) && v@ == d,
            SearchView::EntryFailed => r matches Err(e) && e@ == entry_msg,
            SearchView::ReadFailed => r is Err,
            SearchView::Missing => r matches Err(e) && e@ == missing_message(),
        },
    }
}

/// The executable from a zip release package.
pub fn cli_from_zip(bytes: Vec<u8>, os: Os) -> (r: Result<Vec<u8>, String>)
    ensures
        extract_outcome(zip_listing(bytes@), os, "打开 zip 失败"@, "读取 zip 条目失败"@, r),
{
    let ghost source = bytes@;
    let mut archive = match zip_open(bytes) {
        Some(a) => a,
        None => return Err(String::from_str("打开 zip 失败")),
    };
    let ghost items = zip_contents(archive);
    let n = zip_len(&archive);
    let mut i: usize = 0;
    assert(items.skip(0) =~= items);
    while i < n
        invariant
            zip_listing(source) == Some(items),
            source == bytes@,
            n == items.len(),
            i <= n,
            zip_contents(archive) == items,
            search(items, os) == search(items.skip(i as int), os),
        decreases n - i,
    {
        assert(items.skip(i as int)[0] == items[i as int]);
        assert(items.skip(i as int).drop_first() =~= items.skip(i + 1));
        let name = match zip_entry_name(&mut archive, i) {
            Some(name) => name,
            None => return Err(String::from_str("读取 zip 条目失败")),
        };
        if is_cli_entry(name.as_str(), os) {
            return zip_entry_data(&mut archive, i);
        }
        i += 1;
    }
    assert(items.skip(i as int) =~= Seq::<ItemView>::empty());
    Err(String::from_str("发布包里没有找到 gemini-web-cli 可执行文件"))
}

/// A tar archive over a gzip stream in memory (`tar::Archive` over
/// `flate2::read::GzDecoder`), held in a private field: Verus does not accept
/// the archive type's `Read` bound.
#[verifier::external_body]
pub struct TarReader {
    archive: tar::Archive<flate2::read::GzDecoder<std::io::Cursor<Vec<u8>>>>,
}

/// An iterator over the entries of a `TarReader` (`tar::Entries`).
#[verifier::external_body]
pub struct TarEntries<'a> {
    entries: tar::Entries<'a, flate2::read::GzDecoder<std::io::Cursor<Vec<u8>>>>,
}

/// One entry of a `TarReader` (`tar::Entry`).
#[verifier::external_body]
pub struct TarEntry<'a> {
    entry: tar::Entry<'a, flate2::read::GzDecoder<std::io::Cursor<Vec<u8>>>>,
}

/// What a gzip-compressed tar archive yields when its entries are read in order:
/// nothing when the entries cannot be listed at all; an unreadable entry ends
/// the list.
pub uninterp spec fn tar_listing(bytes: Seq<u8>) -> Option<Seq<ItemView>>;

/// The entries of a tar archive that has not been read yet.
pub uninterp spec fn tar_contents(archive: TarReader) -> Option<Seq<ItemView>>;

/// The entries an iterator over a tar archive has not handed out yet.
pub uninterp spec fn tar_remaining(entries: TarEntries<'_>) -> Seq<ItemView>;

/// The name and content of one tar entry.
pub uninterp spec fn tar_item(entry: TarEntry<'_>) -> (Seq<char>, Option<Seq<u8>>);

/// `tar::Archive::new(flate2::read::GzDecoder::new(..))` over the bytes in
/// memory. The entries of the archive are what the bytes hold.
#[verifier::external_body]
fn tar_gz_open(bytes: Vec<u8>) -> (r: TarReader)
    ensures
        tar_contents(r) == tar_listing(bytes@),
{
    TarReader {
        archive: tar::Archive::new(flate2::read::GzDecoder::new(std::io::Cursor::new(bytes))),
    }
}

/// `tar::Archive::entries`: an iterator over the entries, or nothing when they
/// cannot be listed.
#[verifier::external_body]
fn tar_entries(archive: &mut TarReader) -> (r: Option<TarEntries<'_>>)
    ensures
        match r {
            Some(e) => tar_contents(*old(archive)) == Some(tar_remaining(e)),
            None => tar_contents(*old(archive)) is None,
        },
{
    match archive.archive.entries() {
        Ok(entries) => Some(TarEntries { entries }),
        Err(_) => None,
    }
}

/// `Iterator::next` on the entries: the next entry, `Some(None)` when it cannot
/// be read, or nothing at the end. It hands out the first remaining entry.
#[verifier::external_body]
fn tar_next<'a>(entries: &mut TarEntries<'a>) -> (r: Option<
    Option<TarEntry<'a>>,
>)
    ensures
        match r {
            None => tar_remaining(*old(entries)).len() == 0,
            Some(item) => tar_remaining(*old(entries)).len() > 0 && tar_remaining(*final(entries))
                == tar_remaining(*old(entries)).drop_first() && match item {
                Some(en) => tar_remaining(*old(entries))[0] == Some(tar_item(en)),
                None => tar_remaining(*old(entries))[0] is None,
            },
        },
{
    match entries.entries.next() {
        Some(Ok(entry)) => Some(Some(TarEntry { entry })),
        Some(Err(_)) => Some(None),
        None => None,
    }
}

/// `tar::Entry::path`: the entry's name, or an empty name when it cannot be read.
#[verifier::external_body]
fn tar_entry_name(entry: &TarEntry<'_>) -> (r: String)
    ensures
        r@ == tar_item(*entry).0,
{
    match entry.entry.path() {
        Ok(p) => p.to_string_lossy().into_owned(),
        Err(_) => String::new(),
    }
}

/// `Read::read_to_end` on the entry: its content, or the error's text, which
/// is not described.
#[verifier::external_body]
fn tar_entry_data(entry: &mut TarEntry<'_>) -> (r: Result<Vec<u8>, String>)
    ensures
        match r {
            Ok(v) => tar_item(*old(entry)).1 == Some(v@),
            Err(_) => tar_item(*old(entry)).1 is None,
        },
{
    let mut buf: Vec<u8> = Vec::new();
    match std::io::Read::read_to_end(&mut entry.entry, &mut buf) {
        Ok(_) => Ok(buf),
        Err(e) => Err(e.to_string()),
    }
}

/// The executable from a `.tar.gz` release package.
pub fn cli_from_tar_gz(bytes: Vec<u8>, os: Os) -> (r: Result<Vec<u8>, String>)
    ensures
        extract_outcome(tar_listing(bytes@), os, "读取 tar 失败"@, "读取 tar 条目失败"@, r),
{
    let ghost source = bytes@;
    let mut archive = tar_gz_open(bytes);
    let mut entries = match tar_entries(&mut archive) {
        Some(e) => e,
        None => return Err(String::from_str("读取 tar 失败")),
    };
    let ghost items = tar_remaining(entries);
    loop
        invariant
            source == bytes@,
            tar_listing(source) == Some(items),
            search(items, os) == search(tar_remaining(entries), os),
        decreases tar_remaining(entries).len(),
    {
        let ghost rest = tar_remaining(entries);
        match tar_next(&mut entries) {
            None => {
                return Err(String::from_str("发布包里没有找到 gemini-web-cli 可执行文件"));
            },
            Some(None) => {
                return Err(String::from_str("读取 tar 条目失败"));
            },
            Some(Some(mut en)) => {
                let name = tar_entry_name(&en);
                if is_cli_entry(name.as_str(), os) {
                    return tar_entry_data(&mut en);
                }
            },
        }
    }
}

/// The executable's content from a release package: a zip archive when
/// `is_zip`, else a gzip-compressed tar archive.
pub fn extract_binary(bytes: Vec<u8>, os: Os, is_zip: bool) -> (r: Result<Vec<u8>, String>)
    ensures
        is_zip ==> extract_outcome(
            zip_listing(bytes@),
            os,
            "打开 zip 失败"@,
            "读取 zip 条目失败"@,
            r,
        ),
        !is_zip ==> extract_outcome(
            tar_listing(bytes@),
            os,
            "读取 tar 失败"@,
            "读取 tar 条目失败"@,
            r,
        ),
{
    if is_zip {
        cli_from_zip(bytes, os)
    } else {
        cli_from_tar_gz(bytes, os)
    }
}

} // verus!
