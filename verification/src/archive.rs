//! ROMs in zip archives.
pub mod choice_laws;

use crate::text;
use vstd::prelude::*;
use vstd::string::*;

verus! {

/// An entry of an archive, as values.
pub struct EntryInfo {
    pub dir: bool,
    pub name: Seq<char>,
    pub size: u64,
}

/// An entry of an archive.
pub struct ZipEntry {
    /// Whether the entry is a directory.
    pub dir: bool,
    pub name: String,
    /// Size when unpacked.
    pub size: u64,
}

impl View for ZipEntry {
    type V = EntryInfo;

    open spec fn view(&self) -> EntryInfo {
        EntryInfo { dir: self.dir, name: self.name@, size: self.size }
    }
}

/// An entry that could be read, as values.
pub open spec fn entry_view(e: Option<ZipEntry>) -> Option<EntryInfo> {
    match e {
        Some(x) => Some(x@),
        None => None,
    }
}

/// The number of entries that `ZipArchive::new` finds in the bytes of an
/// archive; `None` where it fails.
pub uninterp spec fn zip_len(bytes: Seq<u8>) -> Option<usize>;

/// What `ZipArchive::by_index` tells of an entry; `None` where it fails.
pub uninterp spec fn zip_entry(bytes: Seq<u8>, index: usize) -> Option<EntryInfo>;

/// The bytes that `read_to_end` unpacks of an entry; `None` where it fails.
pub uninterp spec fn zip_contents(bytes: Seq<u8>, index: usize) -> Option<Seq<u8>>;

/// `zip::ZipArchive::new` and `len`: the number of entries, by the archive's
/// central directory. Claimed is only that the bytes alone decide it.
#[verifier::external_body]
fn archive_len(bytes: &Vec<u8>) -> (r: Option<usize>)
    ensures
        r == zip_len(bytes@),
{
    zip::ZipArchive::new(std::io::Cursor::new(bytes)).ok().map(|a| a.len())
}

/// `zip::ZipArchive::by_index` with `is_dir`, `name` and `size` of the entry.
/// Claimed is that the bytes and the number alone decide them, and that a
/// directory is an entry whose name ends in a slash or a backslash.
#[verifier::external_body]
fn archive_entry(bytes: &Vec<u8>, index: usize) -> (r: Option<ZipEntry>)
    ensures
        entry_view(r) == zip_entry(bytes@, index),
        r matches Some(e) ==> e.dir == (e.name@.len() > 0 && (e.name@.last() == '/'
            || e.name@.last() == '\\')),
{
    let mut archive = zip::ZipArchive::new(std::io::Cursor::new(bytes)).ok()?;
    let entry = archive.by_index(index).ok()?;
    Some(ZipEntry { dir: entry.is_dir(), name: entry.name().to_owned(), size: entry.size() })
}

/// `zip::ZipArchive::by_index` and `std::io::Read::read_to_end` of the entry:
/// its bytes, unpacked. Claimed is only that the bytes of the archive and the
/// number alone decide them.
#[verifier::external_body]
fn archive_contents(bytes: &Vec<u8>, index: usize) -> (r: Option<Vec<u8>>)
    ensures
        zip_contents(bytes@, index) == (match r {
            Some(v) => Some(v@),
            None => None,
        }),
{
    let mut archive = zip::ZipArchive::new(std::io::Cursor::new(bytes)).ok()?;
    let mut entry = archive.by_index(index).ok()?;
    let mut out = Vec::new();
    std::io::Read::read_to_end(&mut entry, &mut out).ok()?;
    Some(out)
}

/// Whether text ends in an ending.
pub open spec fn ends_in(s: Seq<char>, ending: Seq<char>) -> bool {
    ending.len() <= s.len() && s.skip(s.len() - ending.len()) == ending
}

/// Whether a file name is that of a ROM, in any case.
pub open spec fn rom_name(name: Seq<char>) -> bool {
    let s = text::lowercase(name);
    ends_in(s, ".rom"@) || ends_in(s, ".mx1"@) || ends_in(s, ".mx2"@) || ends_in(s, ".bin"@)
}

fn has_ending(s: &Vec<char>, ending: &str) -> (r: bool)
    ensures
        r == ends_in(s@, ending@),
{
    let n = ending.unicode_len();
    if n > s.len() {
        return false;
    }
    let start: usize = s.len() - n;
    let mut i: usize = 0;
    while i < n
        invariant
            n == ending@.len(),
            start == s.len() - n,
            i <= n,
            forall|k: int| 0 <= k < i ==> s@[start + k] == ending@[k],
        decreases n - i,
    {
        if s[start + i] != ending.get_char(i) {
            assert(s@.skip(start as int)[i as int] != ending@[i as int]);
            return false;
        }
        i = i + 1;
    }
    assert(s@.skip(start as int) =~= ending@);
    true
}

fn is_rom_name(name: &String) -> (r: bool)
    ensures
        r == rom_name(name@),
{
    let s = text::lowered(&text::chars_of(name.as_str()));
    has_ending(&s, ".rom") || has_ending(&s, ".mx1") || has_ending(&s, ".mx2") || has_ending(
        &s,
        ".bin",
    )
}

/// Whether an entry is a better guess for the ROM than another: a ROM by its
/// name beats any other file, else the larger one wins.
pub open spec fn beats(a: EntryInfo, b: EntryInfo) -> bool {
    if rom_name(a.name) == rom_name(b.name) {
        a.size > b.size
    } else {
        rom_name(a.name)
    }
}

/// The best of the first `n` entries; directories and entries that could not be
/// read do not count, and the first of equals wins.
pub open spec fn best_entry(entries: Seq<Option<EntryInfo>>, n: int) -> Option<int>
    decreases n,
{
    if n <= 0 {
        None
    } else {
        let best = best_entry(entries, n - 1);
        match entries[n - 1] {
            Some(e) if !e.dir => match best {
                Some(k) if !beats(e, entries[k]->Some_0) => Some(k),
                _ => Some(n - 1),
            },
            _ => best,
        }
    }
}

/// Pick the entry to load.
pub fn pick_entry(entries: &Vec<Option<ZipEntry>>) -> (r: Option<usize>)
    ensures
        match r {
            Some(i) => i < entries.len() && best_entry(
                entries@.map_values(|e: Option<ZipEntry>| entry_view(e)),
                entries.len() as int,
            ) == Some(i as int),
            None => best_entry(
                entries@.map_values(|e: Option<ZipEntry>| entry_view(e)),
                entries.len() as int,
            ) is None,
        },
{
    let ghost infos = entries@.map_values(|e: Option<ZipEntry>| entry_view(e));
    let mut best: Option<usize> = None;
    let mut best_rom = false;
    let mut best_size: u64 = 0;
    let mut i: usize = 0;
    while i < entries.len()
        invariant
            infos == entries@.map_values(|e: Option<ZipEntry>| entry_view(e)),
            i <= entries.len(),
            match best {
                Some(k) => {
                    &&& k < i
                    &&& best_entry(infos, i as int) == Some(k as int)
                    &&& infos[k as int] is Some
                    &&& best_rom == rom_name(infos[k as int]->Some_0.name)
                    &&& best_size == infos[k as int]->Some_0.size
                },
                None => best_entry(infos, i as int) is None,
            },
        decreases entries.len() - i,
    {
        assert(infos[i as int] == entry_view(entries@[i as int]));
        if let Some(e) = &entries[i] {
            if !e.dir {
                let is_rom = is_rom_name(&e.name);
                let better = best.is_none() || (if is_rom == best_rom {
                    e.size > best_size
                } else {
                    is_rom
                });
                if better {
                    best = Some(i);
                    best_rom = is_rom;
                    best_size = e.size;
                }
            }
        }
        i = i + 1;
    }
    best
}

/// The signature that a zip archive starts with.
pub open spec fn zipped(bytes: Seq<u8>) -> bool {
    bytes.len() >= 4 && bytes[0] == 0x50 && bytes[1] == 0x4B && bytes[2] == 0x03 && bytes[3]
        == 0x04
}

/// The ROM in an archive: the bytes of the best entry, or the archive itself
/// where anything fails. Bytes that are no archive are the ROM.
pub open spec fn unzipped(bytes: Seq<u8>) -> Seq<u8> {
    if !zipped(bytes) {
        bytes
    } else {
        match zip_len(bytes) {
            None => bytes,
            Some(n) => match best_entry(
                Seq::new(n as nat, |i: int| zip_entry(bytes, i as usize)),
                n as int,
            ) {
                None => bytes,
                Some(k) => match zip_contents(bytes, k as usize) {
                    None => bytes,
                    Some(v) => v,
                },
            },
        }
    }
}

/// Unpack a ROM that comes in a zip archive.
pub fn unzip_rom(bytes: Vec<u8>) -> (r: Vec<u8>)
    ensures
        r@ == unzipped(bytes@),
{
    if bytes.len() < 4 || bytes[0] != 0x50 || bytes[1] != 0x4B || bytes[2] != 0x03 || bytes[3]
        != 0x04 {
        return bytes;
    }
    match try_extract(&bytes) {
        Some(v) => v,
        None => bytes,
    }
}

fn try_extract(bytes: &Vec<u8>) -> (r: Option<Vec<u8>>)
    requires
        zipped(bytes@),
    ensures
        unzipped(bytes@) == (match r {
            Some(v) => v@,
            None => bytes@,
        }),
{
    let n = match archive_len(bytes) {
        Some(n) => n,
        None => {
            return None;
        },
    };
    let mut entries: Vec<Option<ZipEntry>> = Vec::new();
    let mut i: usize = 0;
    while i < n
        invariant
            i <= n,
            entries.len() == i,
            forall|k: int|
                0 <= k < i ==> entry_view(#[trigger] entries@[k]) == zip_entry(bytes@, k as usize),
        decreases n - i,
    {
        entries.push(archive_entry(bytes, i));
        i = i + 1;
    }
    assert(entries@.map_values(|e: Option<ZipEntry>| entry_view(e)) =~= Seq::new(
        n as nat,
        |i: int| zip_entry(bytes@, i as usize),
    ));
    match pick_entry(&entries) {
        Some(k) => archive_contents(bytes, k),
        None => None,
    }
}

/// The entry that is picked is a file, and no other file beats it; in
/// particular it is a ROM by its name if there is one.
pub proof fn law_best_entry_is_unbeaten(entries: Seq<Option<EntryInfo>>, n: int, i: int)
    requires
        0 <= i < n <= entries.len(),
        entries[i] is Some,
        !entries[i]->Some_0.dir,
    ensures
        best_entry(entries, n) matches Some(k) && {
            &&& 0 <= k < n
            &&& entries[k] matches Some(e) && !e.dir && !beats(entries[i]->Some_0, e) && (rom_name(
                entries[i]->Some_0.name,
            ) ==> rom_name(e.name))
        },
    decreases n,
{
    if i < n - 1 {
        law_best_entry_is_unbeaten(entries, n - 1, i);
    } else {
        lemma_best_is_file(entries, n - 1);
    }
}

proof fn lemma_best_is_file(entries: Seq<Option<EntryInfo>>, n: int)
    requires
        0 <= n <= entries.len(),
    ensures
        best_entry(entries, n) matches Some(k) ==> 0 <= k < n && entries[k] is Some
            && !entries[k]->Some_0.dir,
    decreases n,
{
    if n > 0 {
        lemma_best_is_file(entries, n - 1);
    }
}

/// The bytes pass through untouched where the file is no archive, where it
/// cannot be opened as one, where none of its entries will do, and where the one
/// that was picked cannot be unpacked.
pub proof fn law_errors_keep_bytes(bytes: Seq<u8>)
    ensures
        !zipped(bytes) ==> unzipped(bytes) == bytes,
        zip_len(bytes) is None ==> unzipped(bytes) == bytes,
        zip_len(bytes) matches Some(n) ==> match best_entry(
            Seq::new(n as nat, |i: int| zip_entry(bytes, i as usize)),
            n as int,
        ) {
            None => unzipped(bytes) == bytes,
            Some(k) => zip_contents(bytes, k as usize) is None ==> unzipped(bytes) == bytes,
        },
{
}

} // verus!
