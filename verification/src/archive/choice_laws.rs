//! Which file of an archive is the ROM.
#[allow(unused_imports)]
use crate::archive::{
    best_entry, ends_in, rom_name, unzipped, zip_contents, zip_entry, zip_len, EntryInfo,
};
#[allow(unused_imports)]
use crate::text::{lower, lowercase};
use vstd::prelude::*;

verus! {

/// Entry `i` is a file that could be read.
pub open spec fn is_file(entries: Seq<Option<EntryInfo>>, i: int) -> bool {
    entries[i] is Some && !entries[i]->Some_0.dir
}

/// File `k` comes before file `i` as the ROM: it has the name of one and the other has not, or
/// both or neither do and it is larger, or as large and earlier in the archive.
pub open spec fn preferred(entries: Seq<Option<EntryInfo>>, k: int, i: int) -> bool {
    let a = entries[k]->Some_0;
    let b = entries[i]->Some_0;
    ||| rom_name(a.name) && !rom_name(b.name)
    ||| rom_name(a.name) == rom_name(b.name) && a.size > b.size
    ||| rom_name(a.name) == rom_name(b.name) && a.size == b.size && k < i
}

/// The file that is picked is preferred to every other. None is picked only where there is no
/// file.
pub proof fn law_picked_file(entries: Seq<Option<EntryInfo>>, n: int, i: int)
    requires
        0 <= n <= entries.len(),
        0 <= i < n,
    ensures
        is_file(entries, i) ==> best_entry(entries, n) is Some,
        best_entry(entries, n) matches Some(k) ==> {
            &&& 0 <= k < n
            &&& is_file(entries, k)
            &&& is_file(entries, i) && i != k ==> preferred(entries, k, i)
        },
    decreases n,
{
    if n > 1 {
        if i < n - 1 {
            law_picked_file(entries, n - 1, i);
        } else {
            law_picked_file(entries, n - 1, 0);
        }
        if best_entry(entries, n - 1) is Some {
            let k = best_entry(entries, n - 1)->Some_0;
            law_picked_file(entries, n - 1, k);
        }
    }
}

/// An archive that starts with its signature and can be read unpacks to the contents of a file
/// that is preferred to every other. Everything else stays as it is.
pub proof fn law_unpacked(bytes: Seq<u8>, i: int)
    requires
        zip_len(bytes) is Some,
        0 <= i < zip_len(bytes)->Some_0,
    ensures
        ({
            let n = zip_len(bytes)->Some_0;
            let entries = Seq::new(n as nat, |i: int| zip_entry(bytes, i as usize));
            let signed = bytes.len() >= 4 && bytes[0] == 0x50 && bytes[1] == 0x4B && bytes[2] == 3
                && bytes[3] == 4;
            &&& !signed ==> unzipped(bytes) == bytes
            &&& signed && is_file(entries, i) ==> exists|k: int|
                {
                    &&& 0 <= k < n
                    &&& #[trigger] is_file(entries, k)
                    &&& i != k ==> preferred(entries, k, i)
                    &&& unzipped(bytes) == (match zip_contents(bytes, k as usize) {
                        Some(v) => v,
                        None => bytes,
                    })
                }
        }),
{
    let n = zip_len(bytes)->Some_0;
    let entries = Seq::new(n as nat, |i: int| zip_entry(bytes, i as usize));
    law_picked_file(entries, n as int, i);
    if is_file(entries, i) {
        let k = best_entry(entries, n as int)->Some_0;
        assert(is_file(entries, k));
    }
}

/// A name is that of a ROM where it ends in a dot and `rom`, `mx1`, `mx2` or `bin`, in any case,
/// and nothing before the ending matters.
pub proof fn law_rom_names(stem: Seq<char>, name: Seq<char>)
    ensures
        rom_name(stem + ".rom"@),
        rom_name(stem + ".ROM"@),
        rom_name(stem + ".mx1"@),
        rom_name(stem + ".mx2"@),
        rom_name(stem + ".bin"@),
        rom_name(name) ==> rom_name(stem + name),
        name.len() >= 4 && rom_name(stem + name) ==> rom_name(name),
        rom_name(name) ==> name.len() >= 4 && name[name.len() - 4] == '.',
{
    reveal_strlit(".rom");
    reveal_strlit(".ROM");
    reveal_strlit(".mx1");
    reveal_strlit(".mx2");
    reveal_strlit(".bin");
    lemma_ending(stem + ".rom"@, stem, ".rom"@, ".rom"@);
    lemma_ending(stem + ".ROM"@, stem, ".ROM"@, ".rom"@);
    lemma_ending(stem + ".mx1"@, stem, ".mx1"@, ".mx1"@);
    lemma_ending(stem + ".mx2"@, stem, ".mx2"@, ".mx2"@);
    lemma_ending(stem + ".bin"@, stem, ".bin"@, ".bin"@);
    lemma_tail(stem, name, ".rom"@);
    lemma_tail(stem, name, ".mx1"@);
    lemma_tail(stem, name, ".mx2"@);
    lemma_tail(stem, name, ".bin"@);
    if rom_name(name) {
        let s = lowercase(name);
        let k = name.len() - 4;
        assert(s.skip(k)[0] == s[k]);
        assert(s[k] == lower(name[k]));
    }
}

proof fn lemma_ending(name: Seq<char>, stem: Seq<char>, end: Seq<char>, low: Seq<char>)
    requires
        name == stem + end,
        low.len() == end.len(),
        forall|i: int| 0 <= i < end.len() ==> lower(#[trigger] end[i]) == low[i],
    ensures
        ends_in(lowercase(name), low),
{
    let s = lowercase(name);
    assert(s.skip(s.len() - low.len()) =~= low);
}

proof fn lemma_tail(stem: Seq<char>, name: Seq<char>, end: Seq<char>)
    requires
        end.len() == 4,
    ensures
        ends_in(lowercase(name), end) ==> ends_in(lowercase(stem + name), end),
        name.len() >= 4 && ends_in(lowercase(stem + name), end) ==> ends_in(lowercase(name), end),
{
    let a = lowercase(name);
    let b = lowercase(stem + name);
    if name.len() >= 4 {
        assert(b.skip(b.len() - 4) =~= a.skip(a.len() - 4));
    }
}

} // verus!
