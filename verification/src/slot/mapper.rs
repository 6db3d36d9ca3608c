//! Which mapper a cartridge has.
use crate::text;
use vstd::prelude::*;
use vstd::string::*;

verus! {

/// How a cartridge switches banks.
#[derive(Debug, PartialEq, Eq, Clone, Copy, Structural)]
pub enum CartridgeMapper {
    /// No banks: up to 32 KiB at 0x4000.
    Plain,
    /// Konami without the SCC.
    KonamiBasic,
    /// Konami with the SCC.
    KonamiSCC,
    /// ASCII with banks of 8 KiB.
    Ascii8,
    /// ASCII with banks of 16 KiB.
    Ascii16,
}

/// The mapper that a name in lower case stands for.
pub open spec fn mapper_named(name: Seq<char>) -> Option<CartridgeMapper> {
    if name == "plain"@ {
        Some(CartridgeMapper::Plain)
    } else if name == "konami"@ {
        Some(CartridgeMapper::KonamiBasic)
    } else if name == "konami-scc"@ || name == "scc"@ {
        Some(CartridgeMapper::KonamiSCC)
    } else if name == "ascii8"@ {
        Some(CartridgeMapper::Ascii8)
    } else if name == "ascii16"@ {
        Some(CartridgeMapper::Ascii16)
    } else {
        None
    }
}

impl CartridgeMapper {
    /// The mapper that a name stands for, in any case.
    pub fn parse(name: &str) -> (r: Option<Self>)
        ensures
            r == mapper_named(text::lowercase(name@)),
    {
        let name = text::lowered(&text::chars_of(name));
        if text::spells(&name, "plain") {
            Some(CartridgeMapper::Plain)
        } else if text::spells(&name, "konami") {
            Some(CartridgeMapper::KonamiBasic)
        } else if text::spells(&name, "konami-scc") || text::spells(&name, "scc") {
            Some(CartridgeMapper::KonamiSCC)
        } else if text::spells(&name, "ascii8") {
            Some(CartridgeMapper::Ascii8)
        } else if text::spells(&name, "ascii16") {
            Some(CartridgeMapper::Ascii16)
        } else {
            None
        }
    }

    /// The names, for messages.
    pub fn name_list() -> (r: String)
        ensures
            r@ == "plain, konami, konami-scc, scc, ascii8, ascii16"@,
    {
        "plain, konami, konami-scc, scc, ascii8, ascii16".to_owned()
    }
}

/// The address that the instruction at `i` stores A to, if it is one that does.
pub open spec fn store_target(rom: Seq<u8>, i: int) -> Option<int> {
    if rom[i] == 0x32 {
        Some(rom[i + 1] + 256 * rom[i + 2])
    } else {
        None
    }
}

/// Whether a store to an address looks like a bank switch of a mapper.
pub open spec fn switches(mapper: CartridgeMapper, a: int) -> bool {
    match mapper {
        CartridgeMapper::Plain => false,
        CartridgeMapper::KonamiBasic => a == 0x4000 || a == 0x6000 || a == 0x8000 || a == 0xA000,
        CartridgeMapper::KonamiSCC => a == 0x5000 || a == 0x7000 || a == 0x9000 || a == 0xB000,
        CartridgeMapper::Ascii8 => a == 0x6000 || a == 0x6800 || a == 0x7000 || a == 0x7800,
        CartridgeMapper::Ascii16 => a == 0x6000 || a == 0x7000 || a == 0x77FF,
    }
}

/// How many of the first `n` places of a ROM hold a bank switch of a mapper.
pub open spec fn switch_count(rom: Seq<u8>, mapper: CartridgeMapper, n: int) -> int
    decreases n,
{
    if n <= 0 {
        0
    } else {
        switch_count(rom, mapper, n - 1) + match store_target(rom, n - 1) {
            Some(a) if switches(mapper, a) => 1int,
            _ => 0,
        }
    }
}

/// The score of a mapper: its bank switches, with one extra for Konami as the
/// fallback, and one less for ASCII8, whose switches ASCII16 shares.
pub open spec fn score(rom: Seq<u8>, mapper: CartridgeMapper) -> int {
    switch_count(rom, mapper, rom.len() - 2) + match mapper {
        CartridgeMapper::KonamiBasic => 1int,
        CartridgeMapper::Ascii8 => -1,
        _ => 0,
    }
}

/// The better of two mappers; the first where they are equal.
pub open spec fn better(rom: Seq<u8>, a: CartridgeMapper, b: CartridgeMapper) -> CartridgeMapper {
    if score(rom, b) > score(rom, a) {
        b
    } else {
        a
    }
}

/// The mapper of a ROM: none up to 32 KiB, else the one with the best score.
pub open spec fn detected(rom: Seq<u8>) -> CartridgeMapper {
    if rom.len() <= 32768 {
        CartridgeMapper::Plain
    } else {
        let a = better(rom, CartridgeMapper::KonamiBasic, CartridgeMapper::KonamiSCC);
        let b = better(rom, a, CartridgeMapper::Ascii8);
        better(rom, b, CartridgeMapper::Ascii16)
    }
}

/// Guess the mapper of a ROM from the addresses that it stores to.
pub fn detect_mapper(rom: &[u8]) -> (r: CartridgeMapper)
    ensures
        r == detected(rom@),
{
    if rom.len() <= 32768 {
        return CartridgeMapper::Plain;
    }
    // One more than the scores, so that none is negative.
    let mut kon: usize = 2;
    let mut scc: usize = 1;
    let mut a8: usize = 0;
    let mut a16: usize = 1;
    let n: usize = rom.len() - 2;
    let mut i: usize = 0;
    while i < n
        invariant
            n == rom.len() - 2,
            i <= n,
            kon == 2 + switch_count(rom@, CartridgeMapper::KonamiBasic, i as int),
            scc == 1 + switch_count(rom@, CartridgeMapper::KonamiSCC, i as int),
            a8 == switch_count(rom@, CartridgeMapper::Ascii8, i as int),
            a16 == 1 + switch_count(rom@, CartridgeMapper::Ascii16, i as int),
            kon <= 2 + i,
            scc <= 1 + i,
            a8 <= i,
            a16 <= 1 + i,
        decreases n - i,
    {
        if rom[i] == 0x32 {
            let target: u32 = rom[i + 1] as u32 + 256 * rom[i + 2] as u32;
            match target {
                0x5000 | 0x9000 | 0xB000 => {
                    scc = scc + 1;
                },
                0x4000 | 0x8000 | 0xA000 => {
                    kon = kon + 1;
                },
                0x6800 | 0x7800 => {
                    a8 = a8 + 1;
                },
                0x6000 => {
                    kon = kon + 1;
                    a8 = a8 + 1;
                    a16 = a16 + 1;
                },
                0x7000 => {
                    scc = scc + 1;
                    a8 = a8 + 1;
                    a16 = a16 + 1;
                },
                0x77FF => {
                    a16 = a16 + 1;
                },
                _ => {},
            }
        }
        i = i + 1;
    }
    let mut best: usize = kon;
    let mut mapper = CartridgeMapper::KonamiBasic;
    if scc > best {
        best = scc;
        mapper = CartridgeMapper::KonamiSCC;
    }
    if a8 > best {
        best = a8;
        mapper = CartridgeMapper::Ascii8;
    }
    if a16 > best {
        mapper = CartridgeMapper::Ascii16;
    }
    mapper
}

/// The mapper that is found has the best score of all.
pub proof fn law_detected_scores_best(rom: Seq<u8>, mapper: CartridgeMapper)
    requires
        rom.len() > 32768,
        mapper != CartridgeMapper::Plain,
    ensures
        score(rom, mapper) <= score(rom, detected(rom)),
{
}

} // verus!
