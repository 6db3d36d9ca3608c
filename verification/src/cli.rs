//! The command line: cartridge, mapper, shader and machine.
pub mod argument_laws;

use crate::bus::MachineRoms;
use crate::post::ShaderMode;
use crate::slot::CartridgeMapper;
use crate::text::{chars_of, spells, string_of};
use vstd::prelude::*;
use vstd::string::*;

verus! {

#[allow(unused_imports)]
use crate::bus::image;
#[allow(unused_imports)]
use crate::post::shader_named;
#[allow(unused_imports)]
use crate::slot::mapper::mapper_named;
#[allow(unused_imports)]
use crate::text::lowercase;

/// The arguments as texts.
pub open spec fn texts(args: Seq<String>) -> Seq<Seq<char>> {
    args.map_values(|s: String| s@)
}

/// What follows a prefix.
pub open spec fn after_prefix(s: Seq<char>, prefix: Seq<char>) -> Option<Seq<char>> {
    if prefix.len() <= s.len() && s.take(prefix.len() as int) == prefix {
        Some(s.skip(prefix.len() as int))
    } else {
        None
    }
}

/// The first argument from `i` on that is no flag and no value of one.
pub open spec fn positional(args: Seq<Seq<char>>, i: int) -> Option<int>
    decreases args.len() + 2 - i,
{
    if i >= args.len() {
        None
    } else if args[i] == "--shader"@ || args[i] == "--mapper"@ {
        positional(args, i + 2)
    } else if after_prefix(args[i], "--"@) is Some {
        positional(args, i + 1)
    } else {
        Some(i)
    }
}

/// The last mapper that is named from `i` on, or else `found`. A flag without a
/// value takes back what was named before it.
pub open spec fn mapper_name(
    args: Seq<Seq<char>>,
    i: int,
    found: Option<Seq<char>>,
) -> Option<Seq<char>>
    decreases args.len() + 2 - i,
{
    if i >= args.len() {
        found
    } else {
        match after_prefix(args[i], "--mapper="@) {
            Some(value) => mapper_name(args, i + 1, Some(value)),
            None => if args[i] == "--mapper"@ {
                mapper_name(args, i + 2, if i + 1 < args.len() {
                    Some(args[i + 1])
                } else {
                    None
                })
            } else {
                mapper_name(args, i + 1, found)
            },
        }
    }
}

/// The first shader that is named from `i` on.
pub open spec fn shader_name(args: Seq<Seq<char>>, i: int) -> Option<Seq<char>>
    decreases args.len() + 2 - i,
{
    if i >= args.len() {
        None
    } else {
        match after_prefix(args[i], "--shader="@) {
            Some(value) => Some(value),
            None => if args[i] == "--shader"@ && i + 1 < args.len() {
                Some(args[i + 1])
            } else {
                shader_name(args, i + 1)
            },
        }
    }
}

/// What follows a prefix.
fn strip(s: &Vec<char>, prefix: &str) -> (r: Option<Vec<char>>)
    ensures
        match r {
            Some(v) => after_prefix(s@, prefix@) == Some(v@),
            None => after_prefix(s@, prefix@) is None,
        },
{
    let p = chars_of(prefix);
    if p.len() > s.len() {
        return None;
    }
    let mut i: usize = 0;
    while i < p.len()
        invariant
            i <= p.len() <= s.len(),
            p@ == prefix@,
            forall|k: int| 0 <= k < i ==> s@[k] == p@[k],
        decreases p.len() - i,
    {
        if s[i] != p[i] {
            assert(s@.take(p.len() as int)[i as int] != p@[i as int]);
            return None;
        }
        i = i + 1;
    }
    assert(s@.take(p.len() as int) =~= prefix@);
    let mut rest: Vec<char> = Vec::new();
    while i < s.len()
        invariant
            p.len() <= i <= s.len(),
            rest@ == s@.subrange(p.len() as int, i as int),
        decreases s.len() - i,
    {
        rest.push(s[i]);
        i = i + 1;
        assert(rest@ =~= s@.subrange(p.len() as int, i as int));
    }
    assert(rest@ =~= s@.skip(p.len() as int));
    Some(rest)
}

/// Which argument is the path of the cartridge: the first that is no flag. The
/// values of `--shader` and `--mapper` are skipped with their flags.
pub fn cartridge_arg(args: &Vec<String>) -> (r: Option<usize>)
    ensures
        match r {
            Some(i) => positional(texts(args@), 0) == Some(i as int) && i < args.len(),
            None => positional(texts(args@), 0) is None,
        },
{
    let mut i: usize = 0;
    while i < args.len()
        invariant
            positional(texts(args@), 0) == positional(texts(args@), i as int),
        decreases args.len() - i,
    {
        let arg = chars_of(args[i].as_str());
        if spells(&arg, "--shader") || spells(&arg, "--mapper") {
            if args.len() - i <= 2 {
                assert(positional(texts(args@), i + 2) is None);
                return None;
            }
            i = i + 2;
        } else if strip(&arg, "--").is_some() {
            i = i + 1;
        } else {
            return Some(i);
        }
    }
    None
}

/// The mapper that the command line asks for.
pub enum MapperChoice {
    /// None: the cartridge tells.
    Detect,
    Forced(CartridgeMapper),
    /// A name that no mapper has: the cartridge tells.
    Unknown(String),
}

/// The mapper that a name asks for, if there is one.
pub open spec fn mapper_asked(name: Option<Seq<char>>, r: MapperChoice) -> bool {
    match name {
        None => r is Detect,
        Some(n) => match mapper_named(lowercase(n)) {
            Some(m) => r == MapperChoice::Forced(m),
            None => r matches MapperChoice::Unknown(s) && s@ == n,
        },
    }
}

/// The mapper that the command line asks for, with `--mapper <name>` or
/// `--mapper=<name>`. The last one counts.
pub fn mapper_choice(args: &Vec<String>) -> (r: MapperChoice)
    ensures
        mapper_asked(mapper_name(texts(args@), 0, None), r),
{
    let mut found: Option<Vec<char>> = None;
    let mut i: usize = 0;
    while i < args.len()
        invariant
            mapper_name(texts(args@), 0, None) == mapper_name(
                texts(args@),
                i as int,
                match found {
                    Some(v) => Some(v@),
                    None => None,
                },
            ),
        decreases args.len() - i,
    {
        let arg = chars_of(args[i].as_str());
        match strip(&arg, "--mapper=") {
            Some(value) => {
                found = Some(value);
                i = i + 1;
            },
            None => {
                if spells(&arg, "--mapper") {
                    if args.len() - i >= 2 {
                        found = Some(chars_of(args[i + 1].as_str()));
                        i = i + 2;
                    } else {
                        assert(mapper_name(texts(args@), i + 2, None) is None);
                        assert(mapper_name(texts(args@), i + 1, None) is None);
                        found = None;
                        i = i + 1;
                    }
                } else {
                    i = i + 1;
                }
            },
        }
    }
    match found {
        None => MapperChoice::Detect,
        Some(v) => {
            let name = string_of(&v);
            match CartridgeMapper::parse(name.as_str()) {
                Some(m) => MapperChoice::Forced(m),
                None => MapperChoice::Unknown(name),
            }
        },
    }
}

/// The shader of a name; `Sharp` where there is none or it is unknown.
pub open spec fn shader_asked(name: Option<Seq<char>>) -> ShaderMode {
    match name {
        Some(n) => match shader_named(n) {
            Some(m) => m,
            None => ShaderMode::Sharp,
        },
        None => ShaderMode::Sharp,
    }
}

fn shader_or_sharp(name: &str) -> (r: ShaderMode)
    ensures
        r == shader_asked(Some(name@)),
{
    match ShaderMode::parse(name) {
        Some(m) => m,
        None => ShaderMode::Sharp,
    }
}

/// The shader to start with, by `--shader <name>` or `--shader=<name>`. The first
/// one counts.
pub fn shader_choice(args: &Vec<String>) -> (r: ShaderMode)
    ensures
        r == shader_asked(shader_name(texts(args@), 0)),
{
    let mut i: usize = 0;
    while i < args.len()
        invariant
            shader_name(texts(args@), 0) == shader_name(texts(args@), i as int),
        decreases args.len() - i,
    {
        let arg = chars_of(args[i].as_str());
        match strip(&arg, "--shader=") {
            Some(value) => {
                let name = string_of(&value);
                return shader_or_sharp(name.as_str());
            },
            None => {
                if spells(&arg, "--shader") && args.len() - i >= 2 {
                    return shader_or_sharp(args[i + 1].as_str());
                }
            },
        }
        i = i + 1;
    }
    ShaderMode::Sharp
}

/// The first disk that is named from `i` on.
pub open spec fn disk_name(args: Seq<Seq<char>>, i: int) -> Option<Seq<char>>
    decreases args.len() - i,
{
    if i >= args.len() {
        None
    } else {
        match after_prefix(args[i], "--disk="@) {
            Some(value) => Some(value),
            None => disk_name(args, i + 1),
        }
    }
}

/// The path of the disk in the drive, by `--disk=<path>`.
pub fn disk_path(args: &Vec<String>) -> (r: Option<String>)
    ensures
        match r {
            Some(s) => disk_name(texts(args@), 0) == Some(s@),
            None => disk_name(texts(args@), 0) is None,
        },
{
    let mut i: usize = 0;
    while i < args.len()
        invariant
            disk_name(texts(args@), 0) == disk_name(texts(args@), i as int),
        decreases args.len() - i,
    {
        if let Some(value) = strip(&chars_of(args[i].as_str()), "--disk=") {
            return Some(string_of(&value));
        }
        i = i + 1;
    }
    None
}

/// The directory with the ROMs of a machine: `nms8245` has a place of its own, any
/// other choice is a path.
pub fn machine_dir(choice: &str) -> (r: String)
    ensures
        r@ == (if choice@ == "nms8245"@ {
            "assets/NMS8245"@
        } else {
            choice@
        }),
{
    if spells(&chars_of(choice), "nms8245") {
        "assets/NMS8245".to_owned()
    } else {
        choice.to_owned()
    }
}

/// The first 16 KiB of a ROM.
pub open spec fn first_bank(rom: Option<Vec<u8>>) -> Option<Seq<u8>> {
    match rom {
        Some(v) if v@.len() > 0x4000 => Some(v@.take(0x4000)),
        Some(v) => Some(v@),
        None => None,
    }
}

/// The machine with these ROMs, or the one with C-BIOS where the main ROM is not
/// 32 KiB or the extension not 16 KiB. Of an FM cartridge the first bank counts.
pub fn machine_of(
    main: Vec<u8>,
    ext: Vec<u8>,
    disk: Option<Vec<u8>>,
    disk_image: Option<Vec<u8>>,
    fmpac: Option<Vec<u8>>,
) -> (r: MachineRoms)
    ensures
        match r {
            MachineRoms::CBios => main.len() != 0x8000 || ext.len() != 0x4000,
            MachineRoms::Nms8245 { main: m, ext: e, disk: d, disk_image: i, fmpac: f } => {
                &&& main.len() == 0x8000 && ext.len() == 0x4000
                &&& m == main && e == ext && d == disk && i == disk_image
                &&& image(f) == first_bank(fmpac)
            },
        },
{
    if main.len() == 0x8000 && ext.len() == 0x4000 {
        let fmpac = match fmpac {
            Some(rom) => {
                let ghost all = rom@;
                let mut rom = rom;
                rom.truncate(0x4000);
                assert(all.len() <= 0x4000 ==> rom@ =~= all);
                assert(all.len() > 0x4000 ==> rom@ =~= all.take(0x4000));
                Some(rom)
            },
            None => None,
        };
        MachineRoms::Nms8245 { main, ext, disk, disk_image, fmpac }
    } else {
        MachineRoms::CBios
    }
}

/// A flag is never taken for the cartridge.
pub proof fn law_flags_are_no_cartridge(args: Seq<Seq<char>>, i: int)
    requires
        0 <= i,
    ensures
        positional(args, i) matches Some(k) ==> i <= k < args.len() && after_prefix(
            args[k],
            "--"@,
        ) is None,
    decreases args.len() + 2 - i,
{
    if i < args.len() {
        law_flags_are_no_cartridge(args, i + 1);
        law_flags_are_no_cartridge(args, i + 2);
    }
}

} // verus!
