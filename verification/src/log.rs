//! Which categories are logged, as a list of names selects them.
use crate::text::{chars_of, spells, split_commas, string_of, trimmed};
use vstd::prelude::*;

pub mod cat;

verus! {

#[allow(unused_imports)]
use crate::text::{fields, law_fields_join, law_no_comma_one_field, trim};

/// The bits that a name stands for: none where it is unknown.
pub open spec fn category(name: Seq<char>) -> Option<u32> {
    if name == "vdp_cmd"@ {
        Some(cat::VDP_CMD)
    } else if name == "vdp_pal"@ {
        Some(cat::VDP_PAL)
    } else if name == "vdp_sprite"@ {
        Some(cat::VDP_SPRITE)
    } else if name == "vdp_reg"@ {
        Some(cat::VDP_REG)
    } else if name == "psg"@ {
        Some(cat::PSG)
    } else if name == "scc"@ {
        Some(cat::SCC)
    } else if name == "slot"@ {
        Some(cat::SLOT)
    } else if name == "bus"@ {
        Some(cat::BUS)
    } else if name == "fm"@ {
        Some(cat::FM)
    } else if name == "all"@ {
        Some(cat::ALL)
    } else {
        None
    }
}

/// The bits of a name, where an unknown one has none.
pub open spec fn bits(name: Seq<char>) -> u32 {
    match category(name) {
        Some(b) => b,
        None => 0,
    }
}

/// The bits of all the names together.
pub open spec fn mask_of(names: Seq<Seq<char>>) -> u32
    decreases names.len(),
{
    if names.len() == 0 {
        0
    } else {
        mask_of(names.drop_last()) | bits(trim(names.last()))
    }
}

/// The names, trimmed, that are neither empty nor known.
pub open spec fn unknown_of(names: Seq<Seq<char>>) -> Seq<Seq<char>>
    decreases names.len(),
{
    if names.len() == 0 {
        Seq::empty()
    } else {
        let name = trim(names.last());
        if name.len() > 0 && category(name) is None {
            unknown_of(names.drop_last()).push(name)
        } else {
            unknown_of(names.drop_last())
        }
    }
}

fn category_named(name: &Vec<char>) -> (r: Option<u32>)
    ensures
        r == category(name@),
{
    if spells(name, "vdp_cmd") {
        Some(cat::VDP_CMD)
    } else if spells(name, "vdp_pal") {
        Some(cat::VDP_PAL)
    } else if spells(name, "vdp_sprite") {
        Some(cat::VDP_SPRITE)
    } else if spells(name, "vdp_reg") {
        Some(cat::VDP_REG)
    } else if spells(name, "psg") {
        Some(cat::PSG)
    } else if spells(name, "scc") {
        Some(cat::SCC)
    } else if spells(name, "slot") {
        Some(cat::SLOT)
    } else if spells(name, "bus") {
        Some(cat::BUS)
    } else if spells(name, "fm") {
        Some(cat::FM)
    } else if spells(name, "all") {
        Some(cat::ALL)
    } else {
        None
    }
}

/// Whether one of the categories `cat` is among those enabled.
pub fn is_enabled(enabled: u32, cat: u32) -> (r: bool)
    ensures
        r == (enabled & cat != 0),
{
    enabled & cat != 0
}

/// Enable these categories, and no others.
pub fn set_enabled(enabled: &mut u32, mask: u32)
    ensures
        *final(enabled) == mask,
{
    *enabled = mask;
}

/// What a list of names with commas between them says: the bits of the names
/// that are known, and the others.
pub fn parse_names(s: &str) -> (r: (u32, Vec<String>))
    ensures
        r.0 == mask_of(fields(s@)),
        r.1.len() == unknown_of(fields(s@)).len(),
        forall|i: int| 0 <= i < r.1.len() ==> #[trigger] r.1@[i]@ == unknown_of(fields(s@))[i],
{
    let parts = split_commas(&chars_of(s));
    let mut mask: u32 = 0;
    let mut unknown: Vec<String> = Vec::new();
    let mut i: usize = 0;
    assert(fields(s@).take(0) =~= Seq::<Seq<char>>::empty());
    while i < parts.len()
        invariant
            i <= parts.len(),
            parts.len() == fields(s@).len(),
            forall|k: int| 0 <= k < parts.len() ==> #[trigger] parts@[k]@ == fields(s@)[k],
            mask == mask_of(fields(s@).take(i as int)),
            unknown.len() == unknown_of(fields(s@).take(i as int)).len(),
            forall|k: int|
                0 <= k < unknown.len() ==> #[trigger] unknown@[k]@ == unknown_of(
                    fields(s@).take(i as int),
                )[k],
        decreases parts.len() - i,
    {
        proof {
            let next = fields(s@).take(i + 1);
            assert(next.drop_last() =~= fields(s@).take(i as int));
            assert(next.last() == parts@[i as int]@);
        }
        let name = trimmed(&parts[i]);
        let known = category_named(&name);
        mask = mask | match known {
            Some(b) => b,
            None => 0,
        };
        if name.len() > 0 && known.is_none() {
            unknown.push(string_of(&name));
        }
        i = i + 1;
    }
    assert(fields(s@).take(parts.len() as int) =~= fields(s@));
    (mask, unknown)
}

/// The categories that a list of names with commas between them enables. Blanks
/// round a name are ignored, empty and unknown names add nothing.
pub fn parse_mask(s: &str) -> (r: u32)
    ensures
        r == mask_of(fields(s@)),
{
    parse_names(s).0
}

/// Every name in the list enables its category, whatever else is in the list.
pub proof fn law_names_enable(names: Seq<Seq<char>>, i: int)
    requires
        0 <= i < names.len(),
    ensures
        mask_of(names) & bits(trim(names[i])) == bits(trim(names[i])),
    decreases names.len(),
{
    let a = mask_of(names.drop_last());
    let b = bits(trim(names.last()));
    let x = bits(trim(names[i]));
    if i == names.len() - 1 {
        assert((a | b) & b == b) by (bit_vector);
    } else {
        law_names_enable(names.drop_last(), i);
        assert(a & x == x ==> (a | b) & x == x) by (bit_vector);
    }
}

/// Names that are not in the list enable nothing: without a name that has the
/// bit, the bit is off.
pub proof fn law_only_names_enable(names: Seq<Seq<char>>, bit: u32)
    requires
        forall|i: int| 0 <= i < names.len() ==> #[trigger] bits(trim(names[i])) & bit == 0,
    ensures
        mask_of(names) & bit == 0,
    decreases names.len(),
{
    if names.len() == 0 {
        assert(0u32 & bit == 0) by (bit_vector);
    } else {
        let a = mask_of(names.drop_last());
        let b = bits(trim(names.last()));
        assert forall|i: int| 0 <= i < names.drop_last().len() implies #[trigger] bits(
            trim(names.drop_last()[i]),
        ) & bit == 0 by {
            assert(bits(trim(names[i])) & bit == 0);
        }
        law_only_names_enable(names.drop_last(), bit);
        assert(bits(trim(names[names.len() - 1])) & bit == 0);
        assert(a & bit == 0 && b & bit == 0 ==> (a | b) & bit == 0) by (bit_vector);
    }
}

proof fn lemma_masks_join(a: Seq<Seq<char>>, b: Seq<Seq<char>>)
    ensures
        mask_of(a + b) == mask_of(a) | mask_of(b),
        unknown_of(a + b) == unknown_of(a) + unknown_of(b),
    decreases b.len(),
{
    let x = mask_of(a);
    if b.len() == 0 {
        assert(a + b =~= a);
        assert(x | 0 == x) by (bit_vector);
        assert(unknown_of(a) + unknown_of(b) =~= unknown_of(a));
    } else {
        lemma_masks_join(a, b.drop_last());
        assert((a + b).drop_last() =~= a + b.drop_last());
        let y = mask_of(b.drop_last());
        let z = bits(trim(b.last()));
        assert((x | y) | z == x | (y | z)) by (bit_vector);
        assert(unknown_of(a + b) =~= unknown_of(a) + unknown_of(b));
    }
}

/// Two lists with a comma between them enable what the one enables and what the
/// other enables, and complain of what the one complains of, then the other.
pub proof fn law_lists_join(a: Seq<char>, b: Seq<char>)
    ensures
        mask_of(fields(a + seq![','] + b)) == mask_of(fields(a)) | mask_of(fields(b)),
        unknown_of(fields(a + seq![','] + b)) == unknown_of(fields(a)) + unknown_of(fields(b)),
{
    law_fields_join(a, b);
    lemma_masks_join(fields(a), fields(b));
}

/// A list without a comma is one name.
pub proof fn law_single_name(s: Seq<char>)
    requires
        forall|i: int| 0 <= i < s.len() ==> #[trigger] s[i] != ',',
    ensures
        mask_of(fields(s)) == bits(trim(s)),
{
    law_no_comma_one_field(s);
    let x = bits(trim(s));
    assert(seq![s].drop_last() =~= Seq::<Seq<char>>::empty());
    assert(mask_of(Seq::<Seq<char>>::empty()) == 0);
    assert(0u32 | x == x) by (bit_vector);
}

/// Each category has a bit of its own, and `all` has every bit.
pub proof fn law_categories_are_apart()
    ensures
        cat::VDP_CMD == 1,
        cat::VDP_PAL == 2 * cat::VDP_CMD,
        cat::VDP_SPRITE == 2 * cat::VDP_PAL,
        cat::VDP_REG == 2 * cat::VDP_SPRITE,
        cat::PSG == 2 * cat::VDP_REG,
        cat::SCC == 2 * cat::PSG,
        cat::SLOT == 2 * cat::SCC,
        cat::BUS == 2 * cat::SLOT,
        cat::FM == 2 * cat::BUS,
        cat::ALL == u32::MAX,
{
}

} // verus!
