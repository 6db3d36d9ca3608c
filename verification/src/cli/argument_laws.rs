//! Which arguments of the command line count.
#[allow(unused_imports)]
use crate::cli::{
    after_prefix, disk_name, mapper_asked, mapper_name, positional, shader_asked, shader_name,
    MapperChoice,
};
#[allow(unused_imports)]
use crate::post::{law_labels_parse, shader_named, ShaderMode};
#[allow(unused_imports)]
use crate::slot::mapper::mapper_named;
#[allow(unused_imports)]
use crate::text::lowercase;
use vstd::prelude::*;

verus! {

/// What follows a prefix is what was joined to it.
pub proof fn law_prefixes(prefix: Seq<char>, rest: Seq<char>, s: Seq<char>)
    ensures
        after_prefix(prefix + rest, prefix) == Some(rest),
        after_prefix(s, prefix) matches Some(v) ==> s == prefix + v,
{
    assert((prefix + rest).take(prefix.len() as int) =~= prefix);
    assert((prefix + rest).skip(prefix.len() as int) =~= rest);
    if after_prefix(s, prefix) is Some {
        assert(s =~= prefix + s.skip(prefix.len() as int));
    }
}

/// Argument `k` names a value for a flag: it is the flag, an equals sign and the value, or
/// the flag alone with the value in the next argument.
pub open spec fn names(
    args: Seq<Seq<char>>,
    k: int,
    joined: Seq<char>,
    flag: Seq<char>,
    value: Seq<char>,
) -> bool {
    &&& 0 <= k < args.len()
    &&& args[k] == joined + value || (args[k] == flag && k + 1 < args.len() && args[k + 1] == value)
}

/// The mapper is one that an argument names. Where no argument is a flag for it there is none,
/// and one that the last argument names in one piece counts, unless it is itself a value.
pub proof fn law_mapper_is_named(args: Seq<Seq<char>>, value: Seq<char>)
    ensures
        mapper_name(args, 0, None) matches Some(v) ==> exists|k: int| #[trigger]
            names(args, k, "--mapper="@, "--mapper"@, v),
        (forall|k: int|
            0 <= k < args.len() ==> #[trigger] args[k] != "--mapper"@ && after_prefix(
                args[k],
                "--mapper="@,
            ) is None) ==> mapper_name(args, 0, None) is None,
        args.len() >= 1 && args.last() == "--mapper="@ + value && (args.len() >= 2
            ==> args[args.len() - 2] != "--mapper"@) ==> mapper_name(args, 0, None) == Some(value),
{
    lemma_mapper_named(args, 0, None);
    if forall|k: int|
        0 <= k < args.len() ==> #[trigger] args[k] != "--mapper"@ && after_prefix(
            args[k],
            "--mapper="@,
        ) is None {
        lemma_no_mapper(args, 0);
    }
    if args.len() >= 1 && args.last() == "--mapper="@ + value && (args.len() >= 2
        ==> args[args.len() - 2] != "--mapper"@) {
        lemma_last_mapper(args, value, 0, None);
    }
}

proof fn lemma_mapper_named(args: Seq<Seq<char>>, i: int, found: Option<Seq<char>>)
    requires
        0 <= i,
        found matches Some(v) ==> exists|k: int| #[trigger]
            names(args, k, "--mapper="@, "--mapper"@, v),
    ensures
        mapper_name(args, i, found) matches Some(v) ==> exists|k: int| #[trigger]
            names(args, k, "--mapper="@, "--mapper"@, v),
    decreases args.len() + 2 - i,
{
    if i < args.len() {
        match after_prefix(args[i], "--mapper="@) {
            Some(value) => {
                law_prefixes("--mapper="@, value, args[i]);
                assert(names(args, i, "--mapper="@, "--mapper"@, value));
                lemma_mapper_named(args, i + 1, Some(value));
            },
            None => if args[i] == "--mapper"@ {
                if i + 1 < args.len() {
                    let v = args[i + 1];
                    assert(names(args, i, "--mapper="@, "--mapper"@, v));
                    let next: Option<Seq<char>> = Some(v);
                    assert(next matches Some(w) ==> names(args, i, "--mapper="@, "--mapper"@, w));
                    lemma_mapper_named(args, i + 2, next);
                } else {
                    lemma_mapper_named(args, i + 2, None);
                }
            } else {
                lemma_mapper_named(args, i + 1, found);
            },
        }
    }
}

proof fn lemma_no_mapper(args: Seq<Seq<char>>, i: int)
    requires
        0 <= i,
        forall|k: int|
            0 <= k < args.len() ==> #[trigger] args[k] != "--mapper"@ && after_prefix(
                args[k],
                "--mapper="@,
            ) is None,
    ensures
        mapper_name(args, i, None) is None,
    decreases args.len() + 2 - i,
{
    if i < args.len() {
        lemma_no_mapper(args, i + 1);
    }
}

proof fn lemma_last_mapper(args: Seq<Seq<char>>, value: Seq<char>, i: int, found: Option<Seq<char>>)
    requires
        0 <= i < args.len(),
        args.last() == "--mapper="@ + value,
        args.len() >= 2 ==> args[args.len() - 2] != "--mapper"@,
    ensures
        mapper_name(args, i, found) == Some(value),
    decreases args.len() - i,
{
    law_prefixes("--mapper="@, value, args[i]);
    if i == args.len() - 1 {
        assert(mapper_name(args, i + 1, Some(value)) == Some(value));
    } else {
        match after_prefix(args[i], "--mapper="@) {
            Some(v) => lemma_last_mapper(args, value, i + 1, Some(v)),
            None => if args[i] == "--mapper"@ {
                assert(i + 2 < args.len());
                lemma_last_mapper(args, value, i + 2, Some(args[i + 1]));
            } else {
                lemma_last_mapper(args, value, i + 1, found);
            },
        }
    }
}

/// The shader is the first that an argument names.
pub proof fn law_first_shader(args: Seq<Seq<char>>, k: int, value: Seq<char>)
    requires
        names(args, k, "--shader="@, "--shader"@, value),
        forall|j: int, v: Seq<char>|
            0 <= j < k ==> !#[trigger] names(args, j, "--shader="@, "--shader"@, v),
    ensures
        shader_name(args, 0) == Some(value),
{
    lemma_first_shader(args, k, value, 0);
}

proof fn lemma_first_shader(args: Seq<Seq<char>>, k: int, value: Seq<char>, i: int)
    requires
        0 <= i <= k,
        names(args, k, "--shader="@, "--shader"@, value),
        forall|j: int, v: Seq<char>|
            0 <= j < k ==> !#[trigger] names(args, j, "--shader="@, "--shader"@, v),
    ensures
        shader_name(args, i) == Some(value),
    decreases k - i,
{
    reveal_strlit("--shader");
    reveal_strlit("--shader=");
    law_prefixes("--shader="@, value, args[i]);
    if i < k {
        if let Some(v) = after_prefix(args[i], "--shader="@) {
            assert(names(args, i, "--shader="@, "--shader"@, v));
        }
        if args[i] == "--shader"@ && i + 1 < args.len() {
            assert(names(args, i, "--shader="@, "--shader"@, args[i + 1]));
        }
        lemma_first_shader(args, k, value, i + 1);
    } else if args[k] != "--shader="@ + value {
        assert(args[k].len() == 8 && "--shader="@.len() == 9);
    }
}

/// Without an argument that names one there is no shader.
pub proof fn law_no_shader(args: Seq<Seq<char>>, i: int)
    requires
        0 <= i,
        forall|j: int, v: Seq<char>| !#[trigger] names(args, j, "--shader="@, "--shader"@, v),
    ensures
        shader_name(args, i) is None,
    decreases args.len() + 2 - i,
{
    if i < args.len() {
        law_no_shader(args, i + 1);
        if let Some(v) = after_prefix(args[i], "--shader="@) {
            law_prefixes("--shader="@, v, args[i]);
            assert(names(args, i, "--shader="@, "--shader"@, v));
        }
        if args[i] == "--shader"@ && i + 1 < args.len() {
            assert(names(args, i, "--shader="@, "--shader"@, args[i + 1]));
        }
    }
}

/// The disk is the first that an argument names, and there is none without one.
pub proof fn law_first_disk(args: Seq<Seq<char>>, i: int)
    requires
        0 <= i <= args.len(),
    ensures
        match disk_name(args, i) {
            Some(v) => exists|k: int|
                i <= k < args.len() && #[trigger] args[k] == "--disk="@ + v && forall|j: int|
                    i <= j < k ==> after_prefix(#[trigger] args[j], "--disk="@) is None,
            None => forall|j: int|
                i <= j < args.len() ==> after_prefix(#[trigger] args[j], "--disk="@) is None,
        },
    decreases args.len() - i,
{
    if i < args.len() {
        law_prefixes("--disk="@, seq![], args[i]);
        law_first_disk(args, i + 1);
        if after_prefix(args[i], "--disk="@) is None && disk_name(args, i + 1) is Some {
            let v = disk_name(args, i + 1)->Some_0;
            let k = choose|k: int|
                i + 1 <= k < args.len() && #[trigger] args[k] == "--disk="@ + v && forall|j: int|
                    i + 1 <= j < k ==> after_prefix(#[trigger] args[j], "--disk="@) is None;
            assert(args[k] == "--disk="@ + v);
        } else if after_prefix(args[i], "--disk="@) is Some {
            assert(args[i] == "--disk="@ + disk_name(args, i)->Some_0);
        }
    }
}

/// Argument `k` is the value of a flag before it that takes one, by the arguments from `i` on.
pub open spec fn flagged(args: Seq<Seq<char>>, i: int, k: int) -> bool
    decreases k - i,
{
    if i >= k {
        false
    } else if args[i] == "--shader"@ || args[i] == "--mapper"@ {
        i + 1 == k || flagged(args, i + 2, k)
    } else {
        flagged(args, i + 1, k)
    }
}

/// The cartridge is the first argument that does not start with two dashes and is not the value
/// of `--shader` or `--mapper`.
pub proof fn law_first_positional(args: Seq<Seq<char>>, i: int)
    requires
        0 <= i,
    ensures
        match positional(args, i) {
            Some(k) => {
                &&& i <= k < args.len()
                &&& after_prefix(args[k], "--"@) is None
                &&& !flagged(args, i, k)
                &&& forall|j: int|
                    i <= j < k ==> after_prefix(#[trigger] args[j], "--"@) is Some || flagged(
                        args,
                        i,
                        j,
                    )
            },
            None => forall|j: int|
                i <= j < args.len() ==> after_prefix(#[trigger] args[j], "--"@) is Some || flagged(
                    args,
                    i,
                    j,
                ),
        },
    decreases args.len() + 2 - i,
{
    lemma_flags_have_dashes();
    if i < args.len() {
        if args[i] == "--shader"@ || args[i] == "--mapper"@ {
            law_first_positional(args, i + 2);
            assert(flagged(args, i, i + 1));
            assert forall|j: int| i + 2 <= j implies flagged(args, i, j) == #[trigger] flagged(
                args,
                i + 2,
                j,
            ) by {}
        } else if after_prefix(args[i], "--"@) is Some {
            law_first_positional(args, i + 1);
            assert forall|j: int| i + 1 <= j implies flagged(args, i, j) == #[trigger] flagged(
                args,
                i + 1,
                j,
            ) by {}
        }
    }
}

proof fn lemma_flags_have_dashes()
    ensures
        after_prefix("--shader"@, "--"@) is Some,
        after_prefix("--mapper"@, "--"@) is Some,
{
    reveal_strlit("--shader");
    reveal_strlit("--mapper");
    reveal_strlit("--");
    assert("--shader"@.take(2) =~= "--"@);
    assert("--mapper"@.take(2) =~= "--"@);
}

/// A mapper is known by its name in any case. A name that is not known is handed back as it was
/// written, and without one the cartridge tells.
pub proof fn law_mapper_choice(name: Seq<char>, r: MapperChoice)
    ensures
        mapper_asked(None, r) <==> r is Detect,
        mapper_asked(Some(name), r) ==> match r {
            MapperChoice::Detect => false,
            MapperChoice::Forced(m) => mapper_named(lowercase(name)) == Some(m),
            MapperChoice::Unknown(s) => s@ == name && mapper_named(lowercase(name)) is None,
        },
{
}

/// The shader is `Sharp` without a name and under one that no shader has.
pub proof fn law_shader_choice(name: Seq<char>, m: ShaderMode)
    ensures
        shader_asked(None) == ShaderMode::Sharp,
        shader_named(name) is None ==> shader_asked(Some(name)) == ShaderMode::Sharp,
        shader_asked(Some(m.name())) == m,
{
    law_labels_parse(m);
}

} // verus!
