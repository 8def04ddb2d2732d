use vstd::prelude::*;
use crate::bindings::{lemma_sorted_bindings_canonical, pair_text, pair_tokens, Binding};
use crate::options::{
    command_text, command_tokens, disable_tokens, export_tokens, launcher_words,
    optimization_flag, runtime_name, use_tokens, CompilerOptions, Launcher,
};
use crate::tokens::{has_no_white_space, is_white_space, is_word, lemma_words_of_spaced, words};

verus! {

/// Turning on bulk memory takes the tokens `--disable bulk-memory` out of the
/// command and puts nothing in their place.
pub proof fn lemma_enable_bulk_memory(o: CompilerOptions, l: Launcher, s: Seq<char>, t: Seq<char>)
    requires
        !o.enable_bulk_memory,
    ensures
        exists|p: Seq<Seq<char>>, q: Seq<Seq<char>>|
            command_tokens(o, l, s, t) == p + seq!["--disable"@, "bulk-memory"@] + q
                && command_tokens(CompilerOptions { enable_bulk_memory: true, ..o }, l, s, t) == p
                + q,
{
    let on = CompilerOptions { enable_bulk_memory: true, ..o };
    let p = launcher_words(l).push(s).push("-o"@).push(t).push(
        optimization_flag(o.optimization_strategy),
    );
    let q = (disable_tokens(o.enable_sign_extension, "sign-extension"@) + disable_tokens(
        o.enable_nontrapping_f2i,
        "nontrapping-f2i"@,
    )).push("--runtime"@).push(runtime_name(o.runtime)) + export_tokens(o.enable_export_memory)
        + use_tokens(o.flag_use@, o.trap_on_abort);
    assert(command_tokens(o, l, s, t) =~= p + seq!["--disable"@, "bulk-memory"@] + q);
    assert(command_tokens(on, l, s, t) =~= p + q);
}

/// Turning on sign extension takes the tokens `--disable sign-extension` out
/// of the command and puts nothing in their place.
pub proof fn lemma_enable_sign_extension(o: CompilerOptions, l: Launcher, s: Seq<char>, t: Seq<char>)
    requires
        !o.enable_sign_extension,
    ensures
        exists|p: Seq<Seq<char>>, q: Seq<Seq<char>>|
            command_tokens(o, l, s, t) == p + seq!["--disable"@, "sign-extension"@] + q
                && command_tokens(CompilerOptions { enable_sign_extension: true, ..o }, l, s, t)
                == p + q,
{
    let on = CompilerOptions { enable_sign_extension: true, ..o };
    let p = launcher_words(l).push(s).push("-o"@).push(t).push(
        optimization_flag(o.optimization_strategy),
    ) + disable_tokens(o.enable_bulk_memory, "bulk-memory"@);
    let q = disable_tokens(o.enable_nontrapping_f2i, "nontrapping-f2i"@).push("--runtime"@).push(
        runtime_name(o.runtime),
    ) + export_tokens(o.enable_export_memory) + use_tokens(o.flag_use@, o.trap_on_abort);
    assert(command_tokens(o, l, s, t) =~= p + seq!["--disable"@, "sign-extension"@] + q);
    assert(command_tokens(on, l, s, t) =~= p + q);
}

/// Turning on non-trapping float-to-int conversions takes the tokens
/// `--disable nontrapping-f2i` out of the command and puts nothing in their place.
pub proof fn lemma_enable_nontrapping_f2i(o: CompilerOptions, l: Launcher, s: Seq<char>, t: Seq<char>)
    requires
        !o.enable_nontrapping_f2i,
    ensures
        exists|p: Seq<Seq<char>>, q: Seq<Seq<char>>|
            command_tokens(o, l, s, t) == p + seq!["--disable"@, "nontrapping-f2i"@] + q
                && command_tokens(CompilerOptions { enable_nontrapping_f2i: true, ..o }, l, s, t)
                == p + q,
{
    let on = CompilerOptions { enable_nontrapping_f2i: true, ..o };
    let p = launcher_words(l).push(s).push("-o"@).push(t).push(
        optimization_flag(o.optimization_strategy),
    ) + disable_tokens(o.enable_bulk_memory, "bulk-memory"@) + disable_tokens(
        o.enable_sign_extension,
        "sign-extension"@,
    );
    let q = seq!["--runtime"@, runtime_name(o.runtime)] + export_tokens(o.enable_export_memory)
        + use_tokens(o.flag_use@, o.trap_on_abort);
    assert(command_tokens(o, l, s, t) =~= p + seq!["--disable"@, "nontrapping-f2i"@] + q);
    assert(command_tokens(on, l, s, t) =~= p + q);
}

/// Exporting the memory takes the token `--noExportMemory` out of the command
/// and puts nothing in its place.
pub proof fn lemma_enable_export_memory(o: CompilerOptions, l: Launcher, s: Seq<char>, t: Seq<char>)
    requires
        !o.enable_export_memory,
    ensures
        exists|p: Seq<Seq<char>>, q: Seq<Seq<char>>|
            command_tokens(o, l, s, t) == p + seq!["--noExportMemory"@] + q
                && command_tokens(CompilerOptions { enable_export_memory: true, ..o }, l, s, t)
                == p + q,
{
    let on = CompilerOptions { enable_export_memory: true, ..o };
    let p = (launcher_words(l).push(s).push("-o"@).push(t).push(
        optimization_flag(o.optimization_strategy),
    ) + disable_tokens(o.enable_bulk_memory, "bulk-memory"@) + disable_tokens(
        o.enable_sign_extension,
        "sign-extension"@,
    ) + disable_tokens(o.enable_nontrapping_f2i, "nontrapping-f2i"@)).push("--runtime"@).push(
        runtime_name(o.runtime),
    );
    let q = use_tokens(o.flag_use@, o.trap_on_abort);
    assert(command_tokens(o, l, s, t) =~= p + seq!["--noExportMemory"@] + q);
    assert(command_tokens(on, l, s, t) =~= p + q);
}

/// Without bindings, turning off the trap on abort takes the whole clause
/// `--lib . --use abort=custom_abort` out of the command, which then ends
/// with the tokens that stood before it.
pub proof fn lemma_no_trap_no_bindings(o: CompilerOptions, l: Launcher, s: Seq<char>, t: Seq<char>)
    requires
        o.trap_on_abort,
        o.flag_use@.len() == 0,
    ensures
        exists|p: Seq<Seq<char>>|
            command_tokens(o, l, s, t) == p + seq![
                "--lib"@,
                "."@,
                "--use"@,
                "abort=custom_abort"@,
            ] && command_tokens(CompilerOptions { trap_on_abort: false, ..o }, l, s, t) == p,
{
    let off = CompilerOptions { trap_on_abort: false, ..o };
    let p = (launcher_words(l).push(s).push("-o"@).push(t).push(
        optimization_flag(o.optimization_strategy),
    ) + disable_tokens(o.enable_bulk_memory, "bulk-memory"@) + disable_tokens(
        o.enable_sign_extension,
        "sign-extension"@,
    ) + disable_tokens(o.enable_nontrapping_f2i, "nontrapping-f2i"@)).push("--runtime"@).push(
        runtime_name(o.runtime),
    ) + export_tokens(o.enable_export_memory);
    assert(pair_tokens(o.flag_use@) =~= Seq::<Seq<char>>::empty());
    assert(command_tokens(o, l, s, t) =~= p + seq![
        "--lib"@,
        "."@,
        "--use"@,
        "abort=custom_abort"@,
    ]);
    assert(command_tokens(off, l, s, t) =~= p);
}

/// With one binding, the clause is `--use key=value` without the trap on
/// abort, and `--lib . --use key=value abort=custom_abort` with it; the
/// tokens before the clause are the same either way.
pub proof fn lemma_single_binding_clause(o: CompilerOptions, l: Launcher, s: Seq<char>, t: Seq<char>)
    requires
        o.flag_use@.len() == 1,
    ensures
        exists|p: Seq<Seq<char>>|
            command_tokens(CompilerOptions { trap_on_abort: false, ..o }, l, s, t) == p + seq![
                "--use"@,
                pair_text(o.flag_use@[0]),
            ] && command_tokens(CompilerOptions { trap_on_abort: true, ..o }, l, s, t) == p
                + seq!["--lib"@, "."@, "--use"@, pair_text(o.flag_use@[0]), "abort=custom_abort"@],
{
    let off = CompilerOptions { trap_on_abort: false, ..o };
    let on = CompilerOptions { trap_on_abort: true, ..o };
    let p = (launcher_words(l).push(s).push("-o"@).push(t).push(
        optimization_flag(o.optimization_strategy),
    ) + disable_tokens(o.enable_bulk_memory, "bulk-memory"@) + disable_tokens(
        o.enable_sign_extension,
        "sign-extension"@,
    ) + disable_tokens(o.enable_nontrapping_f2i, "nontrapping-f2i"@)).push("--runtime"@).push(
        runtime_name(o.runtime),
    ) + export_tokens(o.enable_export_memory);
    assert(pair_tokens(o.flag_use@) =~= seq![pair_text(o.flag_use@[0])]);
    assert(command_tokens(off, l, s, t) =~= p + seq!["--use"@, pair_text(o.flag_use@[0])]);
    assert(command_tokens(on, l, s, t) =~= p + seq![
        "--lib"@,
        "."@,
        "--use"@,
        pair_text(o.flag_use@[0]),
        "abort=custom_abort"@,
    ]);
}

/// The command depends on the settings alone: two options with the same
/// settings and the same bindings, whatever order the bindings were added
/// in, give the same command, byte for byte.
pub proof fn lemma_command_deterministic(
    a: CompilerOptions,
    b: CompilerOptions,
    l: Launcher,
    s: Seq<char>,
    t: Seq<char>,
)
    requires
        a.flag_use.wf(),
        b.flag_use.wf(),
        a.flag_use@.to_set() == b.flag_use@.to_set(),
        a.optimization_strategy == b.optimization_strategy,
        a.enable_bulk_memory == b.enable_bulk_memory,
        a.enable_sign_extension == b.enable_sign_extension,
        a.enable_nontrapping_f2i == b.enable_nontrapping_f2i,
        a.enable_export_memory == b.enable_export_memory,
        a.trap_on_abort == b.trap_on_abort,
        a.runtime == b.runtime,
    ensures
        command_text(a, l, s, t) == command_text(b, l, s, t),
{
    lemma_sorted_bindings_canonical(a.flag_use@, b.flag_use@);
}

/// One of the flags `-O1`, `-O2` and `-O3`.
pub open spec fn is_optimization_flag(w: Seq<char>) -> bool {
    w == "-O1"@ || w == "-O2"@ || w == "-O3"@
}

/// A path in quoted form that is one word: it begins with a double quote and
/// holds no white space.
pub open spec fn is_quoted_word(q: Seq<char>) -> bool {
    is_word(q) && q[0] == '"'
}

/// No key and no value of the bindings holds white space.
pub open spec fn bindings_without_white_space(pairs: Seq<Binding>) -> bool {
    forall|i: int|
        0 <= i < pairs.len() ==> has_no_white_space(#[trigger] pairs[i].0) && has_no_white_space(
            pairs[i].1,
        )
}

/// A word that is neither an optimization flag nor `--runtime`.
spec fn plain_word(w: Seq<char>) -> bool {
    is_word(w) && !is_optimization_flag(w) && w != "--runtime"@
}

spec fn all_plain(t: Seq<Seq<char>>) -> bool {
    forall|i: int| 0 <= i < t.len() ==> plain_word(#[trigger] t[i])
}

proof fn lemma_flags_are_words()
    ensures
        is_word("-O1"@),
        is_word("-O2"@),
        is_word("-O3"@),
        is_word("--runtime"@),
        !is_optimization_flag("--runtime"@),
{
    reveal_strlit("-O1");
    reveal_strlit("-O2");
    reveal_strlit("-O3");
    reveal_strlit("--runtime");
}

/// A word is plain when it is neither three characters long beginning with
/// `-O` nor nine characters long beginning with `--r`.
proof fn lemma_plain_by_shape(w: Seq<char>)
    requires
        is_word(w),
        !(w.len() == 3 && w[0] == '-' && w[1] == 'O'),
        !(w.len() == 9 && w[0] == '-' && w[1] == '-' && w[2] == 'r'),
    ensures
        plain_word(w),
{
    reveal_strlit("-O1");
    reveal_strlit("-O2");
    reveal_strlit("-O3");
    reveal_strlit("--runtime");
    if w == "-O1"@ || w == "-O2"@ || w == "-O3"@ {
        assert(w[0] == '-' && w[1] == 'O');
    }
    if w == "--runtime"@ {
        assert(w[0] == '-' && w[1] == '-' && w[2] == 'r');
    }
}

proof fn lemma_launcher_plain(l: Launcher)
    ensures
        all_plain(launcher_words(l)),
{
    assert(plain_word("node"@)) by {
        reveal_strlit("node");
        lemma_plain_by_shape("node"@);
    }
    assert(plain_word("./node_modules/assemblyscript/bin/asc.js"@)) by {
        reveal_strlit("./node_modules/assemblyscript/bin/asc.js");
        lemma_plain_by_shape("./node_modules/assemblyscript/bin/asc.js"@);
    }
    assert(plain_word("~/.bun/bin/bunx"@)) by {
        reveal_strlit("~/.bun/bin/bunx");
        lemma_plain_by_shape("~/.bun/bin/bunx"@);
    }
    assert(plain_word("assemblyscript@0.27.27/asc"@)) by {
        reveal_strlit("assemblyscript@0.27.27/asc");
        lemma_plain_by_shape("assemblyscript@0.27.27/asc"@);
    }
    assert(plain_word("deno"@)) by {
        reveal_strlit("deno");
        lemma_plain_by_shape("deno"@);
    }
    assert(plain_word("run"@)) by {
        reveal_strlit("run");
        lemma_plain_by_shape("run"@);
    }
    assert(plain_word("--allow-read"@)) by {
        reveal_strlit("--allow-read");
        lemma_plain_by_shape("--allow-read"@);
    }
    assert(plain_word("--allow-write"@)) by {
        reveal_strlit("--allow-write");
        lemma_plain_by_shape("--allow-write"@);
    }
    assert(plain_word("--allow-env"@)) by {
        reveal_strlit("--allow-env");
        lemma_plain_by_shape("--allow-env"@);
    }
    assert(plain_word("'npm:assemblyscript@0.27.27/asc'"@)) by {
        reveal_strlit("'npm:assemblyscript@0.27.27/asc'");
        lemma_plain_by_shape("'npm:assemblyscript@0.27.27/asc'"@);
    }
}

proof fn lemma_fixed_plain()
    ensures
        plain_word("-o"@),
        plain_word("--disable"@),
        plain_word("bulk-memory"@),
        plain_word("sign-extension"@),
        plain_word("nontrapping-f2i"@),
        plain_word("--noExportMemory"@),
        plain_word("--lib"@),
        plain_word("."@),
        plain_word("--use"@),
        plain_word("abort=custom_abort"@),
        plain_word("incremental"@),
        plain_word("minimal"@),
        plain_word("stub"@),
{
    assert(plain_word("-o"@)) by {
        reveal_strlit("-o");
        lemma_plain_by_shape("-o"@);
    }
    assert(plain_word("--disable"@)) by {
        reveal_strlit("--disable");
        lemma_plain_by_shape("--disable"@);
    }
    assert(plain_word("bulk-memory"@)) by {
        reveal_strlit("bulk-memory");
        lemma_plain_by_shape("bulk-memory"@);
    }
    assert(plain_word("sign-extension"@)) by {
        reveal_strlit("sign-extension");
        lemma_plain_by_shape("sign-extension"@);
    }
    assert(plain_word("nontrapping-f2i"@)) by {
        reveal_strlit("nontrapping-f2i");
        lemma_plain_by_shape("nontrapping-f2i"@);
    }
    assert(plain_word("--noExportMemory"@)) by {
        reveal_strlit("--noExportMemory");
        lemma_plain_by_shape("--noExportMemory"@);
    }
    assert(plain_word("--lib"@)) by {
        reveal_strlit("--lib");
        lemma_plain_by_shape("--lib"@);
    }
    assert(plain_word("."@)) by {
        reveal_strlit(".");
        lemma_plain_by_shape("."@);
    }
    assert(plain_word("--use"@)) by {
        reveal_strlit("--use");
        lemma_plain_by_shape("--use"@);
    }
    assert(plain_word("abort=custom_abort"@)) by {
        reveal_strlit("abort=custom_abort");
        lemma_plain_by_shape("abort=custom_abort"@);
    }
    assert(plain_word("incremental"@)) by {
        reveal_strlit("incremental");
        lemma_plain_by_shape("incremental"@);
    }
    assert(plain_word("minimal"@)) by {
        reveal_strlit("minimal");
        lemma_plain_by_shape("minimal"@);
    }
    assert(plain_word("stub"@)) by {
        reveal_strlit("stub");
        lemma_plain_by_shape("stub"@);
    }
}

proof fn lemma_pair_plain(e: Binding)
    requires
        has_no_white_space(e.0),
        has_no_white_space(e.1),
    ensures
        plain_word(pair_text(e)),
{
    reveal_strlit("=");
    reveal_strlit("-O1");
    reveal_strlit("-O2");
    reveal_strlit("-O3");
    reveal_strlit("--runtime");
    let w = pair_text(e);
    let k = e.0.len() as int;
    assert(w[k] == '=');
    assert forall|i: int| 0 <= i < w.len() implies !is_white_space(#[trigger] w[i]) by {
        if i < k {
            assert(w[i] == e.0[i]);
        } else if i > k {
            assert(w[i] == e.1[i - k - 1]);
        }
    }
    if is_optimization_flag(w) {
        assert(w.len() == 3);
        assert(w[k] != '=');
    }
    if w == "--runtime"@ {
        assert(w.len() == 9);
        assert(0 <= k < 9);
        assert(w[k] != '=');
    }
}

proof fn lemma_use_plain(pairs: Seq<Binding>, trap_on_abort: bool)
    requires
        bindings_without_white_space(pairs),
    ensures
        all_plain(use_tokens(pairs, trap_on_abort)),
{
    lemma_fixed_plain();
    let p = pair_tokens(pairs);
    assert forall|i: int| 0 <= i < p.len() implies plain_word(#[trigger] p[i]) by {
        lemma_pair_plain(pairs[i]);
    }
    let u = use_tokens(pairs, trap_on_abort);
    assert forall|i: int| 0 <= i < u.len() implies plain_word(#[trigger] u[i]) by {
        if trap_on_abort {
            if 3 <= i < 3 + p.len() {
                assert(u[i] == p[i - 3]);
            }
        } else if pairs.len() > 0 && i >= 1 {
            assert(u[i] == p[i - 1]);
        }
    }
}

/// The tokens of the command are plain words but for the optimization flag
/// at `k` and `--runtime` at `r`, which the runtime's name follows.
#[verifier::rlimit(40)]
proof fn lemma_command_token_kinds(
    o: CompilerOptions,
    l: Launcher,
    s: Seq<char>,
    t: Seq<char>,
) -> (kr: (int, int))
    requires
        is_quoted_word(s),
        is_quoted_word(t),
        bindings_without_white_space(o.flag_use@),
    ensures
        ({
            let full = command_tokens(o, l, s, t);
            &&& 0 <= kr.0 < kr.1 < full.len() - 1
            &&& full[kr.0] == optimization_flag(o.optimization_strategy)
            &&& full[kr.1] == "--runtime"@
            &&& full[kr.1 + 1] == runtime_name(o.runtime)
            &&& forall|j: int|
                0 <= j < full.len() && j != kr.0 && j != kr.1 ==> plain_word(#[trigger] full[j])
        }),
{
    lemma_fixed_plain();
    lemma_launcher_plain(l);
    lemma_use_plain(o.flag_use@, o.trap_on_abort);
    let opt = optimization_flag(o.optimization_strategy);
    let name = runtime_name(o.runtime);
    let a = launcher_words(l).push(s).push("-o"@).push(t);
    let b = disable_tokens(o.enable_bulk_memory, "bulk-memory"@) + disable_tokens(
        o.enable_sign_extension,
        "sign-extension"@,
    ) + disable_tokens(o.enable_nontrapping_f2i, "nontrapping-f2i"@);
    let c = export_tokens(o.enable_export_memory) + use_tokens(o.flag_use@, o.trap_on_abort);
    let full = command_tokens(o, l, s, t);
    assert(full =~= a + seq![opt] + b + seq!["--runtime"@, name] + c);
    lemma_plain_by_shape(s);
    lemma_plain_by_shape(t);
    assert(all_plain(a)) by {
        assert forall|i: int| 0 <= i < a.len() implies plain_word(#[trigger] a[i]) by {
            if i < launcher_words(l).len() {
                assert(a[i] == launcher_words(l)[i]);
            }
        }
    }
    assert(all_plain(b));
    assert(all_plain(c));
    assert(plain_word(name));
    let k = a.len() as int;
    let r = k + 1 + b.len();
    assert forall|j: int| 0 <= j < full.len() && j != k && j != r implies plain_word(
        #[trigger] full[j],
    ) by {
        if j < k {
            assert(full[j] == a[j]);
        } else if j < r {
            assert(full[j] == b[j - k - 1]);
        } else if j == r + 1 {
            assert(full[j] == name);
        } else {
            assert(full[j] == c[j - r - 2]);
        }
    }
    (k, r)
}

/// Split on white space, the command holds exactly one optimization flag and
/// exactly one `--runtime`, which the runtime's name follows; for paths whose
/// quoted forms are single words and bindings without white space.
pub proof fn lemma_one_optimization_and_runtime(
    o: CompilerOptions,
    l: Launcher,
    s: Seq<char>,
    t: Seq<char>,
)
    requires
        is_quoted_word(s),
        is_quoted_word(t),
        bindings_without_white_space(o.flag_use@),
    ensures
        ({
            let w = words(command_text(o, l, s, t));
            &&& exists|i: int|
                0 <= i < w.len() && is_optimization_flag(#[trigger] w[i]) && forall|j: int|
                    0 <= j < w.len() && is_optimization_flag(#[trigger] w[j]) ==> j == i
            &&& exists|i: int|
                0 <= i < w.len() - 1 && #[trigger] w[i] == "--runtime"@ && w[i + 1] == runtime_name(
                    o.runtime,
                )
                    && forall|j: int| 0 <= j < w.len() && #[trigger] w[j] == "--runtime"@ ==> j == i
        }),
{
    lemma_flags_are_words();
    let (k, r) = lemma_command_token_kinds(o, l, s, t);
    let full = command_tokens(o, l, s, t);
    assert forall|j: int| 0 <= j < full.len() implies is_word(#[trigger] full[j]) by {
        if j != k && j != r {
            assert(plain_word(full[j]));
        }
    }
    lemma_words_of_spaced(full);
    let w = words(command_text(o, l, s, t));
    assert(w == full);
    assert(is_optimization_flag(w[k]));
    assert forall|j: int| 0 <= j < w.len() && is_optimization_flag(#[trigger] w[j]) implies j == k by {
        if j != k && j != r {
            assert(plain_word(full[j]));
        }
    }
    assert forall|j: int| 0 <= j < w.len() && #[trigger] w[j] == "--runtime"@ implies j == r by {
        if j != k && j != r {
            assert(plain_word(full[j]));
        }
    }
}

} // verus!
