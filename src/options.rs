use vstd::prelude::*;
use crate::bindings::{pair_tokens, Binding, UseBindings};
use crate::tokens::{lemma_spaced_concat, spaced};

verus! {

/// Optimization level handed to the compiler.
#[derive(Clone, Copy, Debug, PartialEq, Eq, Structural)]
pub enum OptimizationStrategy {
    O1,
    O2,
    O3,
}

impl Default for OptimizationStrategy {
    fn default() -> (r: OptimizationStrategy)
        ensures
            r == OptimizationStrategy::O3,
    {
        OptimizationStrategy::O3
    }
}

/// Memory-management runtime that the compiler links into the module.
#[derive(Clone, Copy, Debug, PartialEq, Eq, Structural)]
pub enum RuntimeStrategy {
    Incremental,
    Minimal,
    Stub,
}

impl Default for RuntimeStrategy {
    fn default() -> (r: RuntimeStrategy)
        ensures
            r == RuntimeStrategy::Incremental,
    {
        RuntimeStrategy::Incremental
    }
}

/// JavaScript environment through which the compiler is started.
#[derive(Clone, Copy, Debug, PartialEq, Eq, Structural)]
pub enum Launcher {
    NodeJs,
    Bun,
    Deno,
}

/// The words of the command that starts the compiler.
pub open spec fn launcher_words(l: Launcher) -> Seq<Seq<char>> {
    match l {
        Launcher::NodeJs => seq!["node"@, "./node_modules/assemblyscript/bin/asc.js"@],
        Launcher::Bun => seq!["~/.bun/bin/bunx"@, "assemblyscript@0.27.27/asc"@],
        Launcher::Deno => seq![
            "deno"@,
            "run"@,
            "--allow-read"@,
            "--allow-write"@,
            "--allow-env"@,
            "'npm:assemblyscript@0.27.27/asc'"@,
        ],
    }
}

/// The flag that selects the optimization level.
pub open spec fn optimization_flag(o: OptimizationStrategy) -> Seq<char> {
    match o {
        OptimizationStrategy::O1 => "-O1"@,
        OptimizationStrategy::O2 => "-O2"@,
        OptimizationStrategy::O3 => "-O3"@,
    }
}

/// The name that follows `--runtime`.
pub open spec fn runtime_name(r: RuntimeStrategy) -> Seq<char> {
    match r {
        RuntimeStrategy::Incremental => "incremental"@,
        RuntimeStrategy::Minimal => "minimal"@,
        RuntimeStrategy::Stub => "stub"@,
    }
}

/// `--disable <feature>` for a feature that is off; nothing for one that is on,
/// which is the compiler's own default.
pub open spec fn disable_tokens(enabled: bool, feature: Seq<char>) -> Seq<Seq<char>> {
    if enabled {
        seq![]
    } else {
        seq!["--disable"@, feature]
    }
}

/// `--noExportMemory` unless the memory is exported.
pub open spec fn export_tokens(enabled: bool) -> Seq<Seq<char>> {
    if enabled {
        seq![]
    } else {
        seq!["--noExportMemory"@]
    }
}

/// The custom bindings clause. Trapping on abort adds `--lib .` and the
/// binding `abort=custom_abort` after the caller's own bindings; a caller's
/// binding of `abort` is kept, so both tokens then stand in the clause.
/// Without trapping and without bindings there is no clause at all.
pub open spec fn use_tokens(pairs: Seq<Binding>, trap_on_abort: bool) -> Seq<Seq<char>> {
    if trap_on_abort {
        seq!["--lib"@, "."@, "--use"@] + pair_tokens(pairs) + seq!["abort=custom_abort"@]
    } else if pairs.len() == 0 {
        seq![]
    } else {
        seq!["--use"@] + pair_tokens(pairs)
    }
}

/// Compiler settings for one library.
pub struct CompilerOptions {
    pub optimization_strategy: OptimizationStrategy,
    pub enable_bulk_memory: bool,
    pub enable_sign_extension: bool,
    pub enable_nontrapping_f2i: bool,
    pub enable_export_memory: bool,
    pub flag_use: UseBindings,
    pub trap_on_abort: bool,
    pub runtime: RuntimeStrategy,
    pub source: String,
}

/// The tokens of the command line, in order, for the paths already in
/// their quoted form.
pub open spec fn command_tokens(
    o: CompilerOptions,
    l: Launcher,
    source: Seq<char>,
    output: Seq<char>,
) -> Seq<Seq<char>> {
    (launcher_words(l).push(source).push("-o"@).push(output).push(
        optimization_flag(o.optimization_strategy),
    ) + disable_tokens(o.enable_bulk_memory, "bulk-memory"@) + disable_tokens(
        o.enable_sign_extension,
        "sign-extension"@,
    ) + disable_tokens(o.enable_nontrapping_f2i, "nontrapping-f2i"@)).push("--runtime"@).push(
        runtime_name(o.runtime),
    ) + export_tokens(o.enable_export_memory) + use_tokens(o.flag_use@, o.trap_on_abort)
}

/// The command line: each token followed by one space.
pub open spec fn command_text(
    o: CompilerOptions,
    l: Launcher,
    source: Seq<char>,
    output: Seq<char>,
) -> Seq<char> {
    spaced(command_tokens(o, l, source, output))
}

/// What `{:?}` writes for a path with this text: the path quoted and escaped.
pub uninterp spec fn quoted_path(p: Seq<char>) -> Seq<char>;

/// Relies on the `Debug` impl of `std::path::Path`, which writes the path in
/// quotes, escaped; the result depends on the path's text alone.
#[verifier::external_body]
fn debug_path(p: &str) -> (r: String)
    ensures
        r@ == quoted_path(p@),
{
    format!("{:?}", std::path::Path::new(p))
}

/// Appends one token and a space.
fn push_token(out: &mut String, word: &str, Ghost(t): Ghost<Seq<Seq<char>>>)
    requires
        old(out)@ == spaced(t),
    ensures
        final(out)@ == spaced(t.push(word@)),
{
    out.append(word);
    out.append(" ");
    assert(t.push(word@).drop_last() =~= t);
    reveal(spaced);
}

/// Appends the words of the launcher command.
fn write_launcher(out: &mut String, launcher: Launcher, Ghost(t): Ghost<Seq<Seq<char>>>)
    requires
        old(out)@ == spaced(t),
    ensures
        final(out)@ == spaced(t + launcher_words(launcher)),
{
    let ghost mut u = t;
    match launcher {
        Launcher::NodeJs => {
            push_token(out, "node", Ghost(u));
            proof { u = u.push("node"@); }
            push_token(out, "./node_modules/assemblyscript/bin/asc.js", Ghost(u));
            proof { u = u.push("./node_modules/assemblyscript/bin/asc.js"@); }
        },
        Launcher::Bun => {
            push_token(out, "~/.bun/bin/bunx", Ghost(u));
            proof { u = u.push("~/.bun/bin/bunx"@); }
            push_token(out, "assemblyscript@0.27.27/asc", Ghost(u));
            proof { u = u.push("assemblyscript@0.27.27/asc"@); }
        },
        Launcher::Deno => {
            push_token(out, "deno", Ghost(u));
            proof { u = u.push("deno"@); }
            push_token(out, "run", Ghost(u));
            proof { u = u.push("run"@); }
            push_token(out, "--allow-read", Ghost(u));
            proof { u = u.push("--allow-read"@); }
            push_token(out, "--allow-write", Ghost(u));
            proof { u = u.push("--allow-write"@); }
            push_token(out, "--allow-env", Ghost(u));
            proof { u = u.push("--allow-env"@); }
            push_token(out, "'npm:assemblyscript@0.27.27/asc'", Ghost(u));
            proof { u = u.push("'npm:assemblyscript@0.27.27/asc'"@); }
        },
    }
    assert(u =~= t + launcher_words(launcher));
}

/// Appends `--disable <feature>` when the feature is off.
fn write_disable(out: &mut String, enabled: bool, feature: &str, Ghost(t): Ghost<Seq<Seq<char>>>)
    requires
        old(out)@ == spaced(t),
    ensures
        final(out)@ == spaced(t + disable_tokens(enabled, feature@)),
{
    if !enabled {
        push_token(out, "--disable", Ghost(t));
        push_token(out, feature, Ghost(t.push("--disable"@)));
        assert(t.push("--disable"@).push(feature@) =~= t + disable_tokens(enabled, feature@));
    } else {
        assert(t =~= t + disable_tokens(enabled, feature@));
    }
}

/// Appends `--noExportMemory` unless the memory is exported.
fn write_export(out: &mut String, enabled: bool, Ghost(t): Ghost<Seq<Seq<char>>>)
    requires
        old(out)@ == spaced(t),
    ensures
        final(out)@ == spaced(t + export_tokens(enabled)),
{
    if !enabled {
        push_token(out, "--noExportMemory", Ghost(t));
        assert(t.push("--noExportMemory"@) =~= t + export_tokens(enabled));
    } else {
        assert(t =~= t + export_tokens(enabled));
    }
}

/// Appends the custom bindings clause.
fn write_use(
    out: &mut String,
    bindings: &UseBindings,
    trap_on_abort: bool,
    Ghost(t): Ghost<Seq<Seq<char>>>,
)
    requires
        old(out)@ == spaced(t),
    ensures
        final(out)@ == spaced(t + use_tokens(bindings@, trap_on_abort)),
{
    let ghost mut u = t;
    if trap_on_abort {
        push_token(out, "--lib", Ghost(u));
        proof { u = u.push("--lib"@); }
        push_token(out, ".", Ghost(u));
        proof { u = u.push("."@); }
        push_token(out, "--use", Ghost(u));
        proof { u = u.push("--use"@); }
        bindings.write_pairs(out);
        proof {
            lemma_spaced_concat(u, pair_tokens(bindings@));
            u = u + pair_tokens(bindings@);
        }
        push_token(out, "abort=custom_abort", Ghost(u));
        proof { u = u.push("abort=custom_abort"@); }
    } else if !bindings.is_empty() {
        push_token(out, "--use", Ghost(u));
        proof { u = u.push("--use"@); }
        bindings.write_pairs(out);
        proof {
            lemma_spaced_concat(u, pair_tokens(bindings@));
            u = u + pair_tokens(bindings@);
        }
    }
    assert(u =~= t + use_tokens(bindings@, trap_on_abort));
}

impl CompilerOptions {
    /// Default settings for a library: trap on abort, every feature off,
    /// memory not exported, `-O3`, the incremental runtime and no bindings.
    pub fn default_for(library_source: String) -> (r: CompilerOptions)
        ensures
            r.source == library_source,
            r.trap_on_abort,
            !r.enable_bulk_memory,
            !r.enable_nontrapping_f2i,
            !r.enable_export_memory,
            !r.enable_sign_extension,
            r.flag_use@ == Seq::<Binding>::empty(),
            r.flag_use.wf(),
            r.optimization_strategy == OptimizationStrategy::O3,
            r.runtime == RuntimeStrategy::Incremental,
    {
        CompilerOptions {
            source: library_source,
            // Trapping on abort leaves the module without an 'env' import to handle failure.
            trap_on_abort: true,
            enable_bulk_memory: false,
            enable_nontrapping_f2i: false,
            enable_export_memory: false,
            enable_sign_extension: false,
            flag_use: UseBindings::new(),
            optimization_strategy: OptimizationStrategy::default(),
            runtime: RuntimeStrategy::default(),
        }
    }

    /// The command line that compiles `source_path` into `output_path`, with
    /// both paths written as `{:?}` writes them.
    pub fn to_npx_command(&self, launcher: Launcher, source_path: &str, output_path: &str) -> (r:
        String)
        ensures
            r@ == command_text(*self, launcher, quoted_path(source_path@), quoted_path(output_path@)),
    {
        let source = debug_path(source_path);
        let output = debug_path(output_path);
        self.render_command(launcher, source.as_str(), output.as_str())
    }

    /// The command line for paths already in their quoted form.
    pub fn render_command(&self, launcher: Launcher, source: &str, output: &str) -> (r: String)
        ensures
            r@ == command_text(*self, launcher, source@, output@),
    {
        let mut out = String::new();
        proof {
            reveal(spaced);
            assert(Seq::<Seq<char>>::empty() + launcher_words(launcher) =~= launcher_words(launcher));
        }
        write_launcher(&mut out, launcher, Ghost(Seq::empty()));
        let ghost mut t = launcher_words(launcher);
        push_token(&mut out, source, Ghost(t));
        proof { t = t.push(source@); }
        push_token(&mut out, "-o", Ghost(t));
        proof { t = t.push("-o"@); }
        push_token(&mut out, output, Ghost(t));
        proof { t = t.push(output@); }
        let flag_optimization = match self.optimization_strategy {
            OptimizationStrategy::O1 => "-O1",
            OptimizationStrategy::O2 => "-O2",
            OptimizationStrategy::O3 => "-O3",
        };
        push_token(&mut out, flag_optimization, Ghost(t));
        proof { t = t.push(flag_optimization@); }
        write_disable(&mut out, self.enable_bulk_memory, "bulk-memory", Ghost(t));
        proof { t = t + disable_tokens(self.enable_bulk_memory, "bulk-memory"@); }
        write_disable(&mut out, self.enable_sign_extension, "sign-extension", Ghost(t));
        proof { t = t + disable_tokens(self.enable_sign_extension, "sign-extension"@); }
        write_disable(&mut out, self.enable_nontrapping_f2i, "nontrapping-f2i", Ghost(t));
        proof { t = t + disable_tokens(self.enable_nontrapping_f2i, "nontrapping-f2i"@); }
        let runtime = match self.runtime {
            RuntimeStrategy::Minimal => "minimal",
            RuntimeStrategy::Incremental => "incremental",
            RuntimeStrategy::Stub => "stub",
        };
        push_token(&mut out, "--runtime", Ghost(t));
        proof { t = t.push("--runtime"@); }
        push_token(&mut out, runtime, Ghost(t));
        proof { t = t.push(runtime@); }
        write_export(&mut out, self.enable_export_memory, Ghost(t));
        proof { t = t + export_tokens(self.enable_export_memory); }
        write_use(&mut out, &self.flag_use, self.trap_on_abort, Ghost(t));
        proof { t = t + use_tokens(self.flag_use@, self.trap_on_abort); }
        assert(t == command_tokens(*self, launcher, source@, output@));
        out
    }
}

} // verus!
