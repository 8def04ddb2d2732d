use std::path::PathBuf;

use asc_options::{CompilerOptions, Launcher, OptimizationStrategy, RuntimeStrategy, UseBindings};

fn bindings(pairs: &[(&str, &str)]) -> UseBindings {
    let mut b = UseBindings::new();
    for (k, v) in pairs {
        b.insert(k.to_string(), v.to_string());
    }
    b
}

fn all_on(trap_on_abort: bool, flag_use: UseBindings) -> CompilerOptions {
    CompilerOptions {
        optimization_strategy: OptimizationStrategy::O2,
        enable_bulk_memory: true,
        enable_sign_extension: true,
        enable_nontrapping_f2i: true,
        enable_export_memory: true,
        flag_use,
        trap_on_abort,
        runtime: RuntimeStrategy::Minimal,
        source: String::new(),
    }
}

#[test]
fn test_creation() {
    let conf = CompilerOptions::default_for("".to_string());
    let source_path = PathBuf::from("source_path");
    let output_path = PathBuf::from("output_path");

    assert!(conf
        .to_npx_command(
            Launcher::NodeJs,
            source_path.to_str().unwrap(),
            output_path.to_str().unwrap()
        )
        .contains("-o \"output_path\" -O3 --disable bulk-memory --disable sign-extension --disable nontrapping-f2i --runtime incremental --noExportMemory --lib . --use abort=custom_abort "));
}

#[test]
fn test_to_npx() {
    let mut options = CompilerOptions {
        optimization_strategy: OptimizationStrategy::O1,
        enable_bulk_memory: true,
        enable_sign_extension: true,
        enable_nontrapping_f2i: true,
        enable_export_memory: true,
        flag_use: UseBindings::new(),
        trap_on_abort: true,
        runtime: RuntimeStrategy::Incremental,
        source: "".to_string(),
    };

    let source_path = PathBuf::from("path").join("to").join("source");
    let output_path = PathBuf::from("path").join("to").join("output");
    let source_path = source_path.to_str().unwrap();
    let output_path = output_path.to_str().unwrap();

    assert!(options
        .to_npx_command(Launcher::NodeJs, source_path, output_path)
        .contains("-o \"path/to/output\" -O1 --runtime incremental --lib . --use abort=custom_abort "));

    options = CompilerOptions {
        optimization_strategy: OptimizationStrategy::O2,
        enable_bulk_memory: false,
        enable_sign_extension: false,
        enable_nontrapping_f2i: false,
        enable_export_memory: false,
        flag_use: UseBindings::new(),
        trap_on_abort: false,
        runtime: RuntimeStrategy::Incremental,
        source: "".to_string(),
    };

    assert!(options
        .to_npx_command(Launcher::NodeJs, source_path, output_path)
        .contains("-o \"path/to/output\" -O2 --disable bulk-memory --disable sign-extension --disable nontrapping-f2i --runtime incremental --noExportMemory "));
}

#[test]
fn default_command_is_exact() {
    let conf = CompilerOptions::default_for("lib".to_string());
    assert_eq!(conf.source, "lib");
    assert_eq!(
        conf.to_npx_command(Launcher::NodeJs, "a.ts", "b.wasm"),
        "node ./node_modules/assemblyscript/bin/asc.js \"a.ts\" -o \"b.wasm\" -O3 \
         --disable bulk-memory --disable sign-extension --disable nontrapping-f2i \
         --runtime incremental --noExportMemory --lib . --use abort=custom_abort "
    );
}

#[test]
fn each_capability_toggle_drops_its_flag() {
    let mut conf = CompilerOptions::default_for(String::new());
    conf.enable_bulk_memory = true;
    let r = conf.render_command(Launcher::NodeJs, "s", "o");
    assert!(!r.contains("bulk-memory"));
    assert!(r.contains("-O3 --disable sign-extension --disable nontrapping-f2i --runtime"));

    let mut conf = CompilerOptions::default_for(String::new());
    conf.enable_sign_extension = true;
    let r = conf.render_command(Launcher::NodeJs, "s", "o");
    assert!(!r.contains("sign-extension"));
    assert!(r.contains("-O3 --disable bulk-memory --disable nontrapping-f2i --runtime"));

    let mut conf = CompilerOptions::default_for(String::new());
    conf.enable_nontrapping_f2i = true;
    let r = conf.render_command(Launcher::NodeJs, "s", "o");
    assert!(!r.contains("nontrapping-f2i"));
    assert!(r.contains("-O3 --disable bulk-memory --disable sign-extension --runtime"));
}

#[test]
fn export_memory_drops_no_export_flag() {
    let mut conf = CompilerOptions::default_for(String::new());
    conf.enable_export_memory = true;
    let r = conf.render_command(Launcher::NodeJs, "s", "o");
    assert!(!r.contains("--noExportMemory"));
    assert!(r.contains("--runtime incremental --lib . --use abort=custom_abort "));
}

#[test]
fn no_trap_no_bindings_has_no_use_clause() {
    let conf = all_on(false, UseBindings::new());
    let r = conf.render_command(Launcher::NodeJs, "s", "o");
    assert!(!r.contains("--use"));
    assert!(!r.contains("--lib"));
    assert!(r.ends_with("-O2 --runtime minimal "));
}

#[test]
fn no_trap_with_binding() {
    let conf = all_on(false, bindings(&[("x", "y")]));
    let r = conf.render_command(Launcher::NodeJs, "s", "o");
    assert!(r.ends_with("--runtime minimal --use x=y "));
    assert!(!r.contains("--lib ."));
    assert!(!r.contains("abort=custom_abort"));
}

#[test]
fn trap_with_binding() {
    let conf = all_on(true, bindings(&[("x", "y")]));
    let r = conf.render_command(Launcher::NodeJs, "s", "o");
    assert!(r.ends_with("--runtime minimal --lib . --use x=y abort=custom_abort "));
}

#[test]
fn bindings_come_out_in_key_order() {
    let a = all_on(false, bindings(&[("b", "2"), ("a", "1"), ("c", "3")]));
    let b = all_on(false, bindings(&[("c", "3"), ("b", "2"), ("a", "1")]));
    let ra = a.render_command(Launcher::NodeJs, "s", "o");
    let rb = b.render_command(Launcher::NodeJs, "s", "o");
    assert_eq!(ra, rb);
    assert_eq!(ra, a.render_command(Launcher::NodeJs, "s", "o"));
    assert!(ra.ends_with("--use a=1 b=2 c=3 "));
}

#[test]
fn insert_replaces_value_of_same_key() {
    let conf = all_on(false, bindings(&[("k", "old"), ("k", "new")]));
    let r = conf.render_command(Launcher::NodeJs, "s", "o");
    assert!(r.ends_with("--use k=new "));
    assert!(!r.contains("old"));
}

#[test]
fn key_order_is_by_character_code() {
    let conf = all_on(false, bindings(&[("ab", "1"), ("a", "2"), ("B", "3"), ("", "4")]));
    let r = conf.render_command(Launcher::NodeJs, "s", "o");
    assert!(r.ends_with("--use =4 B=3 a=2 ab=1 "));
}

#[test]
fn caller_abort_binding_is_kept_beside_trap() {
    let conf = all_on(true, bindings(&[("abort", "mine")]));
    let r = conf.render_command(Launcher::NodeJs, "s", "o");
    assert!(r.ends_with("--lib . --use abort=mine abort=custom_abort "));
}

#[test]
fn bindings_emptiness() {
    let mut b = UseBindings::new();
    assert!(b.is_empty());
    b.insert("x".to_string(), "y".to_string());
    assert!(!b.is_empty());
}

#[test]
fn one_optimization_and_one_runtime_token() {
    for launcher in [Launcher::NodeJs, Launcher::Bun, Launcher::Deno] {
        let conf = all_on(true, bindings(&[("x", "y"), ("z", "w")]));
        let r = conf.to_npx_command(launcher, "src/lib.ts", "out/lib.wasm");
        let words: Vec<&str> = r.split_whitespace().collect();
        let opt = words.iter().filter(|w| ["-O1", "-O2", "-O3"].contains(*w)).count();
        let rt = words.iter().filter(|w| **w == "--runtime").count();
        assert_eq!(opt, 1);
        assert_eq!(rt, 1);
        let at = words.iter().position(|w| *w == "--runtime").unwrap();
        assert_eq!(words[at + 1], "minimal");
    }
}

#[test]
fn launchers_and_strategies() {
    let mut conf = all_on(false, UseBindings::new());
    conf.optimization_strategy = OptimizationStrategy::O1;
    conf.runtime = RuntimeStrategy::Stub;
    assert_eq!(
        conf.render_command(Launcher::Bun, "\"s\"", "\"o\""),
        "~/.bun/bin/bunx assemblyscript@0.27.27/asc \"s\" -o \"o\" -O1 --runtime stub "
    );
    assert_eq!(
        conf.render_command(Launcher::Deno, "\"s\"", "\"o\""),
        "deno run --allow-read --allow-write --allow-env 'npm:assemblyscript@0.27.27/asc' \
         \"s\" -o \"o\" -O1 --runtime stub "
    );
}

#[test]
fn paths_are_quoted_and_escaped() {
    let conf = all_on(false, UseBindings::new());
    let r = conf.to_npx_command(Launcher::NodeJs, "my \"lib\".ts", "out\\x.wasm");
    assert!(r.contains(" \"my \\\"lib\\\".ts\" -o \"out\\\\x.wasm\" -O2 "));
}

#[test]
fn strategy_defaults() {
    assert_eq!(OptimizationStrategy::default(), OptimizationStrategy::O3);
    assert_eq!(RuntimeStrategy::default(), RuntimeStrategy::Incremental);
}
