use std::collections::HashMap;

use cargo_minimize::buildenv::{BuildEnv, BuildResult};
use cargo_minimize::controller::PassController;
use cargo_minimize::driver::{round_decision, Minimizer, RoundNext};
use cargo_minimize::error::MinimizeError;
use cargo_minimize::files::SourceFile;
use cargo_minimize::path::PathTracker;
use cargo_minimize::processor::{ProcessState, Processor};
use quote::ToTokens;

/// An in-memory build environment: a map standing for the project directory
/// and a verdict function standing for the external verifier.
struct TestEnv {
    disk: HashMap<String, String>,
    writes: usize,
    builds: usize,
    verdict: Box<dyn Fn(&HashMap<String, String>) -> bool>,
    fail_writes: bool,
    fail_build: bool,
    fail_format: bool,
    cancel: bool,
}

impl TestEnv {
    fn reproducing(files: &[(&str, &str)]) -> TestEnv {
        TestEnv::with_verdict(files, Box::new(|_| true))
    }

    fn with_verdict(
        files: &[(&str, &str)],
        verdict: Box<dyn Fn(&HashMap<String, String>) -> bool>,
    ) -> TestEnv {
        let mut disk = HashMap::new();
        for (path, text) in files {
            disk.insert(path.to_string(), text.to_string());
        }
        TestEnv {
            disk,
            writes: 0,
            builds: 0,
            verdict,
            fail_writes: false,
            fail_build: false,
            fail_format: false,
            cancel: false,
        }
    }
}

impl BuildEnv for TestEnv {
    fn format(&mut self, tree: &syn::File) -> Option<String> {
        if self.fail_format {
            return None;
        }
        Some(prettyplease::unparse(tree))
    }

    fn write_file(&mut self, path: &String, text: &String) -> bool {
        if self.fail_writes {
            return false;
        }
        self.writes += 1;
        self.disk.insert(path.clone(), text.clone());
        true
    }

    fn build(&mut self) -> Result<BuildResult, ()> {
        if self.fail_build {
            return Err(());
        }
        self.builds += 1;
        Ok(BuildResult::new((self.verdict)(&self.disk)))
    }

    fn cancel_requested(&mut self) -> bool {
        self.cancel
    }
}

fn body_is_loop(block: &syn::Block) -> bool {
    block.stmts.len() == 1 && matches!(&block.stmts[0], syn::Stmt::Expr(syn::Expr::Loop(_)))
}

/// Test passes: a body-to-infinite-loop rewrite and a dead-item reaper, both
/// consulting the controller at every candidate site.
enum TestPass {
    /// Replace every (non-loop) function body with `loop {}`.
    Loopify,
    /// Like `Loopify`, but leaves `main` alone.
    LoopifySkipMain,
    /// Delete every item except `fn main`.
    DeleteUnused,
    /// Proposes nothing and changes nothing.
    NoOp,
    /// Broken on purpose: accepts a site, then claims it did nothing.
    LiarNoChange,
}

impl Processor for TestPass {
    fn process_file(
        &mut self,
        krate: &mut syn::File,
        _file: &SourceFile,
        checker: &mut PassController,
    ) -> ProcessState {
        match self {
            TestPass::Loopify => loopify(krate, false, checker),
            TestPass::LoopifySkipMain => loopify(krate, true, checker),
            TestPass::DeleteUnused => delete_unused(krate, checker),
            TestPass::NoOp => ProcessState::NoChange,
            TestPass::LiarNoChange => {
                let mut tracker = PathTracker::new();
                tracker.push("site".to_string());
                let _ = checker.can_process(tracker.current());
                ProcessState::NoChange
            }
        }
    }

    fn name(&self) -> String {
        match self {
            TestPass::Loopify | TestPass::LoopifySkipMain => "loopify".to_string(),
            TestPass::DeleteUnused => "delete-unused".to_string(),
            TestPass::NoOp => "noop".to_string(),
            TestPass::LiarNoChange => "liar".to_string(),
        }
    }
}

fn loopify(krate: &mut syn::File, skip_main: bool, checker: &mut PassController) -> ProcessState {
    let mut state = ProcessState::NoChange;
    for item in krate.items.iter_mut() {
        if let syn::Item::Fn(f) = item {
            if skip_main && f.sig.ident == "main" {
                continue;
            }
            if body_is_loop(&f.block) {
                continue;
            }
            let mut tracker = PathTracker::new();
            tracker.push(f.sig.ident.to_string());
            if checker.can_process(tracker.current()) {
                let block: syn::Block = syn::parse_str("{ loop {} }").unwrap();
                f.block = Box::new(block);
                state = ProcessState::Changed;
            }
        }
    }
    state
}

fn delete_unused(krate: &mut syn::File, checker: &mut PassController) -> ProcessState {
    let mut state = ProcessState::NoChange;
    let items = std::mem::take(&mut krate.items);
    let mut kept = Vec::new();
    for item in items {
        let name = match &item {
            syn::Item::Fn(f) if f.sig.ident != "main" => Some(f.sig.ident.to_string()),
            syn::Item::Trait(t) => Some(t.ident.to_string()),
            syn::Item::Impl(i) => Some(i.self_ty.to_token_stream().to_string()),
            _ => None,
        };
        let mut delete = false;
        if let Some(n) = name {
            let mut tracker = PathTracker::new();
            tracker.push(n);
            if checker.can_process(tracker.current()) {
                delete = true;
            }
        }
        if delete {
            state = ProcessState::Changed;
        } else {
            kept.push(item);
        }
    }
    krate.items = kept;
    state
}

fn canonicalize(code: &str) -> String {
    prettyplease::unparse(&syn::parse_file(code).unwrap())
}

fn open_files(files: &[(&str, &str)]) -> Vec<SourceFile> {
    files
        .iter()
        .map(|(path, text)| SourceFile::open(path.to_string(), text.to_string()).unwrap())
        .collect()
}

/// Mirrors the end-to-end harness: open the files, run the pipeline, and
/// compare the minimized text of `main.rs` against the expectation.
fn run_test(code: &str, minimizes_to: &str, passes: Vec<TestPass>) -> Minimizer<TestEnv> {
    let files = [("src/main.rs", code)];
    let env = TestEnv::reproducing(&files);
    let mut m = Minimizer::new(open_files(&files), env);
    let mut passes = passes;
    m.run_passes(&mut passes).unwrap();
    let actual = canonicalize(&m.files[0].text);
    let expected = canonicalize(minimizes_to);
    assert_eq!(actual, expected);
    assert_eq!(m.env.disk["src/main.rs"], m.files[0].text);
    m
}

#[test]
fn hello_world_no_verify() {
    run_test(
        r##"
    fn main() {
        println!("Hello, world!");
    }
    "##,
        r##"
    fn main() {
        loop {}
    }
    "##,
        vec![TestPass::Loopify],
    );
}

#[test]
fn unused() {
    // After the body collapse, `unused` becomes dead and is removed.
    run_test(
        r##"
        fn unused() {}

        fn main() {
            unused();
        }
    "##,
        r##"
    fn main() {
        loop {}
    }
    "##,
        vec![TestPass::Loopify, TestPass::DeleteUnused],
    );
}

#[test]
fn impls() {
    // Unused trait and impls are deleted.
    run_test(
        r##"
        pub trait Uwu {}
        impl Uwu for () {}
        impl Uwu for u8 {}

        fn main() {}
        "##,
        r##"
        fn main() {}
        "##,
        vec![TestPass::DeleteUnused],
    );
}

#[test]
fn custom_script_success() {
    // A script verifier that always reports reproduction; with nothing to
    // reduce, the file survives untouched.
    let m = run_test(
        r##"
        fn main() {}
    "##,
        r##"
    fn main() {}
    "##,
        vec![TestPass::DeleteUnused],
    );
    assert_eq!(m.env.writes, 0);
}

#[test]
fn trivial_no_op_makes_zero_writes() {
    let m = run_test("fn main() {}", "fn main() {}", vec![TestPass::NoOp]);
    assert_eq!(m.env.writes, 0);
    // One initial build; the single trial reports no change without a build.
    assert_eq!(m.env.builds, 1);
}

#[test]
fn bisection_with_partial_reproduction() {
    // Sites {a, b, c, d}: collapsing c is the sole cause of non-reproduction.
    let code = r##"
        fn a() { println!("a"); }
        fn b() { println!("b"); }
        fn c() { println!("c"); }
        fn d() { println!("d"); }
        fn main() { a(); b(); c(); d(); }
    "##;
    let expected = r##"
        fn a() { loop {} }
        fn b() { loop {} }
        fn c() { println!("c"); }
        fn d() { loop {} }
        fn main() { a(); b(); c(); d(); }
    "##;
    let files = [("src/main.rs", code)];
    let verdict = Box::new(|disk: &HashMap<String, String>| {
        let krate = syn::parse_file(&disk["src/main.rs"]).unwrap();
        for item in &krate.items {
            if let syn::Item::Fn(f) = item {
                if f.sig.ident == "c" {
                    // The issue reproduces only while c's body is intact.
                    return !body_is_loop(&f.block);
                }
            }
        }
        false
    });
    let env = TestEnv::with_verdict(&files, verdict);
    let mut m = Minimizer::new(open_files(&files), env);
    let mut passes = vec![TestPass::LoopifySkipMain];
    m.run_passes(&mut passes).unwrap();
    assert_eq!(canonicalize(&m.files[0].text), canonicalize(expected));
    // Reproduction is preserved: the verifier still says yes afterwards.
    let after = m.env.build().unwrap();
    assert!(after.reproduces_issue());
}

#[test]
fn idempotent_second_run() {
    let mut m = run_test(
        "fn extra() {} fn main() {}",
        "fn main() {}",
        vec![TestPass::DeleteUnused],
    );
    let writes_after_first = m.env.writes;
    let mut passes = vec![TestPass::DeleteUnused];
    m.run_passes(&mut passes).unwrap();
    // The second run finds nothing to do: no further writes.
    assert_eq!(m.env.writes, writes_after_first);
}

#[test]
fn cache_matches_persisted_content_after_write() {
    let files = [("src/main.rs", "fn main() { println!(\"x\"); }")];
    let env = TestEnv::reproducing(&files);
    let mut opened = open_files(&files);
    let mut file = opened.remove(0);
    let mut env = env;
    let new_tree = syn::parse_file("fn main() { loop {} }").unwrap();
    file.write(&mut env, new_tree).unwrap();
    assert_eq!(file.text, canonicalize("fn main() { loop {} }"));
    assert_eq!(env.disk["src/main.rs"], file.text);
}

#[test]
fn rollback_restores_pre_change_content() {
    let code = "fn main() { println!(\"x\"); }";
    let files = [("src/main.rs", code)];
    let mut env = TestEnv::reproducing(&files);
    let mut opened = open_files(&files);
    let mut file = opened.remove(0);
    let original_text = file.text.clone();
    let mut change = file.try_change();
    let (snapshot_text, snapshot_tree) = change.before_content();
    assert_eq!(*snapshot_text, original_text);
    assert_eq!(prettyplease::unparse(snapshot_tree), canonicalize(code));
    let new_tree = syn::parse_file("fn main() { loop {} }").unwrap();
    change.write(&mut file, &mut env, new_tree).unwrap();
    assert_ne!(file.text, original_text);
    change.rollback(&mut file, &mut env).unwrap();
    assert_eq!(file.text, original_text);
    assert_eq!(env.disk["src/main.rs"], original_text);
}

#[test]
fn round_progress_decision() {
    // A committed change always means another round.
    assert_eq!(round_decision(true, false, false), RoundNext::RunAnotherRound);
    assert_eq!(round_decision(true, true, true), RoundNext::RunAnotherRound);
    // No change and no invalidation: the pass is done.
    assert_eq!(round_decision(false, false, false), RoundNext::Finished);
    assert_eq!(round_decision(false, false, true), RoundNext::Finished);
    // Invalidated files earn exactly one refresh.
    assert_eq!(round_decision(false, true, false), RoundNext::RefreshAndRetry);
    assert_eq!(round_decision(false, true, true), RoundNext::Finished);
}

#[test]
fn parse_error_on_open() {
    let r = SourceFile::open("src/bad.rs".to_string(), "fn fn fn".to_string());
    assert!(matches!(r, Err(MinimizeError::Parse { .. })));
}

#[test]
fn io_error_when_persisting_fails() {
    let files = [("src/main.rs", "fn extra() {} fn main() {}")];
    let mut env = TestEnv::reproducing(&files);
    env.fail_writes = true;
    let mut m = Minimizer::new(open_files(&files), env);
    let r = m.run_pass(&mut TestPass::DeleteUnused);
    assert!(matches!(r, Err(MinimizeError::Io { .. })));
}

#[test]
fn format_error_when_formatter_refuses() {
    let files = [("src/main.rs", "fn extra() {} fn main() {}")];
    let mut env = TestEnv::reproducing(&files);
    env.fail_format = true;
    let mut m = Minimizer::new(open_files(&files), env);
    let r = m.run_pass(&mut TestPass::DeleteUnused);
    assert!(matches!(r, Err(MinimizeError::Format { .. })));
}

#[test]
fn verifier_error_when_build_tool_fails() {
    let files = [("src/main.rs", "fn main() {}")];
    let mut env = TestEnv::reproducing(&files);
    env.fail_build = true;
    let mut m = Minimizer::new(open_files(&files), env);
    let mut passes = vec![TestPass::NoOp];
    let r = m.run_passes(&mut passes);
    assert!(matches!(r, Err(MinimizeError::Verifier)));
}

#[test]
fn does_not_reproduce_error_at_startup() {
    let files = [("src/main.rs", "fn main() {}")];
    let env = TestEnv::with_verdict(&files, Box::new(|_| false));
    let mut m = Minimizer::new(open_files(&files), env);
    let mut passes = vec![TestPass::NoOp];
    let r = m.run_passes(&mut passes);
    assert!(matches!(r, Err(MinimizeError::DoesNotReproduce)));
}

#[test]
fn cancelled_at_round_boundary() {
    let files = [("src/main.rs", "fn main() {}")];
    let mut env = TestEnv::reproducing(&files);
    env.cancel = true;
    let mut m = Minimizer::new(open_files(&files), env);
    let r = m.run_pass(&mut TestPass::NoOp);
    assert!(matches!(r, Err(MinimizeError::Cancelled)));
}

#[test]
fn invariant_violation_for_lying_pass() {
    let files = [("src/main.rs", "fn main() {}")];
    let env = TestEnv::reproducing(&files);
    let mut m = Minimizer::new(open_files(&files), env);
    let r = m.run_pass(&mut TestPass::LiarNoChange);
    assert!(matches!(r, Err(MinimizeError::InvariantViolation)));
}

#[test]
fn minimize_front_door() {
    let inputs = vec![(
        "src/main.rs".to_string(),
        "fn gone() {} fn main() {}".to_string(),
    )];
    let mut env = TestEnv::reproducing(&[]);
    env.disk
        .insert("src/main.rs".to_string(), "fn gone() {} fn main() {}".to_string());
    let mut passes = vec![TestPass::DeleteUnused];
    let m = cargo_minimize::driver::minimize(inputs, env, &mut passes).unwrap();
    assert_eq!(canonicalize(&m.files[0].text), canonicalize("fn main() {}"));
}

#[test]
fn error_descriptions_name_their_kind() {
    assert_eq!(
        MinimizeError::Verifier.describe(),
        "the build tool failed to run"
    );
    assert_eq!(
        MinimizeError::DoesNotReproduce.describe(),
        "the initial build must reproduce the issue"
    );
    let format_err = MinimizeError::Format {
        path: "src/main.rs".to_string(),
    };
    assert_eq!(format_err.describe(), "failed to print a source tree");
}
