use mdnt_extractor::chips::Chip;
use mdnt_extractor::cli::{parse_constants, AppConfig, Cli, CliError, ConstantsSetup};
use mdnt_extractor::config::{Action, Ctx, FailMode, HarnessConfig, LoggingConfig, OutputFormat};
use mdnt_extractor::extraction::{run_outcome, AppError, OptStep, RunFailure, Summary};
use mdnt_extractor::harness_macro::{CircuitCfg, ErrorType};
use mdnt_extractor::picus::{dep_header, Header, PicusConfig, Preludes, Versions};

fn cli() -> Cli {
    Cli {
        instructions: vec![],
        chip: Some(Chip::Ecc),
        format: vec![],
        ty: None,
        output: None,
        constants: vec![],
        constants_file: None,
        method_whitelist: vec![],
        method_blacklist: vec![],
        log: None,
        log_level: log::Level::Info,
        disable_decomposition_rewrite: false,
        debug_comments: false,
        picus_no_opt: false,
        no_opt: false,
        fail_fast: false,
        prelude: None,
        dump_ir: false,
        list: false,
    }
}

#[test]
fn cli_defaults() {
    let c = cli();
    assert_eq!(c.fail_mode(), FailMode::Continue);
    assert_eq!(c.action(), Action::Extract);
    assert_eq!(c.formats(), vec![OutputFormat::Picus]);
    assert!(c.optimize_ir());
    assert_eq!(c.picus_config(), PicusConfig::new(true, None));
    assert!(c.logging().is_none());
    assert_eq!(c.setup().unwrap(), ConstantsSetup::WarnMissing);
}

#[test]
fn cli_flags() {
    let mut c = cli();
    c.fail_fast = true;
    c.list = true;
    c.no_opt = true;
    c.prelude = Some(Preludes::Spread);
    c.log = Some("out.log".to_string());
    c.log_level = log::Level::Debug;
    assert_eq!(c.fail_mode(), FailMode::Fast);
    assert_eq!(c.action(), Action::List);
    assert!(!c.optimize_ir());
    assert_eq!(c.picus_config(), PicusConfig::new(false, Some(Preludes::Spread)));
    let l = c.logging().unwrap();
    assert_eq!(l.path(), "out.log");
    assert_eq!(l.level(), log::Level::Debug);
}

#[test]
fn cli_constants_setup() {
    let mut c = cli();
    c.constants_file = Some("consts.txt".to_string());
    assert_eq!(c.setup().unwrap(), ConstantsSetup::ReadFile("consts.txt".to_string()));
    c.constants = vec!["1".to_string()];
    let err = c.setup().unwrap_err();
    assert!(matches!(err, CliError::ConstantsConfigErr));
    assert_eq!(err.message().unwrap(), "Cannot set --constants and --constants-file at the same time");
    c.constants_file = None;
    assert_eq!(c.setup().unwrap(), ConstantsSetup::Keep);
}

#[test]
fn harness_config_makes_ctx() {
    let constants = vec!["a".to_string()];
    let hc = HarnessConfig::new(&constants, true, false, false);
    let ctx = hc.make_ctx();
    assert_eq!(ctx.constants(), &constants[..]);
    assert!(ctx.debug_comments());
    assert!(!ctx.patterns().decompose_core);
    let ctx2 = Ctx::new(&constants, false, false);
    assert!(ctx2.patterns().decompose_core);
    let mut c = cli();
    c.disable_decomposition_rewrite = true;
    assert!(!c.harness_config().make_ctx().patterns().decompose_core);
    let lc = LoggingConfig::new("x", log::Level::Warn);
    assert_eq!(lc.path(), "x");
}

#[test]
fn app_error_messages() {
    assert_eq!(AppError::harness("h", "boom".to_string()).message(), "Harness h failed: boom");
    assert_eq!(
        AppError::opt("h", "e".to_string()).message(),
        "IR optimization pass failed for harness h: e"
    );
    assert_eq!(AppError::ir_dump("h", "e".to_string()).message(), "Failed to write IR dump of harness h: e");
    assert_eq!(AppError::picus("h", "e".to_string()).message(), "Failed to write Picus result of harness h: e");
    assert_eq!(OptStep::ConstantFold.log_name(), "constant folding");
    assert_eq!(OptStep::Canonicalization.failure_message(), "Canonicalization pass failed");
}

#[test]
fn run_outcomes() {
    assert_eq!(run_outcome(&vec![false, false], FailMode::Fast), Ok(2));
    assert_eq!(run_outcome(&vec![false, true, true], FailMode::Fast), Err(RunFailure::FailedHarness(1)));
    assert_eq!(run_outcome(&vec![false, true, true], FailMode::Continue), Err(RunFailure::Errors(2)));
    assert_eq!(run_outcome(&vec![], FailMode::Continue), Err(RunFailure::NoCircuits));
    assert_eq!(RunFailure::Errors(12).message().unwrap(), "Extraction failed with 12 errors");
    assert_eq!(RunFailure::NoCircuits.message().unwrap(), "No circuits were generated!");
    let mut s = Summary::new();
    assert!(!s.record(true, FailMode::Continue));
    assert!(s.record(true, FailMode::Fast));
    assert_eq!(s, Summary { errors: 1, generated: 2 });
    assert_eq!(s.conclude(), Err(RunFailure::Errors(1)));
}

#[test]
fn picus_headers() {
    let mut out = String::new();
    dep_header(&mut out, "dep", "1.2.3", Some("abcd1234"));
    dep_header(&mut out, "other", "0.1", None);
    assert_eq!(out, "; dep 1.2.3 (abcd1234)\n; other 0.1\n");
    let v = Versions {
        analyzer: "0.5.0",
        frontend: "1.0.0",
        frontend_checksum: None,
        circuits: "2.0.0",
        circuits_checksum: Some("ff00ff00"),
    };
    assert_eq!(
        Header.text_at(&v, "2024-01-01 00:00:00 UTC"),
        "; vim: set filetype=scheme :\n; Midnight analyzer 0.5.0\n; Haloumi frontend 1.0.0\n; Midnight circuits 2.0.0 (ff00ff00)\n; Timestamp 2024-01-01 00:00:00 UTC\n"
    );
    let now = Header.text(&v);
    assert!(now.starts_with("; vim: set filetype=scheme :\n; Midnight analyzer 0.5.0\n"));
    assert!(now.contains("; Timestamp 2"));
    assert!(now.ends_with(" UTC\n"));
}

#[test]
fn macro_settings_and_messages() {
    assert!(!CircuitCfg::new().mut_chip());
    assert!(CircuitCfg::new().with_mut_chip().mut_chip());
    assert_eq!(
        ErrorType::UnexpectedParams { from: 2, to: 10, lst: "(chip, layouter)" }.message(),
        "expected between 2 and 10 parameters: (chip, layouter)"
    );
    assert_eq!(ErrorType::ExpectedTypeInGeneric(0).message(), "expected a type for generic argument #0");
    assert_eq!(ErrorType::TypeNotReference.message(), "parameter must be a &-reference");
    assert_eq!(
        ErrorType::FailedExtractLayouterParam("no generics").message(),
        "failed to extract F from &mut impl Layouter<F>: no generics"
    );
}

#[test]
fn constants_one_per_line_trimmed() {
    let text = "  0x01 \n\n\tfoo\r\nbar\n   \n";
    assert_eq!(parse_constants(text), vec!["0x01".to_string(), "foo".to_string(), "bar".to_string()]);
}

#[test]
fn constants_of_empty_and_unterminated_text() {
    assert!(parse_constants("").is_empty());
    assert!(parse_constants("\n\n  \n").is_empty());
    assert_eq!(parse_constants("last line"), vec!["last line".to_string()]);
    assert_eq!(parse_constants(" a b \nc"), vec!["a b".to_string(), "c".to_string()]);
}
