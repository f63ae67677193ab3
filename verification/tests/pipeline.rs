use rr::compiler::pipeline::{
    bytes_text, escape_r_string, import_error, link_output, millis_text, pad_right_string, CliLog,
    ModuleLoader, OptLevel, fallback_warning, opt_step_labels, top_level_fn_name,
};
use rr::mir::def::FnIR;
use rr::error::{RRCode, Stage};
use rr::legacy::codegen::rtext::escape_r_string as escape_literal;
use rr::text::{push_decimal, push_int};

fn colored() -> CliLog {
    CliLog::from_env_flags(true, false, false, false)
}

fn plain() -> CliLog {
    CliLog::from_env_flags(false, false, false, false)
}

#[test]
fn opt_level_labels() {
    assert_eq!(OptLevel::O0.label(), "O0");
    assert_eq!(OptLevel::O1.label(), "O1");
    assert_eq!(OptLevel::O2.label(), "O2");
    assert!(!OptLevel::O0.is_optimized());
    assert!(OptLevel::O1.is_optimized());
    assert!(OptLevel::O2.is_optimized());
}

#[test]
fn styles_wrap_text_only_with_colors_on() {
    assert_eq!(colored().dim("x"), "\x1b[2mx\x1b[0m");
    assert_eq!(colored().red_bold("x"), "\x1b[1;91mx\x1b[0m");
    assert_eq!(colored().yellow_bold("x"), "\x1b[1;93mx\x1b[0m");
    assert_eq!(colored().green_bold("x"), "\x1b[1;92mx\x1b[0m");
    assert_eq!(colored().cyan_bold("x"), "\x1b[1;96mx\x1b[0m");
    assert_eq!(colored().magenta_bold("x"), "\x1b[1;95mx\x1b[0m");
    assert_eq!(colored().white_bold("x"), "\x1b[1;97mx\x1b[0m");
    assert_eq!(plain().dim("x"), "x");
    assert_eq!(plain().white_bold("x"), "x");
}

#[test]
fn color_and_detail_follow_the_environment() {
    // A terminal without NO_COLOR: colors and details.
    let l = CliLog::from_env_flags(true, false, false, false);
    assert_eq!(l.dim("a"), "\x1b[2ma\x1b[0m");
    assert!(l.trace_line("a", "b").is_some());
    // NO_COLOR wins over a terminal and over forcing.
    let l = CliLog::from_env_flags(true, true, true, false);
    assert_eq!(l.dim("a"), "a");
    // Forced colors off a terminal; details only when forced verbose.
    let l = CliLog::from_env_flags(false, false, true, false);
    assert_eq!(l.dim("a"), "\x1b[2ma\x1b[0m");
    assert!(l.trace_line("a", "b").is_none());
    let l = CliLog::from_env_flags(false, false, false, true);
    assert_eq!(l.trace_line("a", "b"), Some("   * a b".to_string()));
}

#[test]
fn message_lines() {
    let l = plain();
    let (first, second) = l.banner_lines("main.rr", OptLevel::O1);
    assert_eq!(first, "[+] RR Tachyon v2.0");
    assert_eq!(second, " └─ Input: main.rr (O1)");
    assert_eq!(
        l.step_start_line(1, 6, "Source Analysis", "parse + scope resolution"),
        "=> [1/6] Source Analysis      parse + scope resolution"
    );
    assert_eq!(l.step_ok_line("done"), "   ✓ done");
    assert_eq!(l.pulse_success_line("12ms"), "✔ Tachyon Pulse Successful in 12ms");
    assert_eq!(l.success_line("ok"), "✔ ok");
    assert_eq!(l.warn_line("careful"), "! careful");
    assert_eq!(l.error_line("bad"), "x bad");
    assert_eq!(colored().error_line("bad"), "\x1b[1;91mx\x1b[0m \x1b[1;91mbad\x1b[0m");
}

#[test]
fn padding_counts_characters() {
    assert_eq!(pad_right_string("ab", 5), "ab   ");
    assert_eq!(pad_right_string("abcdef", 3), "abcdef");
    assert_eq!(pad_right_string("✓", 3), "✓  ");
    assert_eq!(pad_right_string("", 0), "");
}

#[test]
fn small_durations_and_sizes() {
    assert_eq!(millis_text(0), "0ms");
    assert_eq!(millis_text(999), "999ms");
    assert_eq!(bytes_text(1023), "1023B");
}

#[test]
fn source_labels_are_escaped() {
    assert_eq!(escape_r_string("a\"b\\c\nd\te"), "a\\\"b\\\\c\\nd\te");
    assert_eq!(escape_literal("a\"b\\c\nd\te\r"), "a\\\"b\\\\c\\nd\\te\\r");
}

#[test]
fn linking_puts_runtime_label_code_and_calls_in_order() {
    let codes = vec!["f <- function() {}".to_string(), "g <- 1".to_string()];
    let calls = vec!["Sym_top_0".to_string()];
    assert_eq!(
        link_output("RT", "main.rr", &codes, &calls),
        "RT\nrr_set_source(\"main.rr\");\nf <- function() {}\ng <- 1\nSym_top_0()\n"
    );
    assert_eq!(
        link_output("RT\n", "a\"b.rr", &vec![], &vec![]),
        "RT\nrr_set_source(\"a\\\"b.rr\");\n"
    );
    assert_eq!(link_output("", "m.rr", &vec![], &vec![]), "\nrr_set_source(\"m.rr\");\n");
}

#[test]
fn decimal_text() {
    let mut s = String::new();
    push_decimal(&mut s, 0);
    s.push(' ');
    push_decimal(&mut s, 18446744073709551615);
    s.push(' ');
    push_int(&mut s, -9223372036854775808);
    s.push(' ');
    push_int(&mut s, 42);
    assert_eq!(s, "0 18446744073709551615 -9223372036854775808 42");
}

#[test]
fn loader_queues_each_path_once_with_increasing_ids() {
    let mut l = ModuleLoader::new("/p/main.rr".to_string(), "main".to_string());
    assert!(l.is_loaded("/p/main.rr"));
    assert!(!l.is_loaded("/p/module.rr"));
    assert_eq!(l.next_id(), 1);
    let first = l.next_module().unwrap();
    assert_eq!((first.path.as_str(), first.content.as_str(), first.mod_id), ("/p/main.rr", "main", 0));
    assert!(l.next_module().is_none());
    assert_eq!(l.add_module("/p/module.rr".to_string(), "m".to_string()), 1);
    assert!(l.is_loaded("/p/module.rr"));
    assert_eq!(l.add_module("/p/util.rr".to_string(), "u".to_string()), 2);
    assert_eq!(l.next_id(), 3);
    let a = l.next_module().unwrap();
    let b = l.next_module().unwrap();
    assert_eq!((a.path.as_str(), a.mod_id), ("/p/module.rr", 1));
    assert_eq!((b.path.as_str(), b.content.as_str(), b.mod_id), ("/p/util.rr", "u", 2));
    assert!(l.next_module().is_none());
}

#[test]
fn unreadable_import_is_a_parse_error() {
    let e = import_error("/p/missing.rr", "No such file or directory (os error 2)");
    assert_eq!(e.module, "RR.ParseError");
    assert_eq!(e.code, RRCode::E0001);
    assert_eq!(e.stage, Stage::Parse);
    assert_eq!(
        e.message,
        "failed to load imported module '/p/missing.rr': No such file or directory (os error 2)"
    );
    assert!(e.frames.is_empty());
}

#[test]
fn optimization_step_labels_and_top_level_names() {
    assert_eq!(opt_step_labels(true), ("Tachyon Optimization", "execute aggressive passes"));
    assert_eq!(opt_step_labels(false), ("Tachyon Stabilization", "execute safe stabilization passes"));
    assert_eq!(top_level_fn_name(0), "Sym_top_0");
    assert_eq!(top_level_fn_name(1000007), "Sym_top_1000007");
}

#[test]
fn fallback_warnings() {
    let mut f = FnIR::new("Sym_3".to_string(), vec![]);
    assert_eq!(fallback_warning(&f), None);
    f.unsupported_dynamic = true;
    assert_eq!(fallback_warning(&f), Some("Hybrid fallback enabled for Sym_3 (dynamic feature)".to_string()));
    f.fallback_reasons = vec!["eval".to_string(), "get".to_string()];
    assert_eq!(fallback_warning(&f), Some("Hybrid fallback enabled for Sym_3: eval, get".to_string()));
}
