use dockerfile_recon::assemble::{assemble, process_run, render, RunError};
use dockerfile_recon::classify::parse_created_by;
use dockerfile_recon::history::{parse_history, HistoryRecord};
use dockerfile_recon::text::{split_lines, str_starts_with, trim_start_str, trim_str};

fn records(cmds: &[&str]) -> Vec<HistoryRecord> {
    cmds.iter()
        .map(|c| HistoryRecord {
            created_by: c.to_string(),
        })
        .collect()
}

#[test]
fn empty_command_yields_no_instruction() {
    assert_eq!(parse_created_by(""), None);
}

#[test]
fn nop_prefix_is_stripped() {
    assert_eq!(
        parse_created_by("/bin/sh -c #(nop) ENV A=1"),
        Some("ENV A=1".to_string())
    );
}

#[test]
fn nop_prefix_keeps_remainder_verbatim() {
    assert_eq!(
        parse_created_by("/bin/sh -c #(nop)  CMD [\"bash\"]"),
        Some(" CMD [\"bash\"]".to_string())
    );
}

#[test]
fn shell_prefix_becomes_run() {
    assert_eq!(
        parse_created_by("/bin/sh -c apt-get update"),
        Some("RUN apt-get update".to_string())
    );
}

#[test]
fn nop_rule_wins_over_shell_rule() {
    assert_eq!(parse_created_by("/bin/sh -c #(nop) x"), Some("x".to_string()));
}

#[test]
fn known_keywords_are_kept_unchanged() {
    let cases = [
        "ADD a b",
        "ARG version=1",
        "COPY src dst",
        "RUN make",
        "ENV A=1",
        "CMD [\"bash\"]",
        "LABEL maintainer=me",
        "EXPOSE 8080",
        "VOLUME /data",
        "ENTRYPOINT [\"/bin/app\"]",
    ];
    for case in cases {
        assert_eq!(parse_created_by(case), Some(case.to_string()));
    }
}

#[test]
fn bare_keyword_is_kept_unchanged() {
    assert_eq!(parse_created_by("CMD"), Some("CMD".to_string()));
}

#[test]
fn keyword_followed_by_non_word_character_matches() {
    assert_eq!(parse_created_by("ENV=x"), Some("ENV=x".to_string()));
}

#[test]
fn keyword_prefix_of_longer_word_does_not_match() {
    assert_eq!(
        parse_created_by("ENVIRONMENT x"),
        Some("# Unrecognized command: ENVIRONMENT x".to_string())
    );
    assert_eq!(
        parse_created_by("RUNX"),
        Some("# Unrecognized command: RUNX".to_string())
    );
    assert_eq!(
        parse_created_by("COPYfile"),
        Some("# Unrecognized command: COPYfile".to_string())
    );
}

#[test]
fn unrecognized_command_gets_diagnostic_marker() {
    assert_eq!(
        parse_created_by("bash -c ls"),
        Some("# Unrecognized command: bash -c ls".to_string())
    );
    assert_eq!(
        parse_created_by("foobar"),
        Some("# Unrecognized command: foobar".to_string())
    );
}

#[test]
fn assemble_reverses_record_order_and_omits_empty() {
    let recs = records(&["RUN apt-get update", "/bin/sh -c #(nop)  CMD [\"bash\"]", ""]);
    let out = assemble(&recs);
    assert_eq!(
        out,
        vec![
            " CMD [\"bash\"]".to_string(),
            "RUN apt-get update".to_string()
        ]
    );
}

#[test]
fn assemble_keeps_duplicates_and_order() {
    let recs = records(&["RUN c", "RUN b", "RUN b", "RUN a"]);
    let out = assemble(&recs);
    assert_eq!(
        out,
        vec![
            "RUN a".to_string(),
            "RUN b".to_string(),
            "RUN b".to_string(),
            "RUN c".to_string()
        ]
    );
}

#[test]
fn assemble_trims_command_before_classifying() {
    let recs = records(&["  RUN make \t"]);
    let out = assemble(&recs);
    assert_eq!(out, vec!["RUN make".to_string()]);
}

#[test]
fn render_writes_block_per_instruction() {
    let instrs = vec![" CMD [\"bash\"]".to_string(), "RUN apt-get update".to_string()];
    assert_eq!(render(&instrs), "CMD [\"bash\"]\n\nRUN apt-get update\n\n");
}

#[test]
fn render_of_nothing_is_empty() {
    assert_eq!(render(&Vec::new()), "");
}

#[test]
fn parse_history_reads_created_by_fields() {
    let raw = "{\"CreatedBy\":\"RUN apt-get update\"}\n{\"CreatedBy\":\"/bin/sh -c ls\"}\n";
    let recs = parse_history(raw).unwrap();
    assert_eq!(recs.len(), 2);
    assert_eq!(recs[0].created_by, "RUN apt-get update");
    assert_eq!(recs[1].created_by, "/bin/sh -c ls");
}

#[test]
fn parse_history_discards_blank_lines() {
    let raw = "\n   \n{\"CreatedBy\":\"RUN make\"}\n\t\n";
    let recs = parse_history(raw).unwrap();
    assert_eq!(recs.len(), 1);
    assert_eq!(recs[0].created_by, "RUN make");
}

#[test]
fn parse_history_without_created_by_keeps_empty_record() {
    let raw = "{\"Size\":0}";
    let recs = parse_history(raw).unwrap();
    assert_eq!(recs.len(), 1);
    assert_eq!(recs[0].created_by, "");
}

#[test]
fn parse_history_with_non_string_created_by_keeps_empty_record() {
    let raw = "{\"CreatedBy\":42}";
    let recs = parse_history(raw).unwrap();
    assert_eq!(recs.len(), 1);
    assert_eq!(recs[0].created_by, "");
}

#[test]
fn parse_history_rejects_malformed_line() {
    assert!(parse_history("{\"CreatedBy\":\"RUN make\"}\nnot json\n").is_none());
}

#[test]
fn failed_invocation_reports_error_text() {
    let r = process_run(false, "no such image", "");
    assert_eq!(r, Err(RunError::Runtime("no such image".to_string())));
}

#[test]
fn malformed_history_aborts_run() {
    let r = process_run(true, "", "garbage");
    assert_eq!(r, Err(RunError::MalformedHistory));
}

#[test]
fn whole_run_reconstructs_in_build_order() {
    let raw = "{\"CreatedBy\":\"RUN apt-get update\"}\n{\"CreatedBy\":\"/bin/sh -c #(nop)  CMD [\\\"bash\\\"]\"}\n";
    let out = process_run(true, "", raw).unwrap();
    assert_eq!(
        render(&out),
        "CMD [\"bash\"]\n\nRUN apt-get update\n\n"
    );
}

#[test]
fn trim_removes_surrounding_whitespace() {
    assert_eq!(trim_str(" \t x y \r\n"), "x y");
    assert_eq!(trim_str("xy"), "xy");
    assert_eq!(trim_str(" \t "), "");
}

#[test]
fn trim_start_removes_only_leading_whitespace() {
    assert_eq!(trim_start_str("  x "), "x ");
    assert_eq!(trim_start_str("x"), "x");
}

#[test]
fn split_lines_drops_separators() {
    assert_eq!(split_lines("a\nb"), vec!["a".to_string(), "b".to_string()]);
    assert_eq!(
        split_lines("a\n\nb\n"),
        vec!["a".to_string(), "".to_string(), "b".to_string()]
    );
    assert_eq!(split_lines(""), Vec::<String>::new());
}

#[test]
fn starts_with_checks_prefix() {
    assert!(str_starts_with("/bin/sh -c ls", "/bin/sh -c "));
    assert!(!str_starts_with("/bin/sh", "/bin/sh -c "));
    assert!(str_starts_with("abc", ""));
}
