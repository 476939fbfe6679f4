use chr::error::PickError;
use chr::log::{
    apply_range, commit_hashes, parse_line, parse_log, render, render_entry, select, CommitRecord,
    LogEntry,
};
use chr::naming::{config_file_text, resolve, BranchPair, Config, NamingScheme};
use chr::session::{Action, Event, PickOptions, PickSession, LATEST_WINDOW};
use chr::text::{lines, split_on, starts_with, trim};

fn pair(prd: &str, hml: &str) -> BranchPair {
    BranchPair { production: prd.to_string(), homologation: hml.to_string() }
}

fn commit(hash: &str, author: &str, subject: &str) -> LogEntry {
    LogEntry::Commit(CommitRecord {
        hash: hash.to_string(),
        author: author.to_string(),
        subject: subject.to_string(),
    })
}

fn strings(v: &[&str]) -> Vec<String> {
    v.iter().map(|s| s.to_string()).collect()
}

/// Drives a session through `events`, returning every action it took.
fn drive(options: PickOptions, events: Vec<Event>) -> Vec<Action> {
    let mut session = PickSession::new(NamingScheme::defaults(), options);
    events.into_iter().map(|e| session.step(e)).collect()
}

#[test]
fn trim_strips_unicode_white_space() {
    assert_eq!(trim("  \tZUP-42-prd\n"), "ZUP-42-prd");
    assert_eq!(trim("\u{a0}alice\u{3000}"), "alice");
    assert_eq!(trim(" \n "), "");
    assert_eq!(trim("a b"), "a b");
}

#[test]
fn split_keeps_empty_pieces() {
    assert_eq!(split_on("ZUP-42-prd", '-'), strings(&["ZUP", "42", "prd"]));
    assert_eq!(split_on("", '-'), strings(&[""]));
    assert_eq!(split_on("-a-", '-'), strings(&["", "a", ""]));
}

#[test]
fn lines_follow_str_lines() {
    assert_eq!(lines("a\nb\r\n\nc"), strings(&["a", "b", "", "c"]));
    assert_eq!(lines("a\n"), strings(&["a"]));
    assert_eq!(lines(""), Vec::<String>::new());
    assert_eq!(lines("x\r"), strings(&["x\r"]));
    for text in ["a\nb\r\n\nc", "a\n", "", "\n\n", "x\r", "one\r\ntwo\r\n"] {
        let expected: Vec<String> = text.lines().map(|l| l.to_string()).collect();
        assert_eq!(lines(text), expected);
    }
}

#[test]
fn prefix_test() {
    assert!(starts_with("ZUP-42-prd", "ZUP-"));
    assert!(starts_with("ZUP-", "ZUP-"));
    assert!(!starts_with("ZU", "ZUP-"));
    assert!(!starts_with("ABC-42-prd", "ZUP-"));
}

#[test]
fn resolve_production_branch() {
    let r = resolve("ZUP-42-prd", &NamingScheme::defaults());
    assert_eq!(r, Ok(pair("ZUP-42-prd", "ZUP-42-hml")));
}

#[test]
fn resolve_homologation_branch_gives_same_pair() {
    let r = resolve("ZUP-42-hml", &NamingScheme::defaults());
    assert_eq!(r, Ok(pair("ZUP-42-prd", "ZUP-42-hml")));
}

#[test]
fn resolve_rejects_foreign_prefix() {
    for b in ["ABC-42-prd", "main", "zup-42-prd", "feature-x", ""] {
        assert_eq!(resolve(b, &NamingScheme::defaults()), Err(PickError::InvalidBranchFormat));
    }
}

#[test]
fn resolve_rejects_branch_without_hyphen() {
    let scheme = NamingScheme {
        prefix: "T".to_string(),
        suffix_prd: "p".to_string(),
        suffix_hml: "h".to_string(),
    };
    assert_eq!(resolve("T42p", &scheme), Err(PickError::InvalidBranchFormat));
}

#[test]
fn resolve_takes_second_piece_positionally() {
    let scheme = NamingScheme {
        prefix: "A-B-".to_string(),
        suffix_prd: "-prd".to_string(),
        suffix_hml: "-hml".to_string(),
    };
    assert_eq!(resolve("A-B-7-prd", &scheme), Ok(pair("A-B-B-prd", "A-B-B-hml")));
}

#[test]
fn defaults_when_config_sets_nothing() {
    let scheme = NamingScheme::from_config(&Config::empty());
    assert_eq!(scheme, NamingScheme::defaults());
    assert_eq!(scheme.prefix, "ZUP-");
    assert_eq!(scheme.suffix_prd, "-prd");
    assert_eq!(scheme.suffix_hml, "-hml");
}

#[test]
fn config_overrides_field_by_field() {
    let config = Config { prefix: Some("TKT-".to_string()), suffix_prd: None, suffix_hml: Some("-qa".to_string()) };
    let scheme = NamingScheme::from_config(&config);
    assert_eq!(scheme.prefix, "TKT-");
    assert_eq!(scheme.suffix_prd, "-prd");
    assert_eq!(scheme.suffix_hml, "-qa");
    assert_eq!(resolve("TKT-9-prd", &scheme), Ok(pair("TKT-9-prd", "TKT-9-qa")));
}

#[test]
fn parse_commit_line() {
    assert_eq!(parse_line("abc123|alice|Fix login"), commit("abc123", "alice", "Fix login"));
    assert_eq!(parse_line(" abc | Alice Smith |  Add x  "), commit("abc", "Alice Smith", "Add x"));
    assert_eq!(parse_line("a|b|c|d"), commit("a", "b", "c"));
}

#[test]
fn parse_malformed_line_is_text() {
    assert_eq!(parse_line("no delimiters here"), LogEntry::Text("no delimiters here".to_string()));
    assert_eq!(parse_line("a|b"), LogEntry::Text("a|b".to_string()));
}

#[test]
fn parse_log_one_entry_per_line() {
    let out = "c3|alice|three\nc2|bob|two\nmerge\n";
    assert_eq!(
        parse_log(out),
        vec![commit("c3", "alice", "three"), commit("c2", "bob", "two"), LogEntry::Text("merge".to_string())]
    );
    assert!(parse_log("").is_empty());
}

#[test]
fn select_without_filter_keeps_everything() {
    let entries = parse_log("c3|alice|three\nweird\nc1|bob|one\n");
    assert_eq!(select(&entries, None), entries);
}

#[test]
fn select_by_author_is_exact() {
    let entries = parse_log("c4|Alice|four\nc3|alice|three\nweird\nc2|bob|two\nc1|alice|one\n");
    let sel = select(&entries, Some("alice"));
    assert_eq!(sel, vec![commit("c3", "alice", "three"), commit("c1", "alice", "one")]);
    for e in &sel {
        assert!(entries.contains(e));
    }
    assert!(select(&entries, Some("carol")).is_empty());
}

#[test]
fn render_colors_own_and_other_authors() {
    assert_eq!(render_entry(&commit("c1", "alice", "one"), "alice"), "c1 | \u{1b}[32malice\u{1b}[0m | one");
    assert_eq!(render_entry(&commit("c2", "bob", "two"), "alice"), "c2 | \u{1b}[31mbob\u{1b}[0m | two");
    assert_eq!(render_entry(&LogEntry::Text("raw | line".to_string()), "alice"), "raw | line");
    let lines = render(&vec![commit("c1", "alice", "one"), LogEntry::Text("x".to_string())], "bob");
    assert_eq!(lines, strings(&["c1 | \u{1b}[31malice\u{1b}[0m | one", "x"]));
}

#[test]
fn hashes_skip_text_lines() {
    let entries = parse_log("c3|a|x\nmerge\nc1|b|y\n");
    assert_eq!(commit_hashes(&entries), strings(&["c3", "c1"]));
    assert!(commit_hashes(&vec![LogEntry::Text("m".to_string())]).is_empty());
}

#[test]
fn range_runs_from_oldest_parent_to_newest() {
    assert_eq!(apply_range(&strings(&["c3", "c2", "c1"])), "c1^..c3");
    assert_eq!(apply_range(&strings(&["only"])), "only^..only");
}

#[test]
fn config_file_text_keeps_toml_lines() {
    let toml = "prefix = \"TKT-\"\nsuffix_prd = \"-p\"\nsuffix_hml = \"-h\"\n";
    let expected = "# Configuration file for chr tool\n\n\
        # The prefix for branch names (default: \"ZUP-\")\nprefix = \"TKT-\"\n\
        # The suffix for production branches (default: \"-prd\")\nsuffix_prd = \"-p\"\n\
        # The suffix for homologation branches (default: \"-hml\")\nsuffix_hml = \"-h\"\n";
    assert_eq!(config_file_text(toml), expected);
}

#[test]
fn config_file_text_fills_missing_lines() {
    let text = config_file_text("other = 1\n");
    assert!(text.contains("\nprefix = \"\"\n"));
    assert!(text.contains("\nsuffix_prd = \"\"\n"));
    assert!(text.contains("\nsuffix_hml = \"\"\n"));
}

#[test]
fn latest_scenario_selects_own_commits_and_applies_oldest_first() {
    let options = PickOptions { count: 5, latest: true, show: false };
    let log = "c3|alice|three\nc2|alice|two\nc1|alice|one\n";
    let actions = drive(
        options,
        vec![
            Event::Begin,
            Event::CurrentBranch("ZUP-42-prd\n".to_string()),
            Event::BranchExists(true),
            Event::BranchExists(true),
            Event::Log(Some(log.to_string())),
            Event::User("alice\n".to_string()),
            Event::Confirmation(true),
            Event::Applied(true),
        ],
    );
    assert_eq!(
        actions,
        vec![
            Action::QueryCurrentBranch,
            Action::VerifyBranch("ZUP-42-prd".to_string()),
            Action::VerifyBranch("ZUP-42-hml".to_string()),
            Action::QueryLog {
                exclude: "ZUP-42-hml".to_string(),
                tip: "ZUP-42-prd".to_string(),
                max_count: LATEST_WINDOW,
            },
            Action::QueryUser,
            Action::Confirm(strings(&[
                "c3 | \u{1b}[32malice\u{1b}[0m | three",
                "c2 | \u{1b}[32malice\u{1b}[0m | two",
                "c1 | \u{1b}[32malice\u{1b}[0m | one",
            ])),
            Action::ApplyRange("c1^..c3".to_string()),
            Action::Finish(strings(&["Successfully cherry-picked commits"])),
        ]
    );
}

#[test]
fn empty_pair_reports_no_commits_and_applies_nothing() {
    let options = PickOptions { count: 5, latest: false, show: false };
    let actions = drive(
        options,
        vec![
            Event::Begin,
            Event::CurrentBranch("ZUP-42-prd".to_string()),
            Event::BranchExists(true),
            Event::BranchExists(true),
            Event::Log(Some(String::new())),
            Event::User("alice".to_string()),
        ],
    );
    assert_eq!(
        actions[3],
        Action::QueryLog {
            exclude: "ZUP-42-hml".to_string(),
            tip: "ZUP-42-prd".to_string(),
            max_count: 5,
        }
    );
    assert_eq!(
        actions[5],
        Action::Finish(strings(&["No commits found between 'ZUP-42-hml' and 'ZUP-42-prd'"]))
    );
    assert!(!actions.iter().any(|a| matches!(a, Action::ApplyRange(_) | Action::Confirm(_))));
}

#[test]
fn latest_with_no_own_commits_names_the_user() {
    let options = PickOptions { count: 5, latest: true, show: false };
    let actions = drive(
        options,
        vec![
            Event::Begin,
            Event::CurrentBranch("ZUP-7-hml".to_string()),
            Event::BranchExists(true),
            Event::BranchExists(true),
            Event::Log(Some("c1|bob|x\n".to_string())),
            Event::User("alice".to_string()),
        ],
    );
    assert_eq!(actions[5], Action::Finish(strings(&["No commits found for user 'alice'"])));
}

#[test]
fn show_lists_without_confirming_and_repeats() {
    let options = PickOptions { count: 5, latest: false, show: true };
    let events = || {
        vec![
            Event::Begin,
            Event::CurrentBranch("ZUP-42-prd".to_string()),
            Event::BranchExists(true),
            Event::BranchExists(true),
            Event::Log(Some("c2|bob|two\nc1|alice|one\n".to_string())),
            Event::User("alice".to_string()),
        ]
    };
    let first = drive(options, events());
    let second = drive(options, events());
    assert_eq!(first, second);
    assert_eq!(
        first[5],
        Action::Finish(strings(&["c2 | \u{1b}[31mbob\u{1b}[0m | two", "c1 | \u{1b}[32malice\u{1b}[0m | one"]))
    );
}

#[test]
fn only_text_lines_report_no_hashes() {
    let options = PickOptions { count: 5, latest: false, show: false };
    let actions = drive(
        options,
        vec![
            Event::Begin,
            Event::CurrentBranch("ZUP-1-prd".to_string()),
            Event::BranchExists(true),
            Event::BranchExists(true),
            Event::Log(Some("garbage\n".to_string())),
            Event::User("alice".to_string()),
        ],
    );
    assert_eq!(actions[5], Action::Finish(strings(&["garbage", "No valid commit hashes found in the output"])));
}

#[test]
fn declined_confirmation_applies_nothing() {
    let options = PickOptions { count: 5, latest: false, show: false };
    let actions = drive(
        options,
        vec![
            Event::Begin,
            Event::CurrentBranch("ZUP-1-prd".to_string()),
            Event::BranchExists(true),
            Event::BranchExists(true),
            Event::Log(Some("c1|a|x\n".to_string())),
            Event::User("a".to_string()),
            Event::Confirmation(false),
        ],
    );
    assert_eq!(actions[6], Action::Finish(Vec::new()));
}

#[test]
fn conflict_is_reported() {
    let options = PickOptions { count: 5, latest: false, show: false };
    let actions = drive(
        options,
        vec![
            Event::Begin,
            Event::CurrentBranch("ZUP-1-prd".to_string()),
            Event::BranchExists(true),
            Event::BranchExists(true),
            Event::Log(Some("c1|a|x\n".to_string())),
            Event::User("a".to_string()),
            Event::Confirmation(true),
            Event::Applied(false),
        ],
    );
    assert_eq!(actions[6], Action::ApplyRange("c1^..c1".to_string()));
    assert_eq!(
        actions[7],
        Action::Finish(strings(&["Cherry-pick operation failed. You may need to resolve conflicts."]))
    );
}

#[test]
fn missing_branches_fail() {
    let options = PickOptions { count: 5, latest: false, show: false };
    let prd = drive(
        options,
        vec![Event::Begin, Event::CurrentBranch("ZUP-3-prd".to_string()), Event::BranchExists(false)],
    );
    assert_eq!(prd[2], Action::Fail(PickError::BranchNotFound("ZUP-3-prd".to_string())));
    let hml = drive(
        options,
        vec![
            Event::Begin,
            Event::CurrentBranch("ZUP-3-prd".to_string()),
            Event::BranchExists(true),
            Event::BranchExists(false),
        ],
    );
    assert_eq!(hml[3], Action::Fail(PickError::BranchNotFound("ZUP-3-hml".to_string())));
}

#[test]
fn bad_branch_and_failed_log_fail() {
    let options = PickOptions { count: 5, latest: false, show: false };
    let bad = drive(options, vec![Event::Begin, Event::CurrentBranch("main\n".to_string())]);
    assert_eq!(bad[1], Action::Fail(PickError::InvalidBranchFormat));
    let failed = drive(
        options,
        vec![
            Event::Begin,
            Event::CurrentBranch("ZUP-3-prd".to_string()),
            Event::BranchExists(true),
            Event::BranchExists(true),
            Event::Log(None),
        ],
    );
    assert_eq!(failed[4], Action::Fail(PickError::ExternalToolFailure));
}

#[test]
fn out_of_order_event_fails() {
    let options = PickOptions { count: 5, latest: false, show: false };
    let actions = drive(options, vec![Event::User("a".to_string())]);
    assert_eq!(actions[0], Action::Fail(PickError::UnexpectedEvent));
    let mut session = PickSession::new(NamingScheme::defaults(), options);
    assert_eq!(session.step(Event::Begin), Action::QueryCurrentBranch);
    assert_eq!(session.step(Event::Begin), Action::Fail(PickError::UnexpectedEvent));
    assert_eq!(session.step(Event::Begin), Action::Fail(PickError::UnexpectedEvent));
}

#[test]
fn white_space_matches_std() {
    for u in 0u32..0x3100 {
        if let Some(c) = char::from_u32(u) {
            assert_eq!(chr::text::is_space_char(c), c.is_whitespace(), "code point {:x}", u);
        }
    }
    for text in ["  x  ", "\u{85}y\u{2029}", "\u{200b}z", ""] {
        assert_eq!(trim(text), text.trim());
    }
}

#[test]
fn split_matches_std() {
    for text in ["ZUP-42-prd", "", "-", "a--b", "no delimiter"] {
        let expected: Vec<String> = text.split('-').map(|p| p.to_string()).collect();
        assert_eq!(split_on(text, '-'), expected);
    }
}
