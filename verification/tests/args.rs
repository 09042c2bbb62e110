use cmail::args::{period_ms, Args, Cmd, Source, USAGE};
use cmail::error::{ending, Ending, ErrorKind, IoError, RunError};
use cmail::passthru::Passthru;
use cmail::text::{quote, quote_first};
use docopt::{ArgvMap, Docopt};

fn strings(words: &[&str]) -> Vec<String> {
    words.iter().map(|w| w.to_string()).collect()
}

fn args(words: &[&str], silent: bool) -> Args {
    Args {
        arg_args: strings(words),
        flag_period: 900,
        flag_silent: silent,
        flag_send_all: false,
        flag_to: None,
    }
}

fn parse(argv: &[&str]) -> ArgvMap {
    Docopt::new(USAGE)
        .unwrap()
        .options_first(true)
        .argv(argv.iter().map(|a| a.to_string()))
        .parse()
        .unwrap()
}

#[test]
fn usage_defaults_to_fifteen_minutes() {
    let map = parse(&["cmail"]);
    assert_eq!(map.get_str("--period"), "900");
    assert!(!map.get_bool("--silent"));
    assert!(!map.get_bool("--send-all"));
    assert_eq!(map.get_str("--to"), "");
    assert!(map.get_vec("<args>").is_empty());
}

#[test]
fn usage_leaves_the_options_of_the_command_alone() {
    let map = parse(&["cmail", "-p", "10", "-s", "du", "-csh", "--to"]);
    assert_eq!(map.get_str("--period"), "10");
    assert!(map.get_bool("--silent"));
    assert_eq!(map.get_vec("<args>"), vec!["du", "-csh", "--to"]);
}

#[test]
fn no_words_mean_stdin() {
    let loud = args(&[], false);
    assert!(!loud.has_cmd());
    assert_eq!(loud.label(), "<stdin>");
    assert_eq!(loud.source(), Source::Stdin(Passthru::Stdout));
    assert_eq!(args(&[], true).source(), Source::Stdin(Passthru::No));
}

#[test]
fn words_are_joined_by_single_spaces() {
    let du = args(&["du", "-csh", "a b", ""], false);
    assert!(du.has_cmd());
    assert_eq!(du.label(), "du -csh a b ");
    assert_eq!(
        du.source(),
        Source::Command(Cmd {
            script: "du -csh 'a b' ''".to_string(),
            stdout: Passthru::Stdout,
            stderr: Passthru::Stderr,
        })
    );
}

#[test]
fn a_single_word_is_the_script() {
    let run = Cmd::run(&strings(&["ls"]), false);
    assert_eq!(run.script, "ls");
    assert_eq!(run.stdout, Passthru::No);
    assert_eq!(run.stderr, Passthru::No);
}

#[test]
fn an_empty_word_is_still_a_command() {
    let empty = args(&[""], false);
    assert!(empty.has_cmd());
    assert_eq!(empty.label(), "");
}

#[test]
fn periods_in_milliseconds() {
    assert_eq!(period_ms(0), 0);
    assert_eq!(period_ms(900), 900_000);
    assert_eq!(period_ms(4_294_967), 4_294_967_000);
    assert_eq!(period_ms(4_294_968), 4_294_968_000);
    assert_eq!(period_ms(u32::MAX), 4_294_967_295_000);
}

#[test]
fn a_completed_run_ends_quietly() {
    assert_eq!(ending(Ok(0)), Ending { code: 0, complaint: None });
    assert_eq!(ending(Ok(1)), Ending { code: 1, complaint: None });
}

#[test]
fn an_error_is_reported_with_exit_code_one() {
    let failed = IoError { kind: ErrorKind::Other, message: "no such file".to_string() };
    assert_eq!(
        ending(Err(RunError::Io(failed))),
        Ending { code: 1, complaint: Some("ERROR: no such file".to_string()) }
    );
    assert_eq!(
        ending(Err(RunError::NoAddress)).complaint.unwrap(),
        "ERROR: Please specify an email address with --to or by setting the EMAIL environment \
         variable."
    );
}

#[test]
fn a_silent_command_shows_nothing() {
    match args(&["du"], true).source() {
        Source::Command(cmd) => {
            assert_eq!(cmd.stdout.wtr(), None);
            assert_eq!(cmd.stderr.wtr(), None);
        }
        Source::Stdin(_) => panic!("a command was given"),
    }
}

#[test]
fn words_are_quoted_where_they_have_to_be() {
    assert_eq!(quote("az-AZ_0.9/"), "az-AZ_0.9/");
    assert_eq!(quote(""), "''");
    assert_eq!(quote("a  b"), "'a  b'");
    assert_eq!(quote("*"), "'*'");
    assert_eq!(quote("it's"), "'it'\\''s'");
    assert_eq!(quote("'"), "''\\'''");
    assert_eq!(quote("\\\n"), "'\\\n'");
    assert_eq!(quote("h\u{e9}"), "'h\u{e9}'");
}

#[test]
fn each_item_is_a_single_argument() {
    assert_eq!(Cmd::run(&strings(&["echo", "a  b"]), false).script, "echo 'a  b'");
    assert_eq!(Cmd::run(&strings(&["echo", "a", "b"]), false).script, "echo a b");
    assert_eq!(Cmd::run(&strings(&["sh", "-c", "ls | wc"]), false).script, "sh -c 'ls | wc'");
    assert_eq!(args(&["echo", "a  b"], false).label(), "echo a  b");
}

#[test]
fn plain_words_are_run_as_they_are_called() {
    let du = args(&["du", "-csh", "src/lib.rs"], false);
    assert_eq!(Cmd::run(&du.arg_args, true).script, du.label());
}

#[test]
fn the_first_word_names_the_command() {
    assert_eq!(Cmd::run(&strings(&["if", "x"]), false).script, "'if' x");
    assert_eq!(Cmd::run(&strings(&["-x"]), false).script, "'-x'");
    assert_eq!(Cmd::run(&strings(&["echo", "if", "-x"]), false).script, "echo if -x");
    assert_eq!(Cmd::run(&strings(&["iffy"]), false).script, "iffy");
    assert_eq!(quote_first(""), "''");
    assert_eq!(quote_first("A=1"), "'A=1'");
    let reserved = [
        "case", "coproc", "do", "done", "elif", "else", "esac", "fi", "for", "function", "if",
        "in", "namespace", "select", "then", "time", "until", "while",
    ];
    for word in reserved {
        assert_eq!(quote_first(word), format!("'{}'", word));
        assert_eq!(quote(word), word);
    }
}
