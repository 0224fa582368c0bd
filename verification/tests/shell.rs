use easytier_ssh::command::{CommandError, CommandResult};
use easytier_ssh::session::{
    exec_line, exec_output, prompt, write_text, DataStep, Next, SessionHandle, ShellLine, PTY_ECHO,
};

const PROMPT: &str = "\x1b[34mbluenet> \x1b[0m";

fn shell() -> SessionHandle {
    let mut s = SessionHandle::new();
    assert_eq!(s.shell_request(1), [PROMPT]);
    s
}

fn feed(s: &mut SessionHandle, input: &str) -> DataStep {
    s.data(1, input.as_bytes(), 0)
}

fn written(step: &DataStep) -> String {
    step.writes.concat()
}

fn run(s: &mut SessionHandle, input: &str) -> ShellLine {
    match feed(s, input).next {
        Next::Run(line) => line,
        _ => panic!("no line"),
    }
}

fn done(s: &mut SessionHandle, input: &str) {
    let line = run(s, input);
    s.finish_shell_line(&line, Ok(CommandResult::empty()));
}

#[test]
fn lines_are_run() {
    let mut s = shell();
    let step = feed(&mut s, "  status \r");
    assert_eq!(written(&step), "  status \r\n");
    assert_eq!(step.consumed, 10);
    match step.next {
        Next::Run(line) => assert_eq!(line.text(), "status"),
        _ => panic!("no line"),
    }
    assert_eq!(prompt(), PROMPT);
}

#[test]
fn reading_stops_at_the_end_of_a_line() {
    let mut s = shell();
    let input = b"help\r\nquit\n";
    let step = s.data(1, input, 0);
    assert_eq!(step.consumed, 5);
    assert!(matches!(step.next, Next::Run(_)));
    let step = s.data(1, input, step.consumed);
    assert_eq!(step.consumed, 11);
    match step.next {
        Next::Run(line) => assert_eq!(line.text(), "quit"),
        _ => panic!("no line"),
    }
}

#[test]
fn empty_lines_show_the_prompt() {
    let mut s = shell();
    let step = feed(&mut s, "   \r\n\n");
    assert_eq!(step.writes, [" ", " ", " ", "\r\n", PROMPT, "\r\n", PROMPT]);
    assert!(matches!(step.next, Next::Continue));
}

#[test]
fn line_feed_after_carriage_return_counts_once() {
    let mut s = shell();
    let step = feed(&mut s, "\r\n\r\n");
    assert_eq!(step.writes, ["\r\n", PROMPT, "\r\n", PROMPT]);
}

#[test]
fn other_channels_are_ignored() {
    let mut s = shell();
    let step = s.data(2, b"exit\r", 0);
    assert!(step.writes.is_empty());
    assert_eq!(step.consumed, 5);
    assert!(matches!(step.next, Next::Continue));
    let mut none = SessionHandle::new();
    assert!(none.data(1, b"x", 0).writes.is_empty());
}

#[test]
fn erasing_undoes_typing() {
    let mut s = shell();
    let step = feed(&mut s, "ab\u{7f}\u{8}\u{8}help\r");
    assert_eq!(written(&step), "ab\u{8} \u{8}\u{8} \u{8}help\r\n");
    match step.next {
        Next::Run(line) => assert_eq!(line.text(), "help"),
        _ => panic!("no line"),
    }
}

#[test]
fn echo_follows_the_terminal() {
    let mut s = SessionHandle::new();
    s.pty_request(&[(PTY_ECHO, 0), (1, 3)]);
    s.shell_request(1);
    assert_eq!(written(&feed(&mut s, "ab\u{8}")), "");
    assert_eq!(written(&feed(&mut s, "\r")), "\r\n");
    let mut s = SessionHandle::new();
    s.pty_request(&[(1, 3), (PTY_ECHO, 1)]);
    s.shell_request(1);
    assert_eq!(written(&feed(&mut s, "ab")), "ab");
    let mut s = SessionHandle::new();
    s.pty_request(&[]);
    s.shell_request(1);
    assert_eq!(written(&feed(&mut s, "ab")), "");
}

#[test]
fn control_characters() {
    let mut s = shell();
    let step = feed(&mut s, "junk\u{3}");
    assert_eq!(written(&step), format!("junk^C\r\n{PROMPT}"));
    let step = feed(&mut s, "x\u{4}\u{1}\u{e9}\t");
    assert_eq!(written(&step), "x");
    assert!(matches!(step.next, Next::Continue));
    let step = feed(&mut s, "\u{8}\u{4}exit\r");
    assert_eq!(written(&step), "\u{8} \u{8}\r\n");
    assert!(matches!(step.next, Next::Close));
    assert_eq!(step.consumed, 2);
    assert!(feed(&mut s, "a").writes.is_empty());
}

#[test]
fn escape_sequences_are_swallowed() {
    let mut s = shell();
    let step = feed(&mut s, "a\x1b[1;5C\x1bOP\x1b=\x1b[\u{1}b\x1b[D\r");
    match step.next {
        Next::Run(line) => assert_eq!(line.text(), "ab"),
        _ => panic!("no line"),
    }
}

#[test]
fn history_is_walked_with_the_arrows() {
    let mut s = shell();
    done(&mut s, "one\r");
    done(&mut s, "two\r");
    let step = feed(&mut s, "fresh\x1b[A");
    assert_eq!(written(&step), format!("fresh\r\x1b[K{PROMPT}two"));
    assert_eq!(written(&feed(&mut s, "\x1b[A")), format!("\r\x1b[K{PROMPT}one"));
    assert_eq!(written(&feed(&mut s, "\x1b[A")), "");
    assert_eq!(written(&feed(&mut s, "\x1b[B")), format!("\r\x1b[K{PROMPT}two"));
    assert_eq!(written(&feed(&mut s, "\x1b[B")), format!("\r\x1b[K{PROMPT}fresh"));
    assert_eq!(written(&feed(&mut s, "\x1b[B")), "");
    assert_eq!(run(&mut s, "\r").text(), "fresh");
}

#[test]
fn history_may_be_empty() {
    let mut s = shell();
    assert_eq!(written(&feed(&mut s, "\x1b[A\x1b[B")), "");
}

#[test]
fn history_entries_can_be_edited_and_run() {
    let mut s = shell();
    done(&mut s, "peer list\r");
    assert_eq!(run(&mut s, "\x1b[A\u{8}\u{8}\u{8}\u{8}ipv6\r").text(), "peer ipv6");
}

#[test]
fn history_keeps_successful_commands_once() {
    let mut s = shell();
    done(&mut s, "one\r");
    done(&mut s, "one\r");
    let line = run(&mut s, "wrong\r");
    let (writes, closed) =
        s.finish_shell_line(&line, Err(CommandError::new("unknown".to_string())));
    assert_eq!(writes, ["ERROR: unknown", "\r\n", PROMPT]);
    assert!(!closed);
    assert_eq!(written(&feed(&mut s, "\x1b[A")), format!("\r\x1b[K{PROMPT}one"));
    assert_eq!(written(&feed(&mut s, "\x1b[A")), "");
}

#[test]
fn failed_commands_end_the_navigation() {
    let mut s = shell();
    for line in ["one\r", "two\r", "three\r"] {
        done(&mut s, line);
    }
    feed(&mut s, "\x1b[A\x1b[A");
    let line = run(&mut s, "\r");
    assert_eq!(line.text(), "two");
    s.finish_shell_line(&line, Err(CommandError::new("failed".to_string())));
    assert_eq!(written(&feed(&mut s, "\x1b[A")), format!("\r\x1b[K{PROMPT}three"));
    assert_eq!(written(&feed(&mut s, "\x1b[B")), format!("\r\x1b[K{PROMPT}"));
}

#[test]
fn repeated_lines_leave_the_navigation() {
    for outcome in [true, false] {
        let mut s = shell();
        done(&mut s, "one\r");
        done(&mut s, "two\r");
        let line = run(&mut s, "\x1b[A\r");
        assert_eq!(line.text(), "two");
        let result = if outcome {
            Ok(CommandResult::empty())
        } else {
            Err(CommandError::new("failed".to_string()))
        };
        s.finish_shell_line(&line, result);
        assert_eq!(written(&feed(&mut s, "\x1b[A")), format!("\r\x1b[K{PROMPT}one"));
    }
}

#[test]
fn steps_through_the_history() {
    let mut s = shell();
    let mut out: Vec<String> = Vec::new();
    s.history_prev(&mut out);
    s.history_next(&mut out);
    assert!(out.is_empty());
    done(&mut s, "one\r");
    done(&mut s, "two\r");
    feed(&mut s, "fresh");
    for expected in ["two", "one"] {
        s.history_prev(&mut out);
        assert_eq!(out.pop().as_deref(), Some(expected));
    }
    out.clear();
    s.history_prev(&mut out);
    assert!(out.is_empty());
    for expected in ["two", "fresh"] {
        s.history_next(&mut out);
        assert_eq!(out.pop().as_deref(), Some(expected));
    }
    out.clear();
    s.history_next(&mut out);
    assert!(out.is_empty());
    assert_eq!(run(&mut s, "\r").text(), "fresh");
}

#[test]
fn history_ends_at_the_oldest_entry() {
    let mut s = shell();
    done(&mut s, "one\r");
    done(&mut s, "two\r");
    feed(&mut s, "\x1b[A\x1b[A");
    for _ in 0..3 {
        assert!(feed(&mut s, "\x1b[A").writes.is_empty());
    }
    assert_eq!(run(&mut s, "\r").text(), "one");
}

fn play(packets: &[&str]) -> (String, Vec<String>) {
    let mut s = shell();
    let mut out = String::new();
    let mut lines = Vec::new();
    for packet in packets {
        let data = packet.as_bytes();
        let mut from = 0;
        loop {
            let step = s.data(1, data, from);
            out += &step.writes.concat();
            from = step.consumed;
            match step.next {
                Next::Continue | Next::Close => break,
                Next::Run(line) => {
                    let outcome = match line.text() {
                        "exit" => Ok(CommandResult::exit()),
                        "bad" => Err(CommandError::new("bad".to_string())),
                        other => Ok(CommandResult::text(other.to_string())),
                    };
                    let (texts, closed) = s.finish_shell_line(&line, outcome);
                    out += &texts.concat();
                    lines.push(line.text().to_string());
                    if closed {
                        break;
                    }
                }
            }
        }
    }
    (out, lines)
}

#[test]
fn packets_may_be_cut_across_command_lines() {
    let input = "one\r\nbad\n\x1b[A two\rexit\rnever\r";
    let whole = play(&[input]);
    assert_eq!(whole.1, ["one", "bad", "one two", "exit"]);
    for cut in 0..=input.len() {
        assert_eq!(play(&[&input[..cut], &input[cut..]]), whole);
    }
}

#[test]
fn history_is_bounded() {
    let mut s = shell();
    for i in 0..501 {
        done(&mut s, &format!("c{i}\r"));
    }
    let mut last = String::new();
    for _ in 0..600 {
        let step = feed(&mut s, "\x1b[A");
        if !step.writes.is_empty() {
            last = step.writes[2].clone();
        }
    }
    assert_eq!(last, "c1");
}

#[test]
fn outcomes_are_printed() {
    let mut s = shell();
    let line = run(&mut s, "status\r");
    let result = CommandResult::text("a\nb\r\nc".to_string());
    let (writes, closed) = s.finish_shell_line(&line, Ok(result));
    assert_eq!(writes, ["a\r\nb\r\nc", "\r\n", PROMPT]);
    assert!(!closed);
    let line = run(&mut s, "exit\r");
    let (writes, closed) = s.finish_shell_line(&line, Ok(CommandResult::exit()));
    assert!(writes.is_empty() && closed);
    assert!(feed(&mut s, "a").writes.is_empty());
}

#[test]
fn terminal_text_has_no_bare_line_feed() {
    assert_eq!(write_text("x\n\ny\r\n"), ["x\r\n\r\ny\r\n", "\r\n"]);
    assert_eq!(write_text("x\ry"), ["x\ry", "\r\n"]);
    assert!(write_text("").is_empty());
    assert_eq!(write_text(&write_text("a\nb")[0]), write_text("a\nb"));
}

#[test]
fn exec_requests() {
    assert_eq!(exec_line(b"  peer list \n"), "peer list");
    assert_eq!(exec_line(b" caf\xc3\xa9 \xff "), "caf\u{e9} \u{fffd}");
    assert_eq!(exec_output(Ok(CommandResult::text("a\nb".to_string()))), ["a\r\nb", "\r\n"]);
    assert!(exec_output(Ok(CommandResult::exit())).is_empty());
    assert_eq!(
        exec_output(Err(CommandError::new("x".to_string()))),
        ["ERROR: x", "\r\n"]
    );
}

#[test]
fn input_may_arrive_in_pieces() {
    let mut s = shell();
    let mut out = String::new();
    for piece in ["he", "l", "", "p\x1b", "[", "A"] {
        out += &written(&feed(&mut s, piece));
    }
    let mut t = shell();
    assert_eq!(out, written(&feed(&mut t, "help\x1b[A")));
    assert_eq!(run(&mut s, "\r").text(), run(&mut t, "\r").text());
}
