//! The line editor of an interactive SSH shell: input bytes in, terminal
//! output and completed command lines out.
use vstd::prelude::*;
use vstd::slice::*;
use vstd::string::*;
use vstd::utf8::{encode_utf8, is_ascii_chars, is_ascii_chars_encode_utf8};
use crate::command::{CommandError, CommandResult};
use crate::text::{
    ascii_chars, ascii_text, cat, from_utf8_lossy, normalize_newlines, terminal_text, texts, trim,
    trimmed,
};

verus! {

/// The number of history entries that a session keeps.
pub const MAX_HISTORY: usize = 500;

/// The opcode of the terminal mode that asks the server to echo input.
pub const PTY_ECHO: u8 = 53;

/// Progress inside an escape sequence.
#[derive(Clone, Copy, PartialEq, Eq, Structural)]
pub enum EscState {
    /// ESC has been read; the next byte tells the kind of sequence.
    ExpectType,
    /// `ESC [` has been read; parameters follow, then a final byte.
    Csi,
    /// `ESC O` has been read; one byte follows.
    Ss3,
    /// One more byte of some other sequence follows.
    EscOther,
}

/// The state of a session.
pub struct SessionHandle {
    buf: Vec<u8>,
    shell_channel: Option<u32>,
    last_was_cr: bool,
    history: Vec<String>,
    history_index: Option<usize>,
    saved_buf: Vec<u8>,
    esc_state: Option<EscState>,
    pty_allocated: bool,
    pty_echo: bool,
}

/// The contents of a `SessionHandle`.
pub struct SessionView {
    /// The input line.
    pub buf: Seq<u8>,
    /// The channel that the shell runs on.
    pub shell_channel: Option<u32>,
    /// Whether the last byte was a carriage return.
    pub last_was_cr: bool,
    /// The command history, most recent command last.
    pub history: Seq<Seq<char>>,
    /// Where the navigation in the history stands; none means at the fresh line.
    pub history_index: Option<usize>,
    /// The fresh line, kept while a history entry is shown.
    pub saved_buf: Seq<u8>,
    /// Progress inside an escape sequence; none outside.
    pub esc_state: Option<EscState>,
    /// Whether the client asked for a terminal.
    pub pty_allocated: bool,
    /// Whether the client asked the server to echo input.
    pub pty_echo: bool,
}

impl View for SessionHandle {
    type V = SessionView;

    closed spec fn view(&self) -> SessionView {
        SessionView {
            buf: self.buf@,
            shell_channel: self.shell_channel,
            last_was_cr: self.last_was_cr,
            history: texts(self.history@),
            history_index: self.history_index,
            saved_buf: self.saved_buf@,
            esc_state: self.esc_state,
            pty_allocated: self.pty_allocated,
            pty_echo: self.pty_echo,
        }
    }
}

/// Bytes that the editor accepts into a line: ASCII from space to tilde.
pub open spec fn printable(b: u8) -> bool {
    0x20 <= b <= 0x7e
}

/// A line that the editor can hold.
pub open spec fn printable_bytes(s: Seq<u8>) -> bool {
    forall|i: int| 0 <= i < s.len() ==> printable(#[trigger] s[i])
}

/// Text that the editor can hold.
pub open spec fn printable_text(s: Seq<char>) -> bool {
    forall|i: int| 0 <= i < s.len() ==> ' ' <= #[trigger] s[i] <= '~'
}

/// A command line that can be run: printable and not empty.
pub open spec fn is_shell_line(s: Seq<char>) -> bool {
    s.len() > 0 && printable_text(s)
}

impl SessionView {
    /// What every session keeps: lines are printable, the history holds
    /// command lines, is bounded and has no two equal neighbours, and the
    /// entry that is shown exists.
    pub open spec fn wf(self) -> bool {
        &&& printable_bytes(self.buf)
        &&& printable_bytes(self.saved_buf)
        &&& self.history.len() <= MAX_HISTORY
        &&& forall|i: int|
            0 <= i < self.history.len() ==> is_shell_line(#[trigger] self.history[i])
        &&& forall|i: int, j: int|
            0 <= i && j == i + 1 && j < self.history.len() ==> #[trigger] self.history[i]
                != #[trigger] self.history[j]
        &&& self.history_index matches Some(i) ==> i < self.history.len()
    }

    /// Whether typed characters are echoed: always without a terminal, and
    /// with one where the client asked for it.
    pub open spec fn should_echo(self) -> bool {
        !self.pty_allocated || self.pty_echo
    }
}

/// The prompt.
pub open spec fn prompt_text() -> Seq<char> {
    "\x1b[34mbluenet> \x1b[0m"@
}

/// What redrawing a line writes: erase the line, the prompt, the input.
pub open spec fn redrawn(buf: Seq<u8>) -> Seq<Seq<char>> {
    let head = seq!["\r\x1b[K"@, prompt_text()];
    if buf.len() > 0 {
        head.push(ascii_chars(buf))
    } else {
        head
    }
}

/// What printing a text writes: the text with terminal line endings and a line
/// ending; nothing for the empty text.
pub open spec fn printed(text: Seq<char>) -> Seq<Seq<char>> {
    if text.len() == 0 {
        Seq::empty()
    } else {
        seq![terminal_text(text), "\r\n"@]
    }
}

/// The session with history entry `i` on the line.
pub open spec fn showing(s: SessionView, i: int) -> SessionView {
    SessionView { history_index: Some(i as usize), buf: encode_utf8(s.history[i]), ..s }
}

/// The session after the up arrow.
pub open spec fn after_up(s: SessionView) -> SessionView {
    if s.history.len() == 0 {
        s
    } else {
        match s.history_index {
            None => showing(SessionView { saved_buf: s.buf, ..s }, s.history.len() - 1),
            Some(i) => if i == 0 {
                s
            } else {
                showing(s, i - 1)
            },
        }
    }
}

/// Whether the up arrow redraws the line.
pub open spec fn up_redraws(s: SessionView) -> bool {
    s.history.len() > 0 && s.history_index != Some(0usize)
}

/// Whether the down arrow redraws the line.
pub open spec fn down_redraws(s: SessionView) -> bool {
    s.history_index is Some
}

/// The session after the down arrow.
pub open spec fn after_down(s: SessionView) -> SessionView {
    match s.history_index {
        None => s,
        Some(i) => if i + 1 >= s.history.len() {
            SessionView { history_index: None, buf: s.saved_buf, saved_buf: Seq::empty(), ..s }
        } else {
            showing(s, i + 1)
        },
    }
}

/// The history with a command added; the oldest entry goes when there are too
/// many.
pub open spec fn remembered(history: Seq<Seq<char>>, line: Seq<char>) -> Seq<Seq<char>> {
    if history.len() + 1 > MAX_HISTORY {
        history.push(line).drop_first()
    } else {
        history.push(line)
    }
}

/// The line is the last history entry.
pub open spec fn repeats_last(s: SessionView, line: Seq<char>) -> bool {
    s.history.len() > 0 && s.history.last() == line
}

/// The session with a command added to its history, which ends the navigation
/// in the history. A command that repeats the last one changes nothing.
pub open spec fn with_history(s: SessionView, line: Seq<char>) -> SessionView {
    if repeats_last(s, line) {
        s
    } else {
        SessionView {
            history: remembered(s.history, line),
            history_index: None,
            saved_buf: Seq::empty(),
            ..s
        }
    }
}

/// The session with the navigation in its history ended.
pub open spec fn at_fresh_line(s: SessionView) -> SessionView {
    SessionView { history_index: None, saved_buf: Seq::empty(), ..s }
}

/// The outcome of a command line: its output, with whether it ends the shell, or
/// the message of an error.
pub enum OutcomeView {
    Success { output: Seq<char>, should_exit: bool },
    Failure(Seq<char>),
}

/// The outcome of a command line, by contents.
pub open spec fn outcome_view(outcome: Result<CommandResult, CommandError>) -> OutcomeView {
    match outcome {
        Ok(c) => OutcomeView::Success { output: c.output@, should_exit: c.should_exit },
        Err(e) => OutcomeView::Failure(e@),
    }
}

/// A command line came to an outcome that ends the shell.
pub open spec fn ends_shell(outcome: OutcomeView) -> bool {
    outcome matches OutcomeView::Success { output: _, should_exit } && should_exit
}

/// The session after the outcome of a command line. The history keeps lines that
/// were executed with success; a line that failed ends the navigation alone. A
/// line that repeats the last history entry does neither.
pub open spec fn after_outcome(
    s: SessionView,
    line: Seq<char>,
    outcome: OutcomeView,
) -> SessionView {
    match outcome {
        OutcomeView::Success { output: _, should_exit } => if should_exit {
            SessionView { shell_channel: None, ..with_history(s, line) }
        } else {
            with_history(s, line)
        },
        OutcomeView::Failure(_) => if repeats_last(s, line) {
            s
        } else {
            at_fresh_line(s)
        },
    }
}

/// What is written about the outcome of a command line. A prompt follows unless
/// the shell ends.
pub open spec fn outcome_writes(outcome: OutcomeView) -> Seq<Seq<char>> {
    match outcome {
        OutcomeView::Success { output, should_exit } => if should_exit {
            printed(output)
        } else {
            printed(output).push(prompt_text())
        },
        OutcomeView::Failure(message) => printed("ERROR: "@ + message).push(prompt_text()),
    }
}

/// What follows a byte of input.
pub enum NextView {
    Continue,
    Run(Seq<char>),
    Close,
}

/// The session, what it writes, and what follows, after the line is complete.
/// A line of spaces gives a new prompt; any other is to be run.
pub open spec fn entered(s: SessionView) -> (SessionView, Seq<Seq<char>>, NextView) {
    let line = trimmed(ascii_chars(s.buf));
    let t = SessionView { buf: Seq::empty(), ..s };
    if line.len() == 0 {
        (t, seq!["\r\n"@, prompt_text()], NextView::Continue)
    } else {
        (t, seq!["\r\n"@], NextView::Run(line))
    }
}

/// The session after a byte that belongs to an escape sequence, and what it
/// writes.
pub open spec fn escaped(s: SessionView, e: EscState, byte: u8) -> (SessionView, Seq<Seq<char>>) {
    let t = SessionView { esc_state: None, ..s };
    match e {
        EscState::ExpectType => if byte == 0x5b {
            (SessionView { esc_state: Some(EscState::Csi), ..s }, Seq::empty())
        } else if byte == 0x4f {
            (SessionView { esc_state: Some(EscState::Ss3), ..s }, Seq::empty())
        } else {
            (t, Seq::empty())
        },
        EscState::Csi => if 0x20 <= byte <= 0x3f {
            (SessionView { esc_state: Some(EscState::Csi), ..s }, Seq::empty())
        } else if byte == 0x41 {
            (
                after_up(t),
                if up_redraws(t) {
                    redrawn(after_up(t).buf)
                } else {
                    Seq::empty()
                },
            )
        } else if byte == 0x42 {
            (
                after_down(t),
                if down_redraws(t) {
                    redrawn(after_down(t).buf)
                } else {
                    Seq::empty()
                },
            )
        } else {
            (t, Seq::empty())
        },
        EscState::Ss3 => (t, Seq::empty()),
        EscState::EscOther => (t, Seq::empty()),
    }
}

/// The session, what it writes, and what follows, after a byte of input.
pub open spec fn typed(s: SessionView, byte: u8) -> (SessionView, Seq<Seq<char>>, NextView) {
    let plain = SessionView { last_was_cr: false, ..s };
    match s.esc_state {
        Some(e) => (escaped(s, e, byte).0, escaped(s, e, byte).1, NextView::Continue),
        None => if byte == 0x0d {
            entered(SessionView { last_was_cr: true, ..s })
        } else if byte == 0x0a {
            if s.last_was_cr {
                (plain, Seq::empty(), NextView::Continue)
            } else {
                entered(s)
            }
        } else if byte == 0x08 || byte == 0x7f {
            if s.buf.len() > 0 {
                (
                    SessionView { buf: s.buf.drop_last(), ..plain },
                    if s.should_echo() {
                        seq!["\u{8} \u{8}"@]
                    } else {
                        Seq::empty()
                    },
                    NextView::Continue,
                )
            } else {
                (plain, Seq::empty(), NextView::Continue)
            }
        } else if byte == 0x1b {
            (
                SessionView { esc_state: Some(EscState::ExpectType), ..s },
                Seq::empty(),
                NextView::Continue,
            )
        } else if byte == 0x03 {
            (
                SessionView { buf: Seq::empty(), saved_buf: Seq::empty(), ..plain },
                seq!["^C\r\n"@, prompt_text()],
                NextView::Continue,
            )
        } else if byte == 0x04 {
            if s.buf.len() == 0 {
                (SessionView { shell_channel: None, ..plain }, seq!["\r\n"@], NextView::Close)
            } else {
                (plain, Seq::empty(), NextView::Continue)
            }
        } else if printable(byte) {
            (
                SessionView { buf: s.buf.push(byte), ..plain },
                if s.should_echo() {
                    seq![seq![byte as char]]
                } else {
                    Seq::empty()
                },
                NextView::Continue,
            )
        } else {
            (plain, Seq::empty(), NextView::Continue)
        },
    }
}

/// What reading input came to.
pub struct FedView {
    /// The session afterwards.
    pub session: SessionView,
    /// What it wrote, in order.
    pub writes: Seq<Seq<char>>,
    /// How many bytes it read.
    pub consumed: nat,
    /// What follows.
    pub next: NextView,
}

/// Reading bytes of input until one completes a command line, closes the shell
/// or there are no more.
pub open spec fn fed(s: SessionView, bytes: Seq<u8>) -> FedView
    decreases bytes.len(),
{
    if bytes.len() == 0 {
        FedView { session: s, writes: Seq::empty(), consumed: 0, next: NextView::Continue }
    } else {
        let (t, writes, next) = typed(s, bytes[0]);
        if next is Continue {
            let rest = fed(t, bytes.drop_first());
            FedView {
                session: rest.session,
                writes: writes + rest.writes,
                consumed: 1 + rest.consumed,
                next: rest.next,
            }
        } else {
            FedView { session: t, writes, consumed: 1, next }
        }
    }
}

/// A command line to be run.
pub struct ShellLine {
    text: String,
}

impl View for ShellLine {
    type V = Seq<char>;

    closed spec fn view(&self) -> Seq<char> {
        self.text@
    }
}

impl ShellLine {
    #[verifier::type_invariant]
    spec fn inv(self) -> bool {
        is_shell_line(self.text@)
    }

    /// The text of the line.
    pub fn text(&self) -> (r: &str)
        ensures
            r@ == self@,
            is_shell_line(r@),
    {
        proof {
            use_type_invariant(&*self);
        }
        self.text.as_str()
    }
}

/// What follows input.
pub enum Next {
    /// More input.
    Continue,
    /// Run a command line, report its outcome, then read on.
    Run(ShellLine),
    /// Close the shell with exit status zero.
    Close,
}

impl View for Next {
    type V = NextView;

    open spec fn view(&self) -> NextView {
        match *self {
            Next::Continue => NextView::Continue,
            Next::Run(line) => NextView::Run(line@),
            Next::Close => NextView::Close,
        }
    }
}

/// What reading input came to.
pub struct DataStep {
    /// What to write, in order.
    pub writes: Vec<String>,
    /// The index of the first byte that has not been read.
    pub consumed: usize,
    /// What follows.
    pub next: Next,
}

/// The prompt.
pub fn prompt() -> (r: String)
    ensures
        r@ == prompt_text(),
{
    "\x1b[34mbluenet> \x1b[0m".to_owned()
}

fn write(out: &mut Vec<String>, text: &str)
    ensures
        texts(final(out)@) == texts(old(out)@).push(text@),
{
    out.push(text.to_owned());
    assert(texts(out@) =~= texts(old(out)@).push(text@));
}

/// What to write in order to print a text: terminals need `\r\n` at the end of
/// each line.
pub fn write_text(text: &str) -> (r: Vec<String>)
    ensures
        texts(r@) == printed(text@),
{
    let mut out: Vec<String> = Vec::new();
    if !text.is_empty() {
        let body = normalize_newlines(text);
        write(&mut out, body.as_str());
        write(&mut out, "\r\n");
    }
    assert(texts(out@) =~= printed(text@));
    out
}

proof fn trim_keeps_printable(s: Seq<char>)
    requires
        printable_text(s),
    ensures
        printable_text(trimmed(s)),
{
    trim_start_keeps_printable(s);
    trim_end_keeps_printable(crate::text::trim_start(s));
}

proof fn trim_start_keeps_printable(s: Seq<char>)
    requires
        printable_text(s),
    ensures
        printable_text(crate::text::trim_start(s)),
    decreases s.len(),
{
    if s.len() > 0 && crate::text::white_space(s[0]) {
        trim_start_keeps_printable(s.drop_first());
    }
}

proof fn trim_end_keeps_printable(s: Seq<char>)
    requires
        printable_text(s),
    ensures
        printable_text(crate::text::trim_end(s)),
    decreases s.len(),
{
    if s.len() > 0 && crate::text::white_space(s.last()) {
        trim_end_keeps_printable(s.drop_last());
    }
}

/// Printable text and its bytes hold the same characters.
proof fn printable_encodes(s: Seq<char>)
    requires
        printable_text(s),
    ensures
        printable_bytes(encode_utf8(s)),
        ascii_chars(encode_utf8(s)) == s,
        encode_utf8(s).len() == s.len(),
{
    assert(is_ascii_chars(s));
    is_ascii_chars_encode_utf8(s);
    let b = encode_utf8(s);
    assert forall|i: int| 0 <= i < b.len() implies printable(#[trigger] b[i]) by {
        assert(b[i] == s[i] as u8);
    }
    assert forall|i: int| 0 <= i < s.len() implies #[trigger] ascii_chars(b)[i] == s[i] by {
        assert(b[i] == s[i] as u8);
    }
    assert(ascii_chars(b) =~= s);
}

/// The modes of a terminal ask for an echo: one of them is that of the echo, and
/// is not zero.
pub open spec fn asks_for_echo(modes: Seq<(u8, u32)>) -> bool {
    exists|i: int| 0 <= i < modes.len() && (#[trigger] modes[i]).0 == PTY_ECHO && modes[i].1 != 0
}

/// The session with a terminal of the given modes.
pub open spec fn with_terminal(s: SessionView, modes: Seq<(u8, u32)>) -> SessionView {
    SessionView { pty_allocated: true, pty_echo: asks_for_echo(modes), ..s }
}

impl SessionHandle {
    /// A session without input, history or shell.
    pub fn new() -> (r: Self)
        ensures
            r@ == (SessionView {
                buf: Seq::empty(),
                shell_channel: None,
                last_was_cr: false,
                history: Seq::empty(),
                history_index: None,
                saved_buf: Seq::empty(),
                esc_state: None,
                pty_allocated: false,
                pty_echo: false,
            }),
            r@.wf(),
    {
        let r = Self {
            buf: Vec::new(),
            shell_channel: None,
            last_was_cr: false,
            history: Vec::new(),
            history_index: None,
            saved_buf: Vec::new(),
            esc_state: None,
            pty_allocated: false,
            pty_echo: false,
        };
        assert(r@.history =~= Seq::empty());
        r
    }

    /// Writes what redrawing the line takes.
    fn redraw_line(&self, out: &mut Vec<String>)
        ensures
            texts(final(out)@) == texts(old(out)@) + redrawn(self@.buf),
    {
        write(out, "\r\x1b[K");
        let p = prompt();
        write(out, p.as_str());
        if self.buf.len() > 0 {
            let text = ascii_text(self.buf.as_slice());
            write(out, text.as_str());
        }
        assert(texts(out@) =~= texts(old(out)@) + redrawn(self@.buf));
    }

    /// Puts a history entry on the line.
    fn show(&mut self, i: usize)
        requires
            old(self)@.wf(),
            i < old(self)@.history.len(),
        ensures
            final(self)@ == showing(old(self)@, i as int),
            final(self)@.wf(),
    {
        let ghost before = self@;
        self.history_index = Some(i);
        self.buf = slice_to_vec(self.history[i].as_str().as_bytes());
        proof {
            assert(self@.history =~= before.history);
            assert(self.history@[i as int]@ == before.history[i as int]);
            printable_encodes(before.history[i as int]);
        }
    }

    /// Goes to the previous history entry (up arrow).
    pub fn history_prev(&mut self, out: &mut Vec<String>)
        requires
            old(self)@.wf(),
        ensures
            final(self)@ == after_up(old(self)@),
            final(self)@.wf(),
            texts(final(out)@) == texts(old(out)@) + (if up_redraws(old(self)@) {
                redrawn(after_up(old(self)@).buf)
            } else {
                Seq::empty()
            }),
    {
        let ghost before = texts(out@);
        assert(before + Seq::<Seq<char>>::empty() =~= before);
        if self.history.len() == 0 {
            return;
        }
        match self.history_index {
            None => {
                self.saved_buf = self.buf.clone();
                assert(self.saved_buf@ =~= self.buf@);
                assert(self@.history =~= old(self)@.history);
                let idx: usize = self.history.len() - 1;
                self.show(idx);
            },
            Some(idx) => {
                if idx == 0 {
                    return;
                }
                self.show(idx - 1);
            },
        }
        self.redraw_line(out);
    }

    /// Goes to the next history entry (down arrow).
    pub fn history_next(&mut self, out: &mut Vec<String>)
        requires
            old(self)@.wf(),
        ensures
            final(self)@ == after_down(old(self)@),
            final(self)@.wf(),
            texts(final(out)@) == texts(old(out)@) + (if down_redraws(old(self)@) {
                redrawn(after_down(old(self)@).buf)
            } else {
                Seq::empty()
            }),
    {
        let ghost before = texts(out@);
        assert(before + Seq::<Seq<char>>::empty() =~= before);
        match self.history_index {
            None => {
                return;
            },
            Some(idx) => {
                if self.history.len() - idx <= 1 {
                    self.history_index = None;
                    self.buf = self.saved_buf.clone();
                    assert(self.buf@ =~= self.saved_buf@);
                    self.saved_buf.clear();
                    assert(self@.history =~= old(self)@.history);
                } else {
                    self.show(idx + 1);
                }
            },
        }
        self.redraw_line(out);
    }

    /// Whether the line is the last history entry.
    fn repeats(&self, line: &ShellLine) -> (r: bool)
        ensures
            r == repeats_last(self@, line@),
    {
        let n = self.history.len();
        n > 0 && crate::text::str_eq(self.history[n - 1].as_str(), line.text.as_str())
    }

    /// Adds a successfully executed command line to the history.
    pub fn push_history(&mut self, line: &ShellLine)
        requires
            old(self)@.wf(),
        ensures
            final(self)@ == with_history(old(self)@, line@),
            final(self)@.wf(),
    {
        proof {
            use_type_invariant(line);
        }
        let ghost before = self@;
        if self.repeats(line) {
            return;
        }
        self.history.push(line.text.clone());
        assert(self@.history =~= before.history.push(line@));
        if self.history.len() > MAX_HISTORY {
            self.history.remove(0);
        }
        assert(self@.history =~= remembered(before.history, line@));
        self.history_index = None;
        self.saved_buf.clear();
        proof {
            let h = self@.history;
            let longer = before.history.push(line@);
            let d: int = if before.history.len() + 1 > MAX_HISTORY {
                1
            } else {
                0
            };
            assert(forall|i: int| 0 <= i < h.len() ==> #[trigger] h[i] == longer[i + d]);
            assert forall|i: int, j: int| 0 <= i && j == i + 1 && j < h.len() implies #[trigger] h[i]
                != #[trigger] h[j] by {
                assert(h[i] == longer[i + d] && h[j] == longer[j + d]);
                if j + d < before.history.len() {
                    assert(before.history[i + d] != before.history[j + d]);
                }
            }
        }
    }

    /// Takes the completed line and starts a fresh one.
    fn enter(&mut self, out: &mut Vec<String>) -> (next: Next)
        requires
            old(self)@.wf(),
        ensures
            final(self)@ == entered(old(self)@).0,
            final(self)@.wf(),
            texts(final(out)@) == texts(old(out)@) + entered(old(self)@).1,
            next@ == entered(old(self)@).2,
    {
        let ghost before = self@;
        let ghost written = texts(out@);
        write(out, "\r\n");
        let line = ascii_text(self.buf.as_slice());
        self.buf.clear();
        assert(self.buf@ =~= Seq::empty());
        assert(self@.history =~= before.history);
        let text = trim(line.as_str());
        proof {
            assert(printable_text(line@)) by {
                assert forall|i: int| 0 <= i < line@.len() implies ' ' <= #[trigger] line@[i]
                    <= '~' by {
                    assert(printable(before.buf[i]));
                }
            }
            trim_keeps_printable(line@);
        }
        if text.as_str().is_empty() {
            let p = prompt();
            write(out, p.as_str());
            assert(texts(out@) =~= written + entered(before).1);
            Next::Continue
        } else {
            assert(texts(out@) =~= written + entered(before).1);
            Next::Run(ShellLine { text })
        }
    }

    /// Reads a byte of an escape sequence.
    fn escape_byte(&mut self, e: EscState, byte: u8, out: &mut Vec<String>)
        requires
            old(self)@.wf(),
        ensures
            final(self)@ == escaped(old(self)@, e, byte).0,
            final(self)@.wf(),
            texts(final(out)@) == texts(old(out)@) + escaped(old(self)@, e, byte).1,
    {
        let ghost written = texts(out@);
        assert(written + Seq::<Seq<char>>::empty() =~= written);
        self.esc_state = None;
        assert(self@.history =~= old(self)@.history);
        match e {
            EscState::ExpectType => {
                if byte == 0x5b {
                    self.esc_state = Some(EscState::Csi);
                } else if byte == 0x4f {
                    self.esc_state = Some(EscState::Ss3);
                }
            },
            EscState::Csi => {
                if 0x20 <= byte && byte <= 0x3f {
                    self.esc_state = Some(EscState::Csi);
                } else if byte == 0x41 {
                    self.history_prev(out);
                } else if byte == 0x42 {
                    self.history_next(out);
                }
            },
            EscState::Ss3 => {},
            EscState::EscOther => {},
        }
    }

    /// Reads one byte of input.
    fn input_byte(&mut self, byte: u8, out: &mut Vec<String>) -> (next: Next)
        requires
            old(self)@.wf(),
        ensures
            final(self)@ == typed(old(self)@, byte).0,
            final(self)@.wf(),
            texts(final(out)@) == texts(old(out)@) + typed(old(self)@, byte).1,
            next@ == typed(old(self)@, byte).2,
    {
        let ghost before = self@;
        let ghost written = texts(out@);
        assert(written + Seq::<Seq<char>>::empty() =~= written);
        match self.esc_state {
            Some(e) => {
                self.escape_byte(e, byte, out);
                return Next::Continue;
            },
            None => {},
        }
        if byte == 0x0d {
            self.last_was_cr = true;
            assert(self@ == (SessionView { last_was_cr: true, ..before }));
            self.enter(out)
        } else if byte == 0x0a {
            if self.last_was_cr {
                self.last_was_cr = false;
                Next::Continue
            } else {
                self.enter(out)
            }
        } else if byte == 0x08 || byte == 0x7f {
            self.last_was_cr = false;
            if self.buf.len() > 0 {
                let _ = self.buf.pop();
                assert(self.buf@ =~= before.buf.drop_last());
                if !self.pty_allocated || self.pty_echo {
                    write(out, "\u{8} \u{8}");
                    assert(texts(out@) =~= written + seq!["\u{8} \u{8}"@]);
                }
            }
            Next::Continue
        } else if byte == 0x1b {
            self.esc_state = Some(EscState::ExpectType);
            Next::Continue
        } else if byte == 0x03 {
            self.last_was_cr = false;
            self.buf.clear();
            self.saved_buf.clear();
            assert(self.buf@ =~= Seq::empty());
            assert(self.saved_buf@ =~= Seq::empty());
            write(out, "^C\r\n");
            let p = prompt();
            write(out, p.as_str());
            assert(texts(out@) =~= written + seq!["^C\r\n"@, prompt_text()]);
            Next::Continue
        } else if byte == 0x04 {
            self.last_was_cr = false;
            if self.buf.len() == 0 {
                write(out, "\r\n");
                assert(texts(out@) =~= written + seq!["\r\n"@]);
                self.shell_channel = None;
                Next::Close
            } else {
                Next::Continue
            }
        } else {
            self.last_was_cr = false;
            if 0x20 <= byte && byte <= 0x7e {
                self.buf.push(byte);
                if !self.pty_allocated || self.pty_echo {
                    let mut ch = String::new();
                    ch.push(byte as char);
                    assert(ch@ =~= seq![byte as char]);
                    write(out, ch.as_str());
                    assert(texts(out@) =~= written + seq![seq![byte as char]]);
                }
            }
            Next::Continue
        }
    }

    /// Reads input for the shell from `data[from..]` until a command line is
    /// complete, the shell closes or there is no more. Input on another channel
    /// than that of the shell is dropped.
    pub fn data(&mut self, channel: u32, data: &[u8], from: usize) -> (r: DataStep)
        requires
            old(self)@.wf(),
            from <= data@.len(),
        ensures
            final(self)@.wf(),
            old(self)@.shell_channel != Some(channel) ==> {
                &&& final(self)@ == old(self)@
                &&& r.writes@.len() == 0
                &&& r.consumed == data@.len()
                &&& r.next is Continue
            },
            old(self)@.shell_channel == Some(channel) ==> {
                let f = fed(old(self)@, data@.skip(from as int));
                &&& final(self)@ == f.session
                &&& texts(r.writes@) == f.writes
                &&& r.consumed == from + f.consumed
                &&& r.consumed <= data@.len()
                &&& r.next@ == f.next
            },
    {
        let mut writes: Vec<String> = Vec::new();
        let open = match self.shell_channel {
            Some(c) => c == channel,
            None => false,
        };
        if !open {
            return DataStep { writes, consumed: data.len(), next: Next::Continue };
        }
        let ghost all = fed(self@, data@.skip(from as int));
        let mut i: usize = from;
        proof {
            assert(texts(writes@) =~= Seq::empty());
            assert(texts(writes@) + all.writes =~= all.writes);
        }
        while i < data.len()
            invariant
                from <= i <= data@.len(),
                old(self)@.shell_channel == Some(channel),
                all == fed(old(self)@, data@.skip(from as int)),
                self@.wf(),
                ({
                    let rest = fed(self@, data@.skip(i as int));
                    &&& all.session == rest.session
                    &&& all.writes == texts(writes@) + rest.writes
                    &&& from + all.consumed == i + rest.consumed
                    &&& all.next == rest.next
                }),
            decreases data@.len() - i,
        {
            let ghost here = self@;
            let ghost rest = data@.skip(i as int);
            let ghost before = texts(writes@);
            assert(rest[0] == data@[i as int]);
            assert(rest.drop_first() =~= data@.skip(i + 1));
            let next = self.input_byte(data[i], &mut writes);
            i = i + 1;
            let ghost w = typed(here, rest[0]).1;
            match next {
                Next::Continue => {
                    proof {
                        let tail = fed(self@, data@.skip(i as int));
                        assert(fed(here, rest).writes == w + tail.writes);
                        assert(before + (w + tail.writes) =~= texts(writes@) + tail.writes);
                    }
                },
                other => {
                    assert(fed(here, rest).consumed == 1);
                    return DataStep { writes, consumed: i, next: other };
                },
            }
        }
        proof {
            assert(data@.skip(i as int) =~= Seq::empty());
            assert(texts(writes@) + Seq::<Seq<char>>::empty() =~= texts(writes@));
        }
        DataStep { writes, consumed: i, next: Next::Continue }
    }

    /// Reports the outcome of a command line: what to write, and whether the
    /// shell closes.
    pub fn finish_shell_line(
        &mut self,
        line: &ShellLine,
        outcome: Result<CommandResult, CommandError>,
    ) -> (r: (Vec<String>, bool))
        requires
            old(self)@.wf(),
        ensures
            final(self)@.wf(),
            final(self)@ == after_outcome(old(self)@, line@, outcome_view(outcome)),
            texts(r.0@) == outcome_writes(outcome_view(outcome)),
            r.1 == ends_shell(outcome_view(outcome)),
    {
        let mut out: Vec<String>;
        match outcome {
            Ok(c) => {
                self.push_history(line);
                out = write_text(c.output.as_str());
                if c.should_exit {
                    self.shell_channel = None;
                    return (out, true);
                }
            },
            Err(e) => {
                let text = cat("ERROR: ", e.message.as_str());
                out = write_text(text.as_str());
                if !self.repeats(line) {
                    self.history_index = None;
                    self.saved_buf.clear();
                    assert(self.saved_buf@ =~= Seq::empty());
                    assert(self@.history =~= old(self)@.history);
                }
            },
        }
        let p = prompt();
        write(&mut out, p.as_str());
        (out, false)
    }

    /// The client asked for a terminal with the given modes, each an opcode and
    /// a value.
    pub fn pty_request(&mut self, modes: &[(u8, u32)])
        requires
            old(self)@.wf(),
        ensures
            final(self)@.wf(),
            final(self)@ == with_terminal(old(self)@, modes@),
            final(self)@ == (SessionView {
                pty_allocated: true,
                pty_echo: exists|i: int|
                    0 <= i < modes@.len() && (#[trigger] modes@[i]).0 == PTY_ECHO && modes@[i].1
                        != 0,
                ..old(self)@
            }),
    {
        let mut echo = false;
        let mut i: usize = 0;
        while i < modes.len()
            invariant
                i <= modes@.len(),
                echo == exists|j: int|
                    0 <= j < i && (#[trigger] modes@[j]).0 == PTY_ECHO && modes@[j].1 != 0,
            decreases modes@.len() - i,
        {
            let mode = modes[i];
            if mode.0 == PTY_ECHO && mode.1 != 0 {
                assert(modes@[i as int].0 == PTY_ECHO && modes@[i as int].1 != 0);
                echo = true;
            }
            i = i + 1;
        }
        self.pty_allocated = true;
        self.pty_echo = echo;
    }

    /// The client asked for a shell on the given channel: what to write.
    pub fn shell_request(&mut self, channel: u32) -> (r: Vec<String>)
        requires
            old(self)@.wf(),
        ensures
            final(self)@.wf(),
            final(self)@ == (SessionView { shell_channel: Some(channel), ..old(self)@ }),
            texts(r@) == seq![prompt_text()],
    {
        self.shell_channel = Some(channel);
        let mut out: Vec<String> = Vec::new();
        let p = prompt();
        write(&mut out, p.as_str());
        assert(texts(out@) =~= seq![prompt_text()]);
        out
    }
}

/// The command line of an exec request.
pub fn exec_line(data: &[u8]) -> (r: String)
    ensures
        r@ == trimmed(crate::text::lossy_text(data@)),
{
    let text = from_utf8_lossy(data);
    trim(text.as_str())
}

/// What is written about the outcome of an exec request.
pub open spec fn exec_writes(outcome: OutcomeView) -> Seq<Seq<char>> {
    match outcome {
        OutcomeView::Success { output, .. } => printed(output),
        OutcomeView::Failure(message) => printed("ERROR: "@ + message),
    }
}

/// What to write about the outcome of an exec request.
pub fn exec_output(outcome: Result<CommandResult, CommandError>) -> (r: Vec<String>)
    ensures
        texts(r@) == exec_writes(outcome_view(outcome)),
        texts(r@) == match outcome {
            Ok(c) => printed(c.output@),
            Err(e) => printed("ERROR: "@ + e@),
        },
{
    match outcome {
        Ok(c) => write_text(c.output.as_str()),
        Err(e) => {
            let text = cat("ERROR: ", e.message.as_str());
            write_text(text.as_str())
        },
    }
}

/// The session after `k` up arrows.
pub open spec fn ups(s: SessionView, k: nat) -> SessionView
    decreases k,
{
    if k == 0 {
        s
    } else {
        after_up(ups(s, (k - 1) as nat))
    }
}

/// The session after `k` down arrows.
pub open spec fn downs(s: SessionView, k: nat) -> SessionView
    decreases k,
{
    if k == 0 {
        s
    } else {
        downs(after_down(s), (k - 1) as nat)
    }
}

proof fn ups_show_older_entries(s: SessionView, k: nat)
    requires
        s.wf(),
        s.history_index is None,
        1 <= k <= s.history.len(),
    ensures
        ups(s, k) == showing(SessionView { saved_buf: s.buf, ..s }, s.history.len() - k),
    decreases k,
{
    if k > 1 {
        ups_show_older_entries(s, (k - 1) as nat);
    } else {
        assert(ups(s, 0) == s);
    }
}

proof fn downs_restore(s: SessionView, fresh: Seq<u8>, k: nat)
    requires
        s.wf(),
        1 <= k <= s.history.len(),
        s.history_index == Some((s.history.len() - k) as usize),
        s.saved_buf == fresh,
    ensures
        downs(s, k) == (SessionView {
            buf: fresh,
            saved_buf: Seq::empty(),
            history_index: None,
            ..s
        }),
    decreases k,
{
    if k > 1 {
        let t = after_down(s);
        printable_encodes(s.history[s.history.len() - k + 1]);
        downs_restore(t, fresh, (k - 1) as nat);
    } else {
        assert(downs(after_down(s), 0) == after_down(s));
    }
}

/// Going up in the history shows its entries from the newest to the oldest, and
/// going down as often brings back the fresh line as it was. One more step down
/// writes nothing and changes nothing.
pub proof fn history_navigation_round_trip(s: SessionView, k: nat)
    requires
        s.wf(),
        s.history_index is None,
        1 <= k <= s.history.len(),
    ensures
        ups(s, k).buf == encode_utf8(s.history[s.history.len() - k]),
        downs(ups(s, k), k).buf == s.buf,
        downs(ups(s, k), k).history_index is None,
        downs(ups(s, k), k).history == s.history,
        !down_redraws(downs(ups(s, k), k)),
        after_down(downs(ups(s, k), k)) == downs(ups(s, k), k),
{
    ups_show_older_entries(s, k);
    printable_encodes(s.history[s.history.len() - k]);
    downs_restore(ups(s, k), s.buf, k);
}

/// However often one goes up, the history stays as it is and the line shows the
/// entry that is as far back, or the oldest where there is none so far back. A
/// step past the oldest entry writes nothing and changes nothing, and so does
/// any step where the history is empty.
pub proof fn history_ends_at_the_oldest(s: SessionView, k: nat)
    requires
        s.wf(),
        s.history_index is None,
        k >= 1,
    ensures
        s.history.len() == 0 ==> ups(s, k) == s && !up_redraws(s),
        s.history.len() > 0 ==> {
            let i = if k < s.history.len() {
                s.history.len() - k
            } else {
                0
            };
            &&& ups(s, k) == showing(SessionView { saved_buf: s.buf, ..s }, i)
            &&& ups(s, k).buf == encode_utf8(s.history[i])
            &&& ups(s, k).history == s.history
            &&& ups(s, k).history_index == Some(i as usize)
        },
        k >= s.history.len() ==> !up_redraws(ups(s, k)) && after_up(ups(s, k)) == ups(s, k),
    decreases k,
{
    if s.history.len() == 0 {
        if k > 1 {
            history_ends_at_the_oldest(s, (k - 1) as nat);
        } else {
            assert(ups(s, 0) == s);
        }
    } else if k <= s.history.len() {
        ups_show_older_entries(s, k);
    } else {
        history_ends_at_the_oldest(s, (k - 1) as nat);
    }
}

/// The arrow keys, as a terminal sends them, walk the history: outside an escape
/// sequence the three bytes of the up arrow and of the down arrow are one step
/// each, and are read without a trace of them on the line.
pub proof fn arrow_keys_walk_the_history(s: SessionView)
    requires
        s.esc_state is None,
    ensures
        fed(s, seq![0x1bu8, 0x5bu8, 0x41u8]) == (FedView {
            session: after_up(s),
            writes: if up_redraws(s) {
                redrawn(after_up(s).buf)
            } else {
                Seq::empty()
            },
            consumed: 3,
            next: NextView::Continue,
        }),
        fed(s, seq![0x1bu8, 0x5bu8, 0x42u8]) == (FedView {
            session: after_down(s),
            writes: if down_redraws(s) {
                redrawn(after_down(s).buf)
            } else {
                Seq::empty()
            },
            consumed: 3,
            next: NextView::Continue,
        }),
{
    reveal_with_fuel(fed, 4);
    let none = Seq::<Seq<char>>::empty();
    let t = SessionView {
        esc_state: Some(EscState::Csi),
        ..SessionView { esc_state: Some(EscState::ExpectType), ..s }
    };
    assert(SessionView { esc_state: None, ..t } == s);
    let up = seq![0x1bu8, 0x5bu8, 0x41u8];
    let down = seq![0x1bu8, 0x5bu8, 0x42u8];
    assert(up.drop_first() =~= seq![0x5bu8, 0x41u8]);
    assert(up.drop_first().drop_first() =~= seq![0x41u8]);
    assert(up.drop_first().drop_first().drop_first() =~= Seq::empty());
    assert(down.drop_first() =~= seq![0x5bu8, 0x42u8]);
    assert(down.drop_first().drop_first() =~= seq![0x42u8]);
    assert(down.drop_first().drop_first().drop_first() =~= Seq::empty());
    let w = escaped(t, EscState::Csi, 0x41).1;
    let v = escaped(t, EscState::Csi, 0x42).1;
    assert(none + (none + (w + none)) =~= w);
    assert(none + (none + (v + none)) =~= v);
}

/// The newest command is the last history entry, and a repeated command is not
/// added again.
pub proof fn newest_command_is_last(s: SessionView, line: Seq<char>)
    requires
        s.wf(),
        is_shell_line(line),
    ensures
        with_history(s, line).history.last() == line,
        with_history(with_history(s, line), line) == with_history(s, line),
        with_history(s, line).history.len() <= MAX_HISTORY,
{
}

/// Erasing a character that was just typed gives back the line.
pub proof fn erase_undoes_typing(s: SessionView, byte: u8)
    requires
        s.wf(),
        s.esc_state is None,
        printable(byte),
    ensures
        typed(typed(s, byte).0, 0x7f).0 == (SessionView { last_was_cr: false, ..s }),
        typed(typed(s, byte).0, 0x08).0 == (SessionView { last_was_cr: false, ..s }),
{
    assert(s.buf.push(byte).drop_last() =~= s.buf);
}

/// A carriage return with a line feed ends one line, not two: the line feed
/// writes nothing and leaves the line alone.
pub proof fn line_feed_after_carriage_return_is_ignored(s: SessionView)
    requires
        s.wf(),
        s.esc_state is None,
    ensures
        typed(typed(s, 0x0d).0, 0x0a) == (
            SessionView { last_was_cr: false, ..typed(s, 0x0d).0 },
            Seq::<Seq<char>>::empty(),
            NextView::Continue,
        ),
{
}

/// How input is cut into packets does not matter: reading two pieces in turn
/// is reading them as one, where the first piece leaves more to read.
pub proof fn input_may_be_cut_anywhere(s: SessionView, a: Seq<u8>, b: Seq<u8>)
    ensures
        fed(s, a).next is Continue ==> {
            let first = fed(s, a);
            let second = fed(first.session, b);
            &&& first.consumed == a.len()
            &&& fed(s, a + b).session == second.session
            &&& fed(s, a + b).writes == first.writes + second.writes
            &&& fed(s, a + b).consumed == a.len() + second.consumed
            &&& fed(s, a + b).next == second.next
        },
        !(fed(s, a).next is Continue) ==> fed(s, a + b) == fed(s, a),
    decreases a.len(),
{
    if a.len() == 0 {
        assert(a + b =~= b);
        assert(Seq::<Seq<char>>::empty() + fed(s, b).writes =~= fed(s, b).writes);
    } else {
        let (t, w, next) = typed(s, a[0]);
        assert((a + b)[0] == a[0]);
        assert((a + b).drop_first() =~= a.drop_first() + b);
        if next is Continue {
            input_may_be_cut_anywhere(t, a.drop_first(), b);
            let rest = fed(t, a.drop_first());
            if rest.next is Continue {
                let second = fed(rest.session, b);
                assert(w + (rest.writes + second.writes) =~= (w + rest.writes) + second.writes);
            }
        }
    }
}

/// What input and the command lines in it came to.
pub struct RunView {
    /// The session afterwards.
    pub session: SessionView,
    /// What was written, in order.
    pub writes: Seq<Seq<char>>,
    /// The command lines that were run, in order.
    pub lines: Seq<Seq<char>>,
}

/// Input on a channel with the command lines in it run, each before what follows
/// it is read. The `i`-th line that is run, counted from `k`, comes to
/// `outcomes(i)`. Input that is not for the shell, and what follows the end of
/// the shell, is dropped.
pub open spec fn ran(
    s: SessionView,
    channel: u32,
    bytes: Seq<u8>,
    outcomes: spec_fn(nat) -> OutcomeView,
    k: nat,
) -> RunView
    decreases bytes.len(),
    via ran_decreases
{
    let f = fed(s, bytes);
    if s.shell_channel != Some(channel) {
        RunView { session: s, writes: Seq::empty(), lines: Seq::empty() }
    } else {
        match f.next {
            NextView::Run(line) => {
                let t = after_outcome(f.session, line, outcomes(k));
                let rest = ran(t, channel, bytes.skip(f.consumed as int), outcomes, k + 1);
                RunView {
                    session: rest.session,
                    writes: f.writes + outcome_writes(outcomes(k)) + rest.writes,
                    lines: seq![line] + rest.lines,
                }
            },
            _ => RunView { session: f.session, writes: f.writes, lines: Seq::empty() },
        }
    }
}

#[via_fn]
proof fn ran_decreases(
    s: SessionView,
    channel: u32,
    bytes: Seq<u8>,
    outcomes: spec_fn(nat) -> OutcomeView,
    k: nat,
) {
    fed_bounds(s, bytes);
}

/// Reading takes all bytes or stops behind one of them, and only closing the
/// shell takes its channel away.
proof fn fed_bounds(s: SessionView, bytes: Seq<u8>)
    ensures
        fed(s, bytes).consumed <= bytes.len(),
        fed(s, bytes).next is Continue ==> fed(s, bytes).consumed == bytes.len(),
        !(fed(s, bytes).next is Continue) ==> fed(s, bytes).consumed >= 1,
        fed(s, bytes).session.shell_channel == (if fed(s, bytes).next is Close {
            None
        } else {
            s.shell_channel
        }),
    decreases bytes.len(),
{
    if bytes.len() > 0 {
        let (t, w, next) = typed(s, bytes[0]);
        if next is Continue {
            fed_bounds(t, bytes.drop_first());
        }
    }
}

/// How input is cut into packets does not matter, whatever command lines are run
/// in between: what two packets come to in turn is what they come to as one.
pub proof fn packets_may_be_cut_anywhere(
    s: SessionView,
    channel: u32,
    a: Seq<u8>,
    b: Seq<u8>,
    outcomes: spec_fn(nat) -> OutcomeView,
    k: nat,
)
    ensures
        ({
            let first = ran(s, channel, a, outcomes, k);
            let second = ran(first.session, channel, b, outcomes, k + first.lines.len());
            let whole = ran(s, channel, a + b, outcomes, k);
            &&& whole.session == second.session
            &&& whole.writes == first.writes + second.writes
            &&& whole.lines == first.lines + second.lines
        }),
    decreases a.len(),
{
    let first = ran(s, channel, a, outcomes, k);
    let second = ran(first.session, channel, b, outcomes, k + first.lines.len());
    let whole = ran(s, channel, a + b, outcomes, k);
    let none = Seq::<Seq<char>>::empty();
    if s.shell_channel != Some(channel) {
        assert(whole.writes =~= first.writes + second.writes);
        assert(whole.lines =~= first.lines + second.lines);
    } else {
        let f = fed(s, a);
        let g = fed(s, a + b);
        fed_bounds(s, a);
        input_may_be_cut_anywhere(s, a, b);
        match f.next {
            NextView::Continue => {
                let h = fed(f.session, b);
                fed_bounds(f.session, b);
                assert((a + b).skip(g.consumed as int) =~= b.skip(h.consumed as int));
                if let NextView::Run(line) = h.next {
                    let o = outcome_writes(outcomes(k));
                    let rest = ran(
                        after_outcome(h.session, line, outcomes(k)),
                        channel,
                        b.skip(h.consumed as int),
                        outcomes,
                        k + 1,
                    );
                    assert(f.writes + h.writes + o + rest.writes =~= f.writes + (h.writes + o
                        + rest.writes));
                }
                assert(none + second.lines =~= second.lines);
            },
            NextView::Run(line) => {
                let c = f.consumed as int;
                let t = after_outcome(f.session, line, outcomes(k));
                let o = outcome_writes(outcomes(k));
                assert((a + b).skip(c) =~= a.skip(c) + b);
                packets_may_be_cut_anywhere(t, channel, a.skip(c), b, outcomes, k + 1);
                let r1 = ran(t, channel, a.skip(c), outcomes, k + 1);
                let r2 = ran(r1.session, channel, b, outcomes, k + 1 + r1.lines.len());
                assert(first.lines.len() == 1 + r1.lines.len());
                assert(k + first.lines.len() == k + 1 + r1.lines.len());
                assert(second == r2);
                assert(f.writes + o + (r1.writes + r2.writes) =~= f.writes + o + r1.writes
                    + r2.writes);
                assert(seq![line] + (r1.lines + r2.lines) =~= seq![line] + r1.lines + r2.lines);
            },
            NextView::Close => {
                assert(whole.writes =~= first.writes + second.writes);
                assert(whole.lines =~= first.lines + second.lines);
            },
        }
    }
}

/// A printable character that is typed goes to the end of the line as it is, and
/// is echoed as it is where the session echoes. Nothing else changes but that
/// the last byte is no carriage return.
pub proof fn typing_appends_the_character(s: SessionView, byte: u8)
    requires
        s.esc_state is None,
        0x20 <= byte <= 0x7e,
    ensures
        typed(s, byte).0 == (SessionView { buf: s.buf + seq![byte], last_was_cr: false, ..s }),
        typed(s, byte).1 == (if !s.pty_allocated || s.pty_echo {
            seq![seq![byte as char]]
        } else {
            Seq::<Seq<char>>::empty()
        }),
        typed(s, byte).2 is Continue,
{
    assert(s.buf.push(byte) =~= s.buf + seq![byte]);
}

/// What echoing bytes writes: each of them as one character.
pub open spec fn echo_of(bytes: Seq<u8>) -> Seq<Seq<char>> {
    Seq::new(bytes.len(), |i: int| seq![bytes[i] as char])
}

proof fn typing_printable_bytes(s: SessionView, bytes: Seq<u8>)
    requires
        s.esc_state is None,
        printable_bytes(bytes),
    ensures
        ({
            let f = fed(s, bytes);
            &&& f.next is Continue
            &&& f.consumed == bytes.len()
            &&& f.session == (SessionView {
                buf: s.buf + bytes,
                last_was_cr: s.last_was_cr && bytes.len() == 0,
                ..s
            })
            &&& f.writes == (if s.should_echo() {
                echo_of(bytes)
            } else {
                Seq::empty()
            })
        }),
    decreases bytes.len(),
{
    if bytes.len() == 0 {
        assert(s.buf + bytes =~= s.buf);
        assert(echo_of(bytes) =~= Seq::empty());
    } else {
        let b = bytes[0];
        assert(printable(b));
        typing_appends_the_character(s, b);
        let t = typed(s, b).0;
        let rest = bytes.drop_first();
        assert forall|i: int| 0 <= i < rest.len() implies printable(#[trigger] rest[i]) by {
            assert(rest[i] == bytes[i + 1]);
        }
        typing_printable_bytes(t, rest);
        assert(s.buf + seq![b] + rest =~= s.buf + bytes);
        assert(seq![seq![b as char]] + echo_of(rest) =~= echo_of(bytes));
        assert(Seq::<Seq<char>>::empty() + Seq::<Seq<char>>::empty() =~= Seq::<
            Seq<char>,
        >::empty());
    }
}

/// What is typed is what is run: printable characters and then the enter key, be
/// it a carriage return or a line feed, run the line followed by exactly these
/// characters, without the white space at its ends; a new prompt is given where
/// nothing is left. The line is then empty, and all input has been read. The
/// characters are echoed where the session echoes, and the line is ended on the
/// terminal.
pub proof fn typed_line_is_run(s: SessionView, bytes: Seq<u8>, enter: u8)
    requires
        s.esc_state is None,
        printable_bytes(bytes),
        enter == 0x0d || (enter == 0x0a && (bytes.len() > 0 || !s.last_was_cr)),
    ensures
        ({
            let f = fed(s, bytes.push(enter));
            let line = trimmed(ascii_chars(s.buf + bytes));
            let echo = if s.should_echo() {
                echo_of(bytes)
            } else {
                Seq::empty()
            };
            &&& f.consumed == bytes.len() + 1
            &&& f.session.buf.len() == 0
            &&& f.session.history == s.history
            &&& f.session.history_index == s.history_index
            &&& f.session.shell_channel == s.shell_channel
            &&& f.session.esc_state is None
            &&& f.session.last_was_cr == (enter == 0x0d)
            &&& line.len() > 0 ==> f.next == NextView::Run(line) && f.writes == echo.push(
                "\r\n"@,
            )
            &&& line.len() == 0 ==> f.next is Continue && f.writes == echo + seq![
                "\r\n"@,
                prompt_text(),
            ]
        }),
{
    typing_printable_bytes(s, bytes);
    let first = fed(s, bytes);
    let last = seq![enter];
    assert(bytes + last =~= bytes.push(enter));
    input_may_be_cut_anywhere(s, bytes, last);
    let t = first.session;
    let g = fed(t, last);
    let (u, w, next) = typed(t, enter);
    assert(last[0] == enter);
    assert(last.drop_first() =~= Seq::empty());
    assert(fed(u, Seq::empty()).writes =~= Seq::empty());
    assert(w + Seq::<Seq<char>>::empty() =~= w);
    assert(g.writes == w);
    let echo = first.writes;
    assert(echo + seq!["\r\n"@] =~= echo.push("\r\n"@));
}

/// Keys that edit or end the line, outside an escape sequence. Erasing takes the
/// last character and nothing else, and nothing from an empty line. Ctrl-C drops
/// the line and gives a new prompt. Ctrl-D on an empty line ends the shell, and
/// on another line does nothing. Any other byte that is no key and not printable
/// leaves the line and writes nothing.
pub proof fn control_keys(s: SessionView, byte: u8)
    requires
        s.esc_state is None,
    ensures
        byte == 0x08 || byte == 0x7f ==> {
            &&& typed(s, byte).2 is Continue
            &&& typed(s, byte).0.buf == s.buf.take(
                if s.buf.len() > 0 {
                    s.buf.len() - 1
                } else {
                    0
                },
            )
            &&& typed(s, byte).0 == (SessionView {
                buf: typed(s, byte).0.buf,
                last_was_cr: false,
                ..s
            })
            &&& typed(s, byte).1 == (if s.buf.len() > 0 && s.should_echo() {
                seq![seq!['\u{8}', ' ', '\u{8}']]
            } else {
                Seq::empty()
            })
        },
        byte == 0x03 ==> {
            &&& typed(s, byte).2 is Continue
            &&& typed(s, byte).0 == (SessionView {
                buf: Seq::empty(),
                saved_buf: Seq::empty(),
                last_was_cr: false,
                ..s
            })
            &&& typed(s, byte).1 == seq!["^C\r\n"@, prompt_text()]
        },
        byte == 0x04 && s.buf.len() == 0 ==> {
            &&& typed(s, byte).2 is Close
            &&& typed(s, byte).0.shell_channel is None
        },
        byte == 0x04 && s.buf.len() > 0 ==> {
            &&& typed(s, byte).2 is Continue
            &&& typed(s, byte).0 == (SessionView { last_was_cr: false, ..s })
            &&& typed(s, byte).1.len() == 0
        },
        !(0x20 <= byte <= 0x7e) && byte != 0x08 && byte != 0x7f && byte != 0x03 && byte != 0x04
            && byte != 0x0a && byte != 0x0d && byte != 0x1b ==> {
            &&& typed(s, byte).2 is Continue
            &&& typed(s, byte).0 == (SessionView { last_was_cr: false, ..s })
            &&& typed(s, byte).1.len() == 0
        },
{
    reveal_strlit("\u{8} \u{8}");
    assert("\u{8} \u{8}"@ =~= seq!['\u{8}', ' ', '\u{8}']);
    if s.buf.len() > 0 {
        assert(s.buf.drop_last() =~= s.buf.take(s.buf.len() - 1));
    } else {
        assert(s.buf.take(0) =~= s.buf);
    }
}

/// An escape sequence leaves the line alone unless it is an arrow up or down: no
/// byte of it is typed, run or closes the shell, and the sequence ends with the
/// byte behind `ESC` unless that is `[` or `O`, behind `ESC O` with one byte, and
/// behind `ESC [` with the first byte that is no parameter.
pub proof fn escape_sequences_are_not_typed(s: SessionView, e: EscState, byte: u8)
    requires
        s.esc_state == Some(e),
    ensures
        typed(s, byte).2 is Continue,
        !(e is Csi && (byte == 0x41 || byte == 0x42)) ==> {
            &&& typed(s, byte).1.len() == 0
            &&& typed(s, byte).0 == (SessionView { esc_state: typed(s, byte).0.esc_state, ..s })
        },
        e is ExpectType ==> typed(s, byte).0.esc_state == (if byte == 0x5b {
            Some(EscState::Csi)
        } else if byte == 0x4f {
            Some(EscState::Ss3)
        } else {
            None
        }),
        e is Csi ==> (typed(s, byte).0.esc_state is Some <==> 0x20 <= byte <= 0x3f),
        e is Csi && 0x20 <= byte <= 0x3f ==> typed(s, byte).0.esc_state == Some(EscState::Csi),
        e is Ss3 || e is EscOther ==> typed(s, byte).0.esc_state is None,
{
}

/// A command that is brought back from the history is run as it was: the up
/// arrow and the enter key run the newest entry.
pub proof fn recalled_command_is_run(s: SessionView)
    requires
        s.wf(),
        s.esc_state is None,
        s.history_index is None,
        s.history.len() > 0,
        trimmed(s.history.last()) == s.history.last(),
    ensures
        fed(s, seq![0x1bu8, 0x5bu8, 0x41u8, 0x0du8]).next == NextView::Run(s.history.last()),
{
    let up = seq![0x1bu8, 0x5bu8, 0x41u8];
    let t = after_up(s);
    arrow_keys_walk_the_history(s);
    input_may_be_cut_anywhere(s, up, seq![0x0du8]);
    assert(up + seq![0x0du8] =~= seq![0x1bu8, 0x5bu8, 0x41u8, 0x0du8]);
    printable_encodes(s.history.last());
    typed_line_is_run(t, Seq::empty(), 0x0d);
    assert(Seq::<u8>::empty().push(0x0du8) =~= seq![0x0du8]);
    assert(t.buf + Seq::<u8>::empty() =~= t.buf);
}

/// A command line that succeeds is the newest history entry and the entries
/// before it stay, but for the oldest where there are as many as are kept. One
/// that fails leaves the history as it is. Neither touches the line, and the shell
/// ends with a command that asks for it and with no other.
pub proof fn outcomes_and_the_history(s: SessionView, line: Seq<char>, outcome: OutcomeView)
    requires
        s.wf(),
    ensures
        ({
            let t = after_outcome(s, line, outcome);
            &&& t.buf == s.buf
            &&& t.esc_state == s.esc_state
            &&& t.last_was_cr == s.last_was_cr
            &&& t.pty_allocated == s.pty_allocated && t.pty_echo == s.pty_echo
            &&& outcome is Failure ==> t.history == s.history
            &&& outcome is Success ==> t.history.len() > 0 && t.history.last() == line
            &&& outcome is Success && s.history.len() > 0 && s.history.last() == line ==> t.history
                == s.history
            &&& outcome is Success && !(s.history.len() > 0 && s.history.last() == line)
                && s.history.len() < 500 ==> t.history == s.history + seq![line]
            &&& outcome is Success && !(s.history.len() > 0 && s.history.last() == line)
                && s.history.len() == 500 ==> t.history == s.history.skip(1) + seq![line]
            &&& !(s.history.len() > 0 && s.history.last() == line) ==> t.history_index is None
                && t.saved_buf.len() == 0
            &&& s.history.len() > 0 && s.history.last() == line ==> t.history_index
                == s.history_index && t.saved_buf == s.saved_buf
            &&& t.shell_channel == (if outcome matches OutcomeView::Success {
                output: _,
                should_exit: true,
            } {
                None
            } else {
                s.shell_channel
            })
        }),
{
    assert(s.history.push(line) =~= s.history + seq![line]);
    if s.history.len() == 500 {
        assert(s.history.push(line).drop_first() =~= s.history.skip(1) + seq![line]);
    }
}

/// What a command says is shown: its output, or its error behind `ERROR: `, with
/// the line endings of a terminal and a line ending, and then the prompt unless
/// the shell ends. A command that says nothing shows nothing.
pub proof fn outcomes_are_shown(output: Seq<char>, exit: bool, message: Seq<char>)
    ensures
        ({
            let w = outcome_writes(OutcomeView::Success { output, should_exit: exit });
            let shown = if output.len() > 0 {
                seq![terminal_text(output), "\r\n"@]
            } else {
                Seq::empty()
            };
            w == (if exit {
                shown
            } else {
                shown + seq![prompt_text()]
            })
        }),
        outcome_writes(OutcomeView::Failure(message)) == seq![
            terminal_text("ERROR: "@ + message),
            "\r\n"@,
            prompt_text(),
        ],
{
    reveal_strlit("ERROR: ");
    let w = outcome_writes(OutcomeView::Success { output, should_exit: exit });
    assert(printed(output).push(prompt_text()) =~= printed(output) + seq![prompt_text()]);
    assert(outcome_writes(OutcomeView::Failure(message)) =~= seq![
        terminal_text("ERROR: "@ + message),
        "\r\n"@,
        prompt_text(),
    ]);
}

/// A line that is drawn anew replaces the one that stands there: the line is
/// erased, and then come the prompt, in blue, and the text of the line.
pub proof fn redrawn_line_is_the_prompt_and_the_line(buf: Seq<u8>)
    ensures
        crate::text::glued(redrawn(buf)) == seq!['\r', '\u{1b}', '[', 'K'] + seq![
            '\u{1b}',
            '[',
            '3',
            '4',
            'm',
        ] + "bluenet> "@ + seq!['\u{1b}', '[', '0', 'm'] + ascii_chars(buf),
{
    reveal_strlit("\r\x1b[K");
    reveal_strlit("\x1b[34mbluenet> \x1b[0m");
    reveal_strlit("bluenet> ");
    reveal_with_fuel(crate::text::glued, 4);
    let r = redrawn(buf);
    let d = r.drop_first();
    assert(d[0] == prompt_text());
    if buf.len() > 0 {
        let e = d.drop_first();
        assert(e =~= seq![ascii_chars(buf)]);
        assert(e.drop_first() =~= Seq::empty());
        assert(crate::text::glued(e) =~= ascii_chars(buf));
    } else {
        assert(d.drop_first() =~= Seq::empty());
        assert(ascii_chars(buf) =~= Seq::empty());
    }
    assert(crate::text::glued(d) =~= prompt_text() + ascii_chars(buf));
    assert(crate::text::glued(r) =~= "\r\x1b[K"@ + (prompt_text() + ascii_chars(buf)));
}

/// An exec request shows of a command what the shell shows of it, but no prompt.
pub proof fn exec_shows_what_the_shell_shows(outcome: OutcomeView)
    ensures
        outcome_writes(outcome) == (if ends_shell(outcome) {
            exec_writes(outcome)
        } else {
            exec_writes(outcome).push(prompt_text())
        }),
{
}

/// Once there is a terminal, what is typed is echoed where its modes ask for it,
/// and only there: the mode with the number 53 does, with any value but zero, and
/// no other mode counts. Without a terminal it always is. Nothing else depends on
/// the modes.
pub proof fn echo_goes_by_the_modes(
    s: SessionView,
    modes: Seq<(u8, u32)>,
    mode: (u8, u32),
    byte: u8,
)
    requires
        s.esc_state is None,
        0x20 <= byte <= 0x7e,
    ensures
        ({
            let t = with_terminal(s, modes);
            let u = with_terminal(s, modes.push(mode));
            let none = with_terminal(s, Seq::empty());
            &&& typed(none, byte).1.len() == 0
            &&& mode.0 == 53 && mode.1 != 0 ==> typed(u, byte).1 == seq![seq![byte as char]]
            &&& mode.0 != 53 || mode.1 == 0 ==> u == t
            &&& t == (SessionView { pty_allocated: true, pty_echo: t.pty_echo, ..s })
            &&& !s.pty_allocated ==> typed(s, byte).1 == seq![seq![byte as char]]
        }),
{
    let more = modes.push(mode);
    let n = modes.len() as int;
    assert(more[n] == mode);
    if asks_for_echo(modes) {
        let i = choose|i: int|
            0 <= i < modes.len() && (#[trigger] modes[i]).0 == PTY_ECHO && modes[i].1 != 0;
        assert(more[i] == modes[i]);
    }
    if asks_for_echo(more) {
        let i = choose|i: int|
            0 <= i < more.len() && (#[trigger] more[i]).0 == PTY_ECHO && more[i].1 != 0;
        if i < n {
            assert(modes[i] == more[i]);
        }
    }
}

} // verus!
