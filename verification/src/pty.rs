//! Shells on a pseudo-terminal and commands without one: what is run, and how
//! the output reaches the reader.
use vstd::prelude::*;
use vstd::string::*;
use vstd::slice::slice_subrange;
use crate::text::{cat, from_utf8_lossy, lossy_text};

verus! {

/// The size of a terminal window.
#[derive(Clone, Copy, PartialEq, Eq, Structural)]
pub struct WindowSize {
    pub rows: u16,
    pub cols: u16,
    pub pixel_width: u16,
    pub pixel_height: u16,
}

/// The size of a window of text; its size in pixels is not known.
pub fn window_size(cols: u16, rows: u16) -> (r: WindowSize)
    ensures
        r == (WindowSize { rows, cols, pixel_width: 0, pixel_height: 0 }),
{
    WindowSize { rows, cols, pixel_width: 0, pixel_height: 0 }
}

/// A program to run, with its arguments and what it adds to the environment.
pub struct ProcessPlan {
    pub program: String,
    pub args: Vec<String>,
    pub env: Vec<(String, String)>,
}

/// The contents of a `ProcessPlan`.
pub struct PlanView {
    pub program: Seq<char>,
    pub args: Seq<Seq<char>>,
    pub env: Seq<(Seq<char>, Seq<char>)>,
}

/// The contents of a list of environment entries.
pub open spec fn env_views(env: Seq<(String, String)>) -> Seq<(Seq<char>, Seq<char>)> {
    Seq::new(env.len(), |i: int| (env[i].0@, env[i].1@))
}

impl View for ProcessPlan {
    type V = PlanView;

    open spec fn view(&self) -> PlanView {
        PlanView {
            program: self.program@,
            args: crate::text::texts(self.args@),
            env: env_views(self.env@),
        }
    }
}

/// What the shell depends on in the server's own surroundings.
pub struct Surroundings {
    pub windows: bool,
    /// `/bin/bash` exists.
    pub has_bash: bool,
    /// The variable `HOME`.
    pub home: Option<String>,
    /// The variable `COMSPEC`.
    pub comspec: Option<String>,
    /// The variable `SystemRoot`.
    pub system_root: Option<String>,
}

/// The value of a variable, or a default.
pub open spec fn value_or(v: Option<String>, default: Seq<char>) -> Seq<char> {
    match v {
        Some(s) => s@,
        None => default,
    }
}

/// The interactive shell.
pub open spec fn shell_plan(s: Surroundings) -> PlanView {
    if s.windows {
        PlanView {
            program: value_or(
                s.comspec,
                value_or(s.system_root, "C:\\Windows"@) + "\\System32\\cmd.exe"@,
            ),
            args: Seq::empty(),
            env: Seq::empty(),
        }
    } else {
        PlanView {
            program: if s.has_bash {
                "/bin/bash"@
            } else {
                "/bin/sh"@
            },
            args: Seq::empty(),
            env: seq![
                ("TERM"@, "xterm-256color"@),
                ("HOME"@, value_or(s.home, "/root"@)),
                ("LANG"@, "C.UTF-8"@),
                ("LC_ALL"@, "C.UTF-8"@),
                ("HISTFILE"@, "/dev/null"@),
            ],
        }
    }
}

/// The run of a single command. On Windows the console is switched to UTF-8
/// first.
pub open spec fn exec_plan(s: Surroundings, command: Seq<char>) -> PlanView {
    PlanView {
        program: if s.windows {
            value_or(s.comspec, "C:\\Windows\\System32\\cmd.exe"@)
        } else {
            "/bin/sh"@
        },
        args: if s.windows {
            seq!["/c"@, "chcp 65001 >nul && "@ + command]
        } else {
            seq!["-c"@, command]
        },
        env: seq![("LANG"@, "C.UTF-8"@), ("LC_ALL"@, "C.UTF-8"@)],
    }
}

fn or_default(v: &Option<String>, default: &str) -> (r: String)
    ensures
        r@ == value_or(*v, default@),
{
    match v {
        Some(s) => s.clone(),
        None => default.to_owned(),
    }
}

fn push_env(env: &mut Vec<(String, String)>, name: &str, value: &str)
    ensures
        env_views(final(env)@) == env_views(old(env)@).push((name@, value@)),
{
    env.push((name.to_owned(), value.to_owned()));
    assert(env_views(env@) =~= env_views(old(env)@).push((name@, value@)));
}

/// The interactive shell to run on a terminal.
pub fn make_shell_command(s: &Surroundings) -> (r: ProcessPlan)
    ensures
        r@ == shell_plan(*s),
{
    let args: Vec<String> = Vec::new();
    let mut env: Vec<(String, String)> = Vec::new();
    assert(crate::text::texts(args@) =~= Seq::empty());
    assert(env_views(env@) =~= Seq::empty());
    if s.windows {
        let program = match &s.comspec {
            Some(c) => c.clone(),
            None => {
                let root = or_default(&s.system_root, "C:\\Windows");
                cat(root.as_str(), "\\System32\\cmd.exe")
            },
        };
        ProcessPlan { program, args, env }
    } else {
        let program = if s.has_bash {
            "/bin/bash".to_owned()
        } else {
            "/bin/sh".to_owned()
        };
        let home = or_default(&s.home, "/root");
        push_env(&mut env, "TERM", "xterm-256color");
        push_env(&mut env, "HOME", home.as_str());
        push_env(&mut env, "LANG", "C.UTF-8");
        push_env(&mut env, "LC_ALL", "C.UTF-8");
        push_env(&mut env, "HISTFILE", "/dev/null");
        assert(env_views(env@) =~= shell_plan(*s).env);
        ProcessPlan { program, args, env }
    }
}

/// The run of a single command by the system's shell.
pub fn make_exec_command(s: &Surroundings, command: &str) -> (r: ProcessPlan)
    ensures
        r@ == exec_plan(*s, command@),
{
    let mut args: Vec<String> = Vec::new();
    let mut env: Vec<(String, String)> = Vec::new();
    assert(crate::text::texts(args@) =~= Seq::empty());
    assert(env_views(env@) =~= Seq::empty());
    push_env(&mut env, "LANG", "C.UTF-8");
    push_env(&mut env, "LC_ALL", "C.UTF-8");
    let program = if s.windows {
        let line = cat("chcp 65001 >nul && ", command);
        crate::command::push_line(&mut args, "/c");
        crate::command::push_line(&mut args, line.as_str());
        or_default(&s.comspec, "C:\\Windows\\System32\\cmd.exe")
    } else {
        crate::command::push_line(&mut args, "-c");
        crate::command::push_line(&mut args, command);
        "/bin/sh".to_owned()
    };
    assert(crate::text::texts(args@) =~= exec_plan(*s, command@).args);
    assert(env_views(env@) =~= exec_plan(*s, command@).env);
    ProcessPlan { program, args, env }
}

/// What a command printed: its output and then its error output, as text.
pub fn exec_text(stdout: Vec<u8>, stderr: Vec<u8>) -> (r: String)
    ensures
        r@ == lossy_text(stdout@ + stderr@),
{
    let mut text = stdout;
    let mut rest = stderr;
    text.append(&mut rest);
    from_utf8_lossy(text.as_slice())
}

/// The least of two numbers.
pub open spec fn least(a: nat, b: nat) -> nat {
    if a <= b {
        a
    } else {
        b
    }
}

/// What a read hands out of the bytes that are held.
pub open spec fn served(held: Seq<u8>, capacity: nat) -> Seq<u8> {
    held.take(least(held.len(), capacity) as int)
}

/// What is still held after a read.
pub open spec fn unserved(held: Seq<u8>, capacity: nat) -> Seq<u8> {
    held.skip(least(held.len(), capacity) as int)
}

/// Holds the part of the last chunk of output that has not been read yet.
pub struct PtyReader {
    pending: Option<(Vec<u8>, usize)>,
}

impl View for PtyReader {
    type V = Seq<u8>;

    /// The bytes that have not been read yet.
    closed spec fn view(&self) -> Seq<u8> {
        match self.pending {
            Some((data, offset)) => data@.skip(offset as int),
            None => Seq::empty(),
        }
    }
}

impl PtyReader {
    /// The offset lies within the chunk.
    pub closed spec fn wf(&self) -> bool {
        self.pending matches Some((data, offset)) ==> offset <= data@.len()
    }

    /// A reader that holds nothing.
    pub fn new() -> (r: Self)
        ensures
            r.wf(),
            r@ == Seq::<u8>::empty(),
    {
        PtyReader { pending: None }
    }

    /// Hands out at most `capacity` bytes; none where the next chunk is needed.
    pub fn serve(&mut self, capacity: usize) -> (r: Option<Vec<u8>>)
        requires
            old(self).wf(),
        ensures
            final(self).wf(),
            old(self)@.len() == 0 ==> r is None && final(self)@ == old(self)@,
            old(self)@.len() > 0 ==> {
                &&& r matches Some(bytes)
                &&& bytes@ == served(old(self)@, capacity as nat)
                &&& final(self)@ == unserved(old(self)@, capacity as nat)
            },
    {
        let mut pending: Option<(Vec<u8>, usize)> = None;
        std::mem::swap(&mut pending, &mut self.pending);
        if let Some((data, offset)) = pending {
            let remaining: usize = data.len() - offset;
            if remaining > 0 {
                let n: usize = if remaining <= capacity {
                    remaining
                } else {
                    capacity
                };
                let bytes = vstd::slice::slice_to_vec(
                    slice_subrange(data.as_slice(), offset, offset + n),
                );
                assert(bytes@ =~= data@.skip(offset as int).take(n as int));
                assert(data@.skip(offset as int).skip(n as int) =~= data@.skip(offset + n));
                if offset + n < data.len() {
                    self.pending = Some((data, offset + n));
                }
                return Some(bytes);
            }
        }
        None
    }

    /// Takes the next chunk.
    pub fn receive(&mut self, chunk: Vec<u8>)
        requires
            old(self)@.len() == 0,
        ensures
            final(self).wf(),
            final(self)@ == chunk@,
    {
        self.pending = Some((chunk, 0));
        assert(self@ =~= chunk@);
    }
}

/// The bytes of chunks, one after the other.
pub open spec fn flat(chunks: Seq<Seq<u8>>) -> Seq<u8>
    decreases chunks.len(),
{
    if chunks.len() == 0 {
        Seq::empty()
    } else {
        chunks[0] + flat(chunks.drop_first())
    }
}

/// One read: what is handed out, what is then held, and the chunks that are
/// still to come. Chunks are taken until one has something to hand out.
pub open spec fn read_once(
    held: Seq<u8>,
    coming: Seq<Seq<u8>>,
    capacity: nat,
) -> (Seq<u8>, Seq<u8>, Seq<Seq<u8>>)
    decreases coming.len(),
{
    if held.len() > 0 {
        (served(held, capacity), unserved(held, capacity), coming)
    } else if coming.len() > 0 {
        read_once(coming[0], coming.drop_first(), capacity)
    } else {
        (Seq::empty(), Seq::empty(), coming)
    }
}

/// What a row of reads hands out, and what is left after them.
pub open spec fn read_all(
    held: Seq<u8>,
    coming: Seq<Seq<u8>>,
    capacities: Seq<nat>,
) -> (Seq<u8>, Seq<u8>, Seq<Seq<u8>>)
    decreases capacities.len(),
{
    if capacities.len() == 0 {
        (Seq::empty(), held, coming)
    } else {
        let (out, held1, coming1) = read_once(held, coming, capacities[0]);
        let (rest, held2, coming2) = read_all(held1, coming1, capacities.drop_first());
        (out + rest, held2, coming2)
    }
}

/// A read hands out the next bytes, no more than fit, and loses none. It hands
/// out nothing only where nothing fits or nothing is left.
pub proof fn read_loses_nothing(held: Seq<u8>, coming: Seq<Seq<u8>>, capacity: nat)
    ensures
        ({
            let (out, held1, coming1) = read_once(held, coming, capacity);
            &&& out + held1 + flat(coming1) == held + flat(coming)
            &&& out.len() <= capacity
            &&& out.len() == 0 ==> capacity == 0 || (held + flat(coming)).len() == 0
        }),
    decreases coming.len(),
{
    if held.len() > 0 {
        let n = least(held.len(), capacity) as int;
        assert(held.take(n) + held.skip(n) =~= held);
    } else if coming.len() > 0 {
        read_loses_nothing(coming[0], coming.drop_first(), capacity);
        assert(held + flat(coming) =~= coming[0] + flat(coming.drop_first()));
    } else {
        let e = Seq::<u8>::empty();
        assert(e + e + flat(coming) =~= held + flat(coming));
    }
}

/// However the output is cut into chunks and however much each read asks for,
/// the reads hand out the output from its start, in order and complete.
pub proof fn reads_lose_nothing(held: Seq<u8>, coming: Seq<Seq<u8>>, capacities: Seq<nat>)
    ensures
        ({
            let (out, held1, coming1) = read_all(held, coming, capacities);
            out + held1 + flat(coming1) == held + flat(coming)
        }),
    decreases capacities.len(),
{
    if capacities.len() == 0 {
        assert(Seq::<u8>::empty() + held + flat(coming) =~= held + flat(coming));
    } else {
        let (out, held1, coming1) = read_once(held, coming, capacities[0]);
        read_loses_nothing(held, coming, capacities[0]);
        let (rest, held2, coming2) = read_all(held1, coming1, capacities.drop_first());
        reads_lose_nothing(held1, coming1, capacities.drop_first());
        assert((out + rest) + held2 + flat(coming2) =~= out + (rest + held2 + flat(coming2)));
        assert(out + (held1 + flat(coming1)) =~= out + held1 + flat(coming1));
    }
}

/// A read hands out all that is held and fits, and takes no further chunk for it;
/// it passes over chunks that are empty.
pub proof fn read_fills_what_fits(held: Seq<u8>, coming: Seq<Seq<u8>>, capacity: nat)
    ensures
        ({
            let (out, held1, coming1) = read_once(held, coming, capacity);
            &&& held.len() > 0 ==> coming1 == coming
            &&& 0 < held.len() <= capacity ==> out == held && held1.len() == 0
            &&& 0 < capacity < held.len() ==> out.len() == capacity && out + held1 == held
            &&& held.len() == 0 && coming.len() > 0 ==> read_once(held, coming, capacity)
                == read_once(coming[0], coming.drop_first(), capacity)
        }),
{
    if held.len() > 0 {
        let n = least(held.len(), capacity) as int;
        assert(held.take(n) + held.skip(n) =~= held);
        if held.len() <= capacity {
            assert(held.take(n) =~= held);
        }
    }
}

/// The command is handed to the shell whole and as it stands, as the last
/// argument and behind the option that announces it; on Windows the switch to
/// UTF-8 goes before it.
pub proof fn command_is_handed_over(s: Surroundings, command: Seq<char>)
    ensures
        ({
            let p = exec_plan(s, command);
            &&& p.args.len() == 2
            &&& !s.windows ==> p.program == "/bin/sh"@ && p.args[0] == "-c"@ && p.args[1] == command
            &&& s.windows ==> p.args[0] == "/c"@ && p.args[1] == "chcp 65001 >nul && "@ + command
            &&& s.windows ==> p.args[1].skip("chcp 65001 >nul && "@.len() as int) == command
            &&& s.windows ==> (s.comspec matches Some(c) ==> p.program == c@)
            &&& p.env.contains(("LANG"@, "C.UTF-8"@))
            &&& p.env.contains(("LC_ALL"@, "C.UTF-8"@))
        }),
{
    let p = exec_plan(s, command);
    assert(p.env[0] == ("LANG"@, "C.UTF-8"@));
    assert(p.env[1] == ("LC_ALL"@, "C.UTF-8"@));
    assert(("chcp 65001 >nul && "@ + command).skip("chcp 65001 >nul && "@.len() as int)
        =~= command);
}

/// The shell is `bash` where there is one, and on Windows the one that the
/// surroundings name. It takes no arguments, and finds a terminal type, a home and
/// UTF-8 in its environment, and nowhere to keep a history.
pub proof fn shell_is_the_one_at_hand(s: Surroundings)
    ensures
        ({
            let p = shell_plan(s);
            &&& p.args.len() == 0
            &&& !s.windows && s.has_bash ==> p.program == "/bin/bash"@
            &&& !s.windows && !s.has_bash ==> p.program == "/bin/sh"@
            &&& s.windows ==> (s.comspec matches Some(c) ==> p.program == c@)
            &&& s.windows && s.comspec is None ==> (s.system_root matches Some(r) ==> p.program
                == r@ + "\\System32\\cmd.exe"@)
            &&& s.windows ==> p.env.len() == 0
            &&& !s.windows ==> {
                &&& p.env.len() == 5
                &&& p.env.contains(("TERM"@, "xterm-256color"@))
                &&& s.home matches Some(h) ==> p.env.contains(("HOME"@, h@))
                &&& s.home is None ==> p.env.contains(("HOME"@, "/root"@))
                &&& p.env.contains(("LANG"@, "C.UTF-8"@))
                &&& p.env.contains(("LC_ALL"@, "C.UTF-8"@))
                &&& p.env.contains(("HISTFILE"@, "/dev/null"@))
            }
        }),
{
    let p = shell_plan(s);
    if !s.windows {
        assert(p.env[0] == ("TERM"@, "xterm-256color"@));
        assert(p.env[1] == ("HOME"@, value_or(s.home, "/root"@)));
        assert(p.env[2] == ("LANG"@, "C.UTF-8"@));
        assert(p.env[3] == ("LC_ALL"@, "C.UTF-8"@));
        assert(p.env[4] == ("HISTFILE"@, "/dev/null"@));
    }
}

} // verus!
