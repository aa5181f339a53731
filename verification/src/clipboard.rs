//! Copying a text to the clipboard: by a tool where there is one, or else by a
//! sequence that the terminal understands.

use vstd::prelude::*;

#[allow(unused_imports)]
use crate::text::{join, str_views, trim, views};
use crate::text::{concat2, concat3, join_all, same, trim_of};

verus! {

// ---------------------------------------------------------------------------
// The tools
// ---------------------------------------------------------------------------

/// A tool and its arguments.
pub type Tool = (Seq<char>, Seq<Seq<char>>);

/// The tools with their arguments, as texts.
pub open spec fn tools(list: Seq<(&'static str, Vec<&'static str>)>) -> Seq<Tool> {
    list.map_values(|tool: (&'static str, Vec<&'static str>)| (tool.0@, str_views(tool.1@)))
}

/// The tool of Wayland.
pub open spec fn wl_copy() -> Tool {
    ("wl-copy"@, Seq::empty())
}

/// The tools of X11.
pub open spec fn x11_tools() -> Seq<Tool> {
    seq![
        ("xclip"@, seq!["-selection"@, "clipboard"@]),
        ("xsel"@, seq!["--clipboard"@, "--input"@]),
    ]
}

/// The tools that are tried, in order. The tools of a display are left out only
/// where the other display is there and this one is not.
pub open spec fn tools_for(has_wayland: bool, has_x11: bool) -> Seq<Tool> {
    (if has_wayland || !has_x11 {
        seq![wl_copy()]
    } else {
        Seq::empty()
    }) + (if has_x11 || !has_wayland {
        x11_tools()
    } else {
        Seq::empty()
    }) + seq![("pbcopy"@, Seq::empty())]
}

fn push_tool(
    list: &mut Vec<(&'static str, Vec<&'static str>)>,
    program: &'static str,
    args: Vec<&'static str>,
)
    ensures
        tools(final(list)@) == tools(old(list)@).push((program@, str_views(args@))),
{
    let ghost was = tools(list@);
    let ghost added = (program@, str_views(args@));
    list.push((program, args));
    assert(tools(list@) =~= was.push(added));
}

fn push_wl_copy(list: &mut Vec<(&'static str, Vec<&'static str>)>)
    ensures
        tools(final(list)@) == tools(old(list)@).push(wl_copy()),
{
    let none: Vec<&'static str> = Vec::new();
    assert(str_views(none@) =~= Seq::empty());
    push_tool(list, "wl-copy", none);
}

fn push_x11_tools(list: &mut Vec<(&'static str, Vec<&'static str>)>)
    ensures
        tools(final(list)@) == tools(old(list)@) + x11_tools(),
{
    let ghost was = tools(list@);
    let selection: Vec<&'static str> = vec!["-selection", "clipboard"];
    assert(str_views(selection@) =~= seq!["-selection"@, "clipboard"@]);
    push_tool(list, "xclip", selection);
    let input: Vec<&'static str> = vec!["--clipboard", "--input"];
    assert(str_views(input@) =~= seq!["--clipboard"@, "--input"@]);
    push_tool(list, "xsel", input);
    assert(tools(list@) =~= was + x11_tools());
}

/// The tools that are tried, in order.
pub fn clipboard_commands_for(has_wayland: bool, has_x11: bool) -> (r: Vec<
    (&'static str, Vec<&'static str>),
>)
    ensures
        tools(r@) == tools_for(has_wayland, has_x11),
{
    let mut list: Vec<(&'static str, Vec<&'static str>)> = Vec::new();
    if has_wayland || !has_x11 {
        push_wl_copy(&mut list);
    }
    if has_x11 || !has_wayland {
        push_x11_tools(&mut list);
    }
    let none: Vec<&'static str> = Vec::new();
    assert(str_views(none@) =~= Seq::empty());
    push_tool(&mut list, "pbcopy", none);
    assert(tools(list@) =~= tools_for(has_wayland, has_x11));
    list
}

/// The tools that keep running for as long as they hold the clipboard.
pub open spec fn stays_running(program: Seq<char>) -> bool {
    program == "xclip"@ || program == "xsel"@
}

/// Whether a tool keeps running for as long as it holds the clipboard.
pub fn clipboard_owner_stays_running(program: &str) -> (r: bool)
    ensures
        r == stays_running(program@),
{
    same(program, "xclip") || same(program, "xsel")
}

// ---------------------------------------------------------------------------
// One copy
// ---------------------------------------------------------------------------

/// What has to be done next.
#[derive(Debug, PartialEq, Eq)]
pub enum Ask {
    /// Start the next tool.
    Start,
    /// Write the text to the tool that was started.
    Write,
    /// Wait for the tool to end.
    Wait,
    /// Send the text to the terminal.
    Terminal,
    /// The copy was made by this means.
    Copied(String),
    /// The copy was not made, for this reason.
    Failed(String),
}

/// What became of it.
#[derive(Debug)]
pub enum Answer {
    /// The tool was started.
    Started,
    /// There is no such tool.
    NotFound,
    /// The tool could not be started.
    StartFailed(String),
    /// The text was written.
    Written,
    /// The text could not be written.
    WriteFailed(String),
    /// The tool ended: whether it succeeded, how it ended, and what it wrote to
    /// its error output.
    Ended { success: bool, status: String, stderr: String },
    /// The tool could not be waited for.
    WaitFailed(String),
    /// The text was sent to the terminal.
    Sent,
    /// The text could not be sent to the terminal.
    SendFailed(String),
}

/// A copy under way: the tools, the one that is tried, and what went wrong.
pub struct Copying {
    commands: Vec<(&'static str, Vec<&'static str>)>,
    next: usize,
    failures: Vec<String>,
}

/// A copy under way.
#[verifier::ext_equal]
pub struct CopyState {
    pub tools: Seq<Tool>,
    pub next: int,
    pub failures: Seq<Seq<char>>,
}

/// What has to be done next.
pub enum Need {
    Start,
    Write,
    Wait,
    Terminal,
    Copied(Seq<char>),
    Failed(Seq<char>),
}

impl View for Copying {
    type V = CopyState;

    closed spec fn view(&self) -> CopyState {
        CopyState {
            tools: tools(self.commands@),
            next: self.next as int,
            failures: views(self.failures@),
        }
    }
}

impl View for Ask {
    type V = Need;

    open spec fn view(&self) -> Need {
        match self {
            Ask::Start => Need::Start,
            Ask::Write => Need::Write,
            Ask::Wait => Need::Wait,
            Ask::Terminal => Need::Terminal,
            Ask::Copied(means) => Need::Copied(means@),
            Ask::Failed(why) => Need::Failed(why@),
        }
    }
}

/// Whether an answer speaks of a tool.
pub open spec fn of_tool(answer: Answer) -> bool {
    !(answer is Sent || answer is SendFailed)
}

impl CopyState {
    /// The tool that is tried.
    pub open spec fn program(self) -> Seq<char> {
        self.tools[self.next].0
    }

    /// What has to be done: the next tool started, or the text sent to the
    /// terminal where no tool is left.
    pub open spec fn need(self) -> Need {
        if self.next < self.tools.len() {
            Need::Start
        } else {
            Need::Terminal
        }
    }

    /// The next tool tried.
    pub open spec fn advanced(self) -> (CopyState, Need) {
        let state = CopyState { next: self.next + 1, ..self };
        (state, state.need())
    }

    /// The next tool tried, and this remembered of the one before.
    pub open spec fn failed(self, why: Seq<char>) -> (CopyState, Need) {
        CopyState { failures: self.failures.push(self.program() + why), ..self }.advanced()
    }

    /// What an answer leads to.
    pub open spec fn answered(self, answer: Answer) -> (CopyState, Need) {
        match answer {
            Answer::Started => (self, Need::Write),
            Answer::NotFound => self.advanced(),
            Answer::StartFailed(err) => self.failed(": failed to start: "@ + err@),
            Answer::Written => if stays_running(self.program()) {
                (self, Need::Copied(self.program()))
            } else {
                (self, Need::Wait)
            },
            Answer::WriteFailed(err) => self.failed(": failed to write selection: "@ + err@),
            Answer::Ended { success, status, stderr } => if success {
                (self, Need::Copied(self.program()))
            } else if trim(stderr@).len() == 0 {
                self.failed(": exited with "@ + status@)
            } else {
                self.failed(": "@ + trim(stderr@))
            },
            Answer::WaitFailed(err) => self.failed(": failed to wait: "@ + err@),
            Answer::Sent => (self, Need::Copied("OSC 52"@)),
            Answer::SendFailed(err) => if self.failures.len() == 0 {
                (self, Need::Failed(err@))
            } else {
                (
                    self,
                    Need::Failed(
                        "clipboard tools failed ("@ + join(self.failures, "; "@)
                            + "); OSC 52 failed: "@ + err@,
                    ),
                )
            },
        }
    }
}

impl Copying {
    /// A copy that tries tools in order.
    pub fn new(commands: Vec<(&'static str, Vec<&'static str>)>) -> (r: (Copying, Ask))
        ensures
            r.0@ == (CopyState { tools: tools(commands@), next: 0, failures: Seq::empty() }),
            r.1@ == r.0@.need(),
    {
        let copying = Copying { commands, next: 0, failures: Vec::new() };
        assert(copying@.failures =~= Seq::empty());
        let ask = copying.ask();
        (copying, ask)
    }

    fn ask(&self) -> (r: Ask)
        ensures
            r@ == self@.need(),
    {
        if self.next < self.commands.len() {
            Ask::Start
        } else {
            Ask::Terminal
        }
    }

    /// The tool that is tried, and its arguments.
    pub fn command(&self) -> (r: Option<(&'static str, &Vec<&'static str>)>)
        ensures
            match r {
                Some(tool) => self@.next < self@.tools.len() && (tool.0@, str_views(tool.1@))
                    == self@.tools[self@.next],
                None => self@.next >= self@.tools.len(),
            },
    {
        if self.next < self.commands.len() {
            let tool = &self.commands[self.next];
            Some((tool.0, &tool.1))
        } else {
            None
        }
    }

    /// Takes in what became of what was to be done, and returns what has to be
    /// done next.
    pub fn answer(&mut self, answer: Answer) -> (r: Ask)
        requires
            of_tool(answer) ==> old(self)@.next < old(self)@.tools.len(),
        ensures
            old(self)@.answered(answer).0 == final(self)@,
            old(self)@.answered(answer).1 == r@,
    {
        match answer {
            Answer::Started => Ask::Write,
            Answer::NotFound => self.advance(),
            Answer::StartFailed(err) => {
                let why = concat2(": failed to start: ", err.as_str());
                self.fail(why.as_str())
            },
            Answer::Written => {
                let program = self.commands[self.next].0;
                if clipboard_owner_stays_running(program) {
                    Ask::Copied(program.to_string())
                } else {
                    Ask::Wait
                }
            },
            Answer::WriteFailed(err) => {
                let why = concat2(": failed to write selection: ", err.as_str());
                self.fail(why.as_str())
            },
            Answer::Ended { success, status, stderr } => {
                if success {
                    return Ask::Copied(self.commands[self.next].0.to_string());
                }
                let message = trim_of(stderr.as_str());
                let why = if message.as_str().is_empty() {
                    concat2(": exited with ", status.as_str())
                } else {
                    concat2(": ", message.as_str())
                };
                self.fail(why.as_str())
            },
            Answer::WaitFailed(err) => {
                let why = concat2(": failed to wait: ", err.as_str());
                self.fail(why.as_str())
            },
            Answer::Sent => Ask::Copied("OSC 52".to_string()),
            Answer::SendFailed(err) => {
                if self.failures.len() == 0 {
                    Ask::Failed(err)
                } else {
                    let list = join_all(&self.failures, "; ");
                    let head = concat3(
                        "clipboard tools failed (",
                        list.as_str(),
                        "); OSC 52 failed: ",
                    );
                    Ask::Failed(concat2(head.as_str(), err.as_str()))
                }
            },
        }
    }

    fn advance(&mut self) -> (r: Ask)
        requires
            old(self)@.next < old(self)@.tools.len(),
        ensures
            old(self)@.advanced().0 == final(self)@,
            old(self)@.advanced().1 == r@,
    {
        let _count: usize = self.commands.len();
        self.next = self.next + 1;
        self.ask()
    }

    fn fail(&mut self, why: &str) -> (r: Ask)
        requires
            old(self)@.next < old(self)@.tools.len(),
        ensures
            old(self)@.failed(why@).0 == final(self)@,
            old(self)@.failed(why@).1 == r@,
    {
        let ghost before = self@;
        let text = concat2(self.commands[self.next].0, why);
        let ghost added = text@;
        self.failures.push(text);
        assert(self@.failures =~= before.failures.push(added));
        self.advance()
    }
}

// ---------------------------------------------------------------------------
// The sequence for the terminal
// ---------------------------------------------------------------------------

/// The character for six bits.
pub open spec fn base64_char(n: int) -> char {
    if n < 26 {
        ('A' as u8 + n) as char
    } else if n < 52 {
        ('a' as u8 + (n - 26)) as char
    } else if n < 62 {
        ('0' as u8 + (n - 52)) as char
    } else if n == 62 {
        '+'
    } else {
        '/'
    }
}

/// Bytes in base 64: three bytes are four characters of six bits each. One or
/// two bytes at the end are filled up with zero bits, and with equal signs.
pub open spec fn base64(bytes: Seq<u8>) -> Seq<char>
    decreases bytes.len(),
{
    if bytes.len() == 0 {
        Seq::empty()
    } else {
        let a = bytes[0] as int;
        let b = if bytes.len() > 1 {
            bytes[1] as int
        } else {
            0
        };
        let c = if bytes.len() > 2 {
            bytes[2] as int
        } else {
            0
        };
        seq![
            base64_char(a / 4),
            base64_char(a % 4 * 16 + b / 16),
            if bytes.len() > 1 {
                base64_char(b % 16 * 4 + c / 64)
            } else {
                '='
            },
            if bytes.len() > 2 {
                base64_char(c % 64)
            } else {
                '='
            },
        ] + base64(
            bytes.skip(
                if bytes.len() > 3 {
                    3
                } else {
                    bytes.len() as int
                },
            ),
        )
    }
}

fn sextet(n: u8) -> (r: char)
    requires
        n < 64,
    ensures
        r == base64_char(n as int),
{
    if n < 26 {
        (65u8 + n) as char
    } else if n < 52 {
        (97u8 + (n - 26)) as char
    } else if n < 62 {
        (48u8 + (n - 52)) as char
    } else if n == 62 {
        '+'
    } else {
        '/'
    }
}

/// Bytes in base 64.
pub fn base64_encode(input: &[u8]) -> (r: String)
    ensures
        r@ == base64(input@),
{
    let mut output: String = String::new();
    let n: usize = input.len();
    let mut i: usize = 0;
    assert(input@.skip(0) =~= input@);
    assert(output@ + base64(input@) =~= base64(input@));
    while i < n
        invariant
            i <= n == input@.len(),
            output@ + base64(input@.skip(i as int)) == base64(input@),
        decreases n - i,
    {
        let ghost was = output@;
        let ghost rest = input@.skip(i as int);
        let left: usize = n - i;
        let first: u8 = input[i];
        let second: u8 = if left > 1 {
            input[i + 1]
        } else {
            0
        };
        let third: u8 = if left > 2 {
            input[i + 2]
        } else {
            0
        };
        output.push(sextet(first / 4));
        output.push(sextet(first % 4 * 16 + second / 16));
        if left > 1 {
            output.push(sextet(second % 16 * 4 + third / 64));
        } else {
            output.push('=');
        }
        if left > 2 {
            output.push(sextet(third % 64));
        } else {
            output.push('=');
        }
        let step: usize = if left > 3 {
            3
        } else {
            left
        };
        assert(rest.skip(step as int) =~= input@.skip(i + step));
        assert(output@ + base64(rest.skip(step as int)) =~= was + base64(rest));
        i = i + step;
    }
    assert(base64(input@.skip(i as int)) =~= Seq::empty());
    assert(output@ + base64(input@.skip(i as int)) =~= output@);
    output
}

/// The sequence that hands a text to the clipboard of the terminal. Within
/// `tmux` it is wrapped, so that it reaches the terminal outside.
pub open spec fn osc52(bytes: Seq<u8>, in_tmux: bool) -> Seq<char> {
    if in_tmux {
        "\x1bPtmux;\x1b\x1b]52;c;"@ + base64(bytes) + "\x07\x1b\\"@
    } else {
        "\x1b]52;c;"@ + base64(bytes) + "\x07"@
    }
}

/// The sequence that hands a text to the clipboard of the terminal.
pub fn osc52_sequence(text: &[u8], in_tmux: bool) -> (r: String)
    ensures
        r@ == osc52(text@, in_tmux),
{
    let payload = base64_encode(text);
    if in_tmux {
        concat3("\x1bPtmux;\x1b\x1b]52;c;", payload.as_str(), "\x07\x1b\\")
    } else {
        concat3("\x1b]52;c;", payload.as_str(), "\x07")
    }
}

// ---------------------------------------------------------------------------
// Laws
// ---------------------------------------------------------------------------

/// The six bits of a character.
pub open spec fn base64_value(c: char) -> int {
    if 'A' <= c <= 'Z' {
        c as u8 - 'A' as u8
    } else if 'a' <= c <= 'z' {
        c as u8 - 'a' as u8 + 26
    } else if '0' <= c <= '9' {
        c as u8 - '0' as u8 + 52
    } else if c == '+' {
        62
    } else {
        63
    }
}

/// The bytes that a text in base 64 stands for.
pub open spec fn base64_bytes(text: Seq<char>) -> Seq<u8>
    decreases text.len(),
{
    if text.len() < 4 {
        Seq::empty()
    } else {
        let w = base64_value(text[0]);
        let x = base64_value(text[1]);
        let y = base64_value(text[2]);
        let z = base64_value(text[3]);
        let first = (w * 4 + x / 16) as u8;
        let second = (x % 16 * 16 + y / 4) as u8;
        let third = (y % 4 * 64 + z) as u8;
        (if text[2] == '=' {
            seq![first]
        } else if text[3] == '=' {
            seq![first, second]
        } else {
            seq![first, second, third]
        }) + base64_bytes(text.skip(4))
    }
}

/// A character stands for its six bits, and for nothing else.
proof fn lemma_base64_char(n: int)
    requires
        0 <= n < 64,
    ensures
        base64_value(base64_char(n)) == n,
        base64_char(n) != '=',
{
}

/// What the terminal is handed decodes to the text that was copied.
pub proof fn law_base64_round_trip(bytes: Seq<u8>)
    ensures
        base64_bytes(base64(bytes)) == bytes,
    decreases bytes.len(),
{
    if bytes.len() > 0 {
        let a = bytes[0] as int;
        let b = if bytes.len() > 1 {
            bytes[1] as int
        } else {
            0
        };
        let c = if bytes.len() > 2 {
            bytes[2] as int
        } else {
            0
        };
        let step = if bytes.len() > 3 {
            3
        } else {
            bytes.len() as int
        };
        lemma_base64_char(a / 4);
        lemma_base64_char(a % 4 * 16 + b / 16);
        lemma_base64_char(b % 16 * 4 + c / 64);
        lemma_base64_char(c % 64);
        let rest = bytes.skip(step);
        law_base64_round_trip(rest);
        let text = base64(bytes);
        assert(text.skip(4) =~= base64(rest));
        assert(bytes.take(step) + rest =~= bytes);
        if bytes.len() == 1 {
            assert(bytes.take(step) =~= seq![bytes[0]]);
        } else if bytes.len() == 2 {
            assert(bytes.take(step) =~= seq![bytes[0], bytes[1]]);
        } else {
            assert(bytes.take(step) =~= seq![bytes[0], bytes[1], bytes[2]]);
        }
    }
}

/// A tool is tried only after those before it, and each tool once: an answer
/// leaves the list alone, and goes on to the next tool or stays at this one.
pub proof fn law_tools_in_order(state: CopyState, answer: Answer)
    ensures
        state.answered(answer).0.tools == state.tools,
        state.next <= state.answered(answer).0.next <= state.next + 1,
        state.answered(answer).1 is Start ==> state.answered(answer).0.next == state.next + 1,
        state.answered(answer).1 is Terminal ==> state.answered(answer).0.next
            >= state.tools.len(),
{
}

/// The tools of the display that is there are tried first, those of Wayland before those
/// of X11, and that of macOS last. Where no display or both are there, all are tried.
pub proof fn law_tools_of_displays()
    ensures
        ({
            let both = tools_for(true, true);
            let none = tools_for(false, false);
            let wayland = tools_for(true, false);
            let x11 = tools_for(false, true);
            &&& both.len() == 4 && none == both
            &&& both[0] == ("wl-copy"@, Seq::<Seq<char>>::empty())
            &&& both[1] == ("xclip"@, seq!["-selection"@, "clipboard"@])
            &&& both[2] == ("xsel"@, seq!["--clipboard"@, "--input"@])
            &&& both[3] == ("pbcopy"@, Seq::<Seq<char>>::empty())
            &&& wayland.len() == 2 && wayland[0] == both[0] && wayland[1] == both[3]
            &&& x11.len() == 3 && x11[0] == both[1] && x11[1] == both[2] && x11[2] == both[3]
        }),
{
}

/// A tool that is there is started, handed the text, and waited for, unless it holds the
/// clipboard for as long as it runs; when it has ended well, the text is copied by it. A
/// tool that is not there is passed over without a word.
pub proof fn law_tool_copies(state: CopyState, status: String, stderr: String)
    requires
        0 <= state.next < state.tools.len(),
    ensures
        ({
            let program = state.tools[state.next].0;
            let done = Answer::Ended { success: true, status, stderr };
            &&& state.answered(Answer::Started) == (state, Need::Write)
            &&& program == "xclip"@ || program == "xsel"@ ==> state.answered(Answer::Written) == (
                state,
                Need::Copied(program),
            )
            &&& program != "xclip"@ && program != "xsel"@ ==> state.answered(Answer::Written) == (
                state,
                Need::Wait,
            )
            &&& state.answered(done) == (state, Need::Copied(program))
            &&& state.answered(Answer::NotFound).0 == (CopyState { next: state.next + 1, ..state })
            &&& state.answered(Answer::NotFound).1 == (if state.next + 1 < state.tools.len() {
                Need::Start
            } else {
                Need::Terminal
            })
        }),
{
}

/// What went wrong with a tool is kept under its name, and the next tool is tried.
pub proof fn law_failures_are_kept(state: CopyState, err: String, status: String, stderr: String)
    requires
        0 <= state.next < state.tools.len(),
    ensures
        ({
            let program = state.tools[state.next].0;
            let kept = |answer: Answer, why: Seq<char>|
                {
                    let (after, need) = state.answered(answer);
                    &&& after.next == state.next + 1
                    &&& after.tools == state.tools
                    &&& after.failures.len() == state.failures.len() + 1
                    &&& after.failures.take(state.failures.len() as int) == state.failures
                    &&& after.failures.last() == program + why
                    &&& need == (if state.next + 1 < state.tools.len() {
                        Need::Start
                    } else {
                        Need::Terminal
                    })
                };
            let ended = Answer::Ended { success: false, status, stderr };
            &&& kept(Answer::StartFailed(err), ": failed to start: "@ + err@)
            &&& kept(Answer::WriteFailed(err), ": failed to write selection: "@ + err@)
            &&& kept(Answer::WaitFailed(err), ": failed to wait: "@ + err@)
            &&& trim(stderr@).len() > 0 ==> kept(ended, ": "@ + trim(stderr@))
            &&& trim(stderr@).len() == 0 ==> kept(ended, ": exited with "@ + status@)
        }),
{
    assert forall|why: Seq<char>| #[trigger]
        state.failures.push(why).take(state.failures.len() as int) == state.failures by {
        assert(state.failures.push(why).take(state.failures.len() as int) =~= state.failures);
    }
}

/// Behind all tools the terminal is handed the text. Where it cannot take it, that is told,
/// and all that went wrong with the tools before it.
pub proof fn law_terminal_comes_last(state: CopyState, err: String)
    ensures
        state.answered(Answer::Sent) == (state, Need::Copied("OSC 52"@)),
        state.failures.len() == 0 ==> state.answered(Answer::SendFailed(err)) == (
            state,
            Need::Failed(err@),
        ),
        state.failures.len() == 1 ==> state.answered(Answer::SendFailed(err)) == (
            state,
            Need::Failed(
                "clipboard tools failed ("@ + state.failures[0] + "); OSC 52 failed: "@ + err@,
            ),
        ),
        state.failures.len() == 2 ==> state.answered(Answer::SendFailed(err)) == (
            state,
            Need::Failed(
                "clipboard tools failed ("@ + (state.failures[0] + "; "@ + state.failures[1])
                    + "); OSC 52 failed: "@ + err@,
            ),
        ),
{
    reveal_with_fuel(join, 3);
}

/// The terminal is handed the text between the sequence that names the clipboard and a
/// bell; `tmux` is told to pass that on, with the escape in it doubled.
pub proof fn law_terminal_sequence(bytes: Seq<u8>)
    ensures
        osc52(bytes, false) == "\x1b]52;c;"@ + base64(bytes) + "\x07"@,
        osc52(bytes, true) == "\x1bPtmux;"@ + ("\x1b"@ + osc52(bytes, false)) + "\x1b\\"@,
{
    reveal_strlit("\x1b]52;c;");
    reveal_strlit("\x07");
    reveal_strlit("\x1bPtmux;");
    reveal_strlit("\x1b");
    reveal_strlit("\x1b\\");
    reveal_strlit("\x1bPtmux;\x1b\x1b]52;c;");
    reveal_strlit("\x07\x1b\\");
    assert(osc52(bytes, true) =~= "\x1bPtmux;"@ + ("\x1b"@ + osc52(bytes, false)) + "\x1b\\"@);
}

} // verus!
