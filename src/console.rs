//! The engine-independent part of an in-game console: the prompt, the
//! history of input and output lines, and the commands that read and write
//! variables by name.
use vstd::prelude::*;

use crate::registry::{error_text, get_string_spec, set_str_spec, FieldView, SetGet};
use crate::text::{split_words, str_eq, texts, words};

verus! {

/// A line in the console's history: typed by the user, or printed as the
/// result of a command.
pub struct HistoryLine {
    /// The line's text.
    pub text: String,
    /// Whether the line is input from the user rather than output.
    pub is_input: bool,
}

impl View for HistoryLine {
    type V = (Seq<char>, bool);

    open spec fn view(&self) -> (Seq<char>, bool) {
        (self.text@, self.is_input)
    }
}

impl HistoryLine {
    /// A history line with this text.
    pub fn new(text: String, is_input: bool) -> (r: HistoryLine)
        ensures
            r@ == (text@, is_input),
    {
        HistoryLine { text, is_input }
    }
}

/// The lines of `h`, as text and whether each is input.
pub open spec fn lines(h: Seq<HistoryLine>) -> Seq<(Seq<char>, bool)> {
    h.map_values(|l: HistoryLine| l@)
}

/// The last input line before `end`.
pub open spec fn last_input(h: Seq<(Seq<char>, bool)>, end: int) -> Option<int>
    decreases end,
{
    if end <= 0 {
        None
    } else if h[end - 1].1 {
        Some(end - 1)
    } else {
        last_input(h, end - 1)
    }
}

/// The first input line at `start` or after.
pub open spec fn next_input(h: Seq<(Seq<char>, bool)>, start: int) -> Option<int>
    decreases h.len() - start,
{
    if start >= h.len() || start < 0 {
        None
    } else if h[start].1 {
        Some(start)
    } else {
        next_input(h, start + 1)
    }
}

proof fn lemma_last_input_after(h: Seq<(Seq<char>, bool)>, end: int, j: int)
    requires
        end <= h.len(),
        last_input(h, end) == Some(j),
    ensures
        0 <= j < end,
        forall|k: int| j < k < end ==> !(#[trigger] h[k]).1,
    decreases end,
{
    if end > 0 && !h[end - 1].1 {
        lemma_last_input_after(h, end - 1, j);
    }
}

proof fn lemma_no_input_from(h: Seq<(Seq<char>, bool)>, start: int)
    requires
        0 <= start,
        forall|k: int| start <= k < h.len() ==> !(#[trigger] h[k]).1,
    ensures
        next_input(h, start) is None,
    decreases h.len() - start,
{
    if start < h.len() {
        lemma_no_input_from(h, start + 1);
    }
}

/// Starting from the end of the history, going back to the last input line
/// and then forward again finds no later input line: the walk ends and the
/// prompt saved at its start comes back.
pub proof fn lemma_back_then_forward(h: Seq<(Seq<char>, bool)>, j: int)
    requires
        last_input(h, h.len() as int) == Some(j),
    ensures
        next_input(h, j + 1) is None,
{
    lemma_last_input_after(h, h.len() as int, j);
    lemma_no_input_from(h, j + 1);
}

/// The lines that the `help` command prints.
pub open spec fn help_lines() -> Seq<Seq<char>> {
    seq![
        "Available actions:"@,
        "    help                 Print this message"@,
        "    <cvar name>          Print the cvar's value"@,
        "    <cvar name> <value>  Set the cvar's value"@,
    ]
}

/// Whether `w` is a word that asks for help.
pub open spec fn is_help(w: Seq<char>) -> bool {
    w == "help"@ || w == "?"@
}

/// The lines that running `cmd` against the variables `vars` prints as it runs: the help,
/// or the value of a variable.
pub open spec fn command_printed(vars: Seq<FieldView>, cmd: Seq<char>) -> Seq<Seq<char>> {
    let w = words(cmd);
    if w.len() == 0 {
        seq![]
    } else if is_help(w[0]) {
        help_lines()
    } else if w.len() == 1 {
        match get_string_spec(vars, w[0]) {
            Ok(v) => seq![v],
            Err(_) => seq![],
        }
    } else {
        seq![]
    }
}

/// Why running `cmd` against the variables `vars` fails, if it does: the variable cannot be
/// read or written, or the command has too many words.
pub open spec fn command_error(vars: Seq<FieldView>, cmd: Seq<char>) -> Option<Seq<char>> {
    let w = words(cmd);
    if w.len() == 0 || is_help(w[0]) {
        None
    } else if w.len() == 1 {
        match get_string_spec(vars, w[0]) {
            Ok(_) => None,
            Err(e) => Some(error_text(e)),
        }
    } else if w.len() > 2 {
        Some("expected only cvar name and value, found "@ + w[2])
    } else {
        match set_str_spec(vars, w[0], w[1]) {
            Ok(_) => None,
            Err(e) => Some(error_text(e)),
        }
    }
}

/// All the lines that entering `cmd` against the variables `vars` prints after the command
/// itself: what it prints as it runs, then why it failed.
pub open spec fn command_output(vars: Seq<FieldView>, cmd: Seq<char>) -> Seq<Seq<char>> {
    command_printed(vars, cmd) + match command_error(vars, cmd) {
        Some(m) => seq![m],
        None => seq![],
    }
}

/// Whether running `cmd` writes a variable: a name and a value.
pub open spec fn command_writes(cmd: Seq<char>) -> bool {
    let w = words(cmd);
    w.len() == 2 && !is_help(w[0])
}

/// `out` as output lines of the history.
pub open spec fn as_output(out: Seq<Seq<char>>) -> Seq<(Seq<char>, bool)> {
    out.map_values(|t: Seq<char>| (t, false))
}

/// What a `Console` is, as a mathematical object.
pub struct ConsoleView {
    pub prompt: Seq<char>,
    /// The prompt saved while the user walks through the history.
    pub saved: Option<Seq<char>>,
    /// The history line the prompt was taken from, while the user walks
    /// through the history.
    pub walk: Option<int>,
    pub history: Seq<(Seq<char>, bool)>,
    pub view_end: int,
}

impl ConsoleView {
    /// Whether the console's parts agree: the walk stands on a history line
    /// and has a prompt saved, and the view ends within the history.
    pub open spec fn wf(self) -> bool {
        &&& self.walk matches Some(i) ==> 0 <= i < self.history.len() && self.saved is Some
        &&& 0 <= self.view_end <= self.history.len()
    }
}

/// The engine-independent part of an in-game console.
pub struct Console {
    /// The current contents of the prompt.
    pub prompt: String,
    /// The prompt to restore after walking through the history.
    prompt_saved: Option<String>,
    /// Where the walk through the history of input lines stands.
    prompt_history_index: Option<usize>,
    /// Input and output lines, oldest first.
    pub history: Vec<HistoryLine>,
    /// One past the last history line shown at the bottom of the view.
    pub history_view_end: usize,
}

impl View for Console {
    type V = ConsoleView;

    closed spec fn view(&self) -> ConsoleView {
        ConsoleView {
            prompt: self.prompt@,
            saved: match self.prompt_saved {
                Some(s) => Some(s@),
                None => None,
            },
            walk: match self.prompt_history_index {
                Some(i) => Some(i as int),
                None => None,
            },
            history: lines(self.history@),
            view_end: self.history_view_end as int,
        }
    }
}

impl Console {
    /// A console with an empty prompt and no history.
    pub fn new() -> (r: Console)
        ensures
            r@.wf(),
            r@.prompt == Seq::<char>::empty(),
            r@.history.len() == 0,
            r@.view_end == 0,
            r@.saved is None,
            r@.walk is None,
    {
        Console {
            prompt: String::new(),
            prompt_saved: None,
            prompt_history_index: None,
            history: Vec::new(),
            history_view_end: 0,
        }
    }

    /// Replaces the text of the prompt, as typing does.
    pub fn set_prompt(&mut self, text: String)
        requires
            old(self)@.wf(),
        ensures
            final(self)@ == (ConsoleView { prompt: text@, ..old(self)@ }),
    {
        self.prompt = text;
    }

    /// Goes back to the previous input line in the history, saving the prompt
    /// where the walk starts.
    pub fn history_back(&mut self)
        requires
            old(self)@.wf(),
        ensures
            final(self)@.wf(),
            final(self)@.history == old(self)@.history,
            final(self)@.view_end == old(self)@.view_end,
            match last_input(
                old(self)@.history,
                match old(self)@.walk {
                    Some(i) => i,
                    None => old(self)@.history.len() as int,
                },
            ) {
                Some(j) => {
                    &&& final(self)@.walk == Some(j)
                    &&& final(self)@.prompt == old(self)@.history[j].0
                    &&& final(self)@.saved == if old(self)@.saved is Some {
                        old(self)@.saved
                    } else {
                        Some(old(self)@.prompt)
                    }
                },
                None => {
                    &&& final(self)@.walk == old(self)@.walk
                    &&& final(self)@.prompt == old(self)@.prompt
                    &&& final(self)@.saved == old(self)@.saved
                },
            },
    {
        let end: usize = match self.prompt_history_index {
            Some(i) => i,
            None => self.history.len(),
        };
        let ghost h = lines(self.history@);
        let mut k: usize = end;
        while k > 0 && !self.history[k - 1].is_input
            invariant
                k <= end <= self.history@.len(),
                h == lines(self.history@),
                last_input(h, end as int) == last_input(h, k as int),
            decreases k,
        {
            assert(h[k - 1] == self.history@[k - 1]@);
            k = k - 1;
        }
        if k > 0 {
            assert(h[k - 1] == self.history@[k - 1]@);
            let new_index = k - 1;
            self.prompt_history_index = Some(new_index);
            if self.prompt_saved.is_none() {
                self.prompt_saved = Some(self.prompt.clone());
            }
            self.prompt = self.history[new_index].text.clone();
        }
    }

    /// Goes forward to the next input line in the history, and past the
    /// last one back to the saved prompt.
    pub fn history_forward(&mut self)
        requires
            old(self)@.wf(),
        ensures
            final(self)@.wf(),
            final(self)@.history == old(self)@.history,
            final(self)@.view_end == old(self)@.view_end,
            match old(self)@.walk {
                None => {
                    &&& final(self)@.walk is None
                    &&& final(self)@.prompt == old(self)@.prompt
                    &&& final(self)@.saved == old(self)@.saved
                },
                Some(i) => match next_input(old(self)@.history, i + 1) {
                    Some(j) => {
                        &&& final(self)@.walk == Some(j)
                        &&& final(self)@.prompt == old(self)@.history[j].0
                        &&& final(self)@.saved == old(self)@.saved
                    },
                    None => {
                        &&& final(self)@.walk is None
                        &&& Some(final(self)@.prompt) == old(self)@.saved
                        &&& final(self)@.saved is None
                    },
                },
            },
    {
        if let Some(index) = self.prompt_history_index {
            let n = self.history.len();
            let begin = index + 1;
            let ghost h = lines(self.history@);
            let mut k: usize = begin;
            while k < n && !self.history[k].is_input
                invariant
                    begin <= k <= n,
                    n == self.history@.len(),
                    h == lines(self.history@),
                    next_input(h, begin as int) == next_input(h, k as int),
                decreases n - k,
            {
                assert(h[k as int] == self.history@[k as int]@);
                k = k + 1;
            }
            if k < n {
                assert(h[k as int] == self.history@[k as int]@);
                self.prompt_history_index = Some(k);
                self.prompt = self.history[k].text.clone();
            } else {
                self.prompt_history_index = None;
                let saved = self.prompt_saved.take();
                match saved {
                    Some(p) => self.prompt = p,
                    None => {},
                }
            }
        }
    }

    /// Scrolls the history view up by `count` lines, keeping one line in
    /// view where there is one.
    pub fn history_scroll_up(&mut self, count: usize)
        requires
            old(self)@.wf(),
        ensures
            final(self)@.wf(),
            final(self)@.prompt == old(self)@.prompt,
            final(self)@.history == old(self)@.history,
            final(self)@.saved == old(self)@.saved,
            final(self)@.walk == old(self)@.walk,
            final(self)@.view_end == if old(self)@.view_end > count {
                old(self)@.view_end - count
            } else if old(self)@.history.len() > 0 {
                1
            } else {
                0
            },
    {
        self.history_view_end = self.history_view_end.saturating_sub(count);
        if self.history_view_end == 0 && self.history.len() > 0 {
            self.history_view_end = 1;
        }
    }

    /// Scrolls the history view down by `count` lines, up to the last line.
    pub fn history_scroll_down(&mut self, count: usize)
        requires
            old(self)@.wf(),
        ensures
            final(self)@.wf(),
            final(self)@.prompt == old(self)@.prompt,
            final(self)@.history == old(self)@.history,
            final(self)@.saved == old(self)@.saved,
            final(self)@.walk == old(self)@.walk,
            final(self)@.view_end == if old(self)@.view_end + count
                < old(self)@.history.len() {
                old(self)@.view_end + count
            } else {
                old(self)@.history.len() as int
            },
    {
        let len = self.history.len();
        if count < len - self.history_view_end {
            self.history_view_end = self.history_view_end + count;
        } else {
            self.history_view_end = len;
        }
    }

    /// Prints a line in the console and saves it to the history as output.
    pub fn print(&mut self, text: &str)
        requires
            old(self)@.wf(),
        ensures
            final(self)@.wf(),
            final(self)@.prompt == old(self)@.prompt,
            final(self)@.saved == old(self)@.saved,
            final(self)@.walk == old(self)@.walk,
            final(self)@.history == old(self)@.history.push((text@, false)),
            final(self)@.view_end == old(self)@.view_end + 1,
    {
        self.push_history_line(text.to_owned(), false);
    }

    /// Prints a line in the console and saves it to the history as input.
    fn print_input(&mut self, text: &str)
        requires
            old(self)@.wf(),
        ensures
            final(self)@.wf(),
            final(self)@.prompt == old(self)@.prompt,
            final(self)@.saved == old(self)@.saved,
            final(self)@.walk == old(self)@.walk,
            final(self)@.history == old(self)@.history.push((text@, true)),
            final(self)@.view_end == old(self)@.view_end + 1,
    {
        self.push_history_line(text.to_owned(), true);
    }

    fn push_history_line(&mut self, text: String, is_input: bool)
        requires
            old(self)@.wf(),
        ensures
            final(self)@.wf(),
            final(self)@.prompt == old(self)@.prompt,
            final(self)@.saved == old(self)@.saved,
            final(self)@.walk == old(self)@.walk,
            final(self)@.history == old(self)@.history.push((text@, is_input)),
            final(self)@.view_end == old(self)@.view_end + 1,
    {
        let ghost before = self.history@;
        let hist_line = HistoryLine::new(text, is_input);
        self.history.push(hist_line);
        assert(lines(self.history@) =~= lines(before).push((text@, is_input)));
        let len = self.history.len();
        assert(self.history_view_end < len);
        self.history_view_end = self.history_view_end + 1;
    }

    /// The user pressed enter: runs the prompt's text as a command, with the
    /// text and what the command prints added to the history.
    pub fn enter<C: SetGet + ?Sized>(&mut self, cvars: &mut C)
        requires
            old(self)@.wf(),
        ensures
            final(self)@.wf(),
            final(self)@.prompt == Seq::<char>::empty(),
            final(self)@.saved is None,
            final(self)@.walk is None,
            final(self)@.history == old(self)@.history.push((old(self)@.prompt, true))
                + as_output(command_output(old(cvars).vars(), old(self)@.prompt)),
            final(self)@.view_end == old(self)@.view_end + 1 + command_output(
                old(cvars).vars(),
                old(self)@.prompt,
            ).len(),
            command_writes(old(self)@.prompt) ==> match set_str_spec(
                old(cvars).vars(),
                words(old(self)@.prompt)[0],
                words(old(self)@.prompt)[1],
            ) {
                Ok(fs) => final(cvars).vars() == fs,
                Err(_) => final(cvars).vars() == old(cvars).vars(),
            },
            !command_writes(old(self)@.prompt) ==> final(cvars).vars() == old(cvars).vars(),
    {
        let ghost h0 = lines(self.history@);
        let mut cmd = String::new();
        std::mem::swap(&mut self.prompt, &mut cmd);
        self.print_input(cmd.as_str());
        let res = self.execute_command(cvars, cmd.as_str());
        let ghost printed = command_printed(old(cvars).vars(), cmd@);
        if let Err(msg) = res {
            self.print(msg.as_str());
        }
        // Entering a command ends any walk through the history, so a later
        // walk saves the prompt typed then.
        self.prompt_history_index = None;
        self.prompt_saved = None;
        proof {
            let tail = match command_error(old(cvars).vars(), cmd@) {
                Some(m) => seq![m],
                None => seq![],
            };
            assert(as_output(printed + tail) =~= as_output(printed) + as_output(tail));
            assert(lines(self.history@) =~= h0.push((cmd@, true)) + as_output(printed + tail));
        }
    }

    /// Runs `cmd`: prints the help or the value of a variable, or writes a
    /// variable; says why where that fails.
    fn execute_command<C: SetGet + ?Sized>(&mut self, cvars: &mut C, cmd: &str) -> (r: Result<(), String>)
        requires
            old(self)@.wf(),
        ensures
            final(self)@.wf(),
            final(self)@.prompt == old(self)@.prompt,
            final(self)@.saved == old(self)@.saved,
            final(self)@.walk == old(self)@.walk,
            final(self)@.history == old(self)@.history + as_output(
                command_printed(old(cvars).vars(), cmd@),
            ),
            final(self)@.view_end == old(self)@.view_end + command_printed(
                old(cvars).vars(),
                cmd@,
            ).len(),
            match command_error(old(cvars).vars(), cmd@) {
                Some(m) => r matches Err(x) && x@ == m,
                None => r is Ok,
            },
            command_writes(cmd@) ==> match set_str_spec(old(cvars).vars(), words(cmd@)[0], words(cmd@)[1]) {
                Ok(fs) => final(cvars).vars() == fs,
                Err(_) => final(cvars).vars() == old(cvars).vars(),
            },
            !command_writes(cmd@) ==> final(cvars).vars() == old(cvars).vars(),
    {
        let ghost h0 = lines(self.history@);
        let parts = split_words(cmd);
        assert(parts@.len() == words(cmd@).len());
        if parts.len() == 0 {
            assert(lines(self.history@) =~= h0 + as_output(seq![]));
            return Ok(());
        }
        assert(parts@[0]@ == words(cmd@)[0]);
        let name = parts[0].as_str();
        if str_eq(name, "help") || str_eq(name, "?") {
            self.print("Available actions:");
            self.print("    help                 Print this message");
            self.print("    <cvar name>          Print the cvar's value");
            self.print("    <cvar name> <value>  Set the cvar's value");
            assert(lines(self.history@) =~= h0 + as_output(help_lines()));
            return Ok(());
        }
        if parts.len() == 1 {
            match cvars.get_string(name) {
                Ok(val) => {
                    self.print(val.as_str());
                    assert(lines(self.history@) =~= h0 + as_output(seq![val@]));
                    return Ok(());
                },
                Err(e) => {
                    assert(lines(self.history@) =~= h0 + as_output(seq![]));
                    return Err(e.message());
                },
            }
        }
        assert(lines(self.history@) =~= h0 + as_output(seq![]));
        if parts.len() > 2 {
            assert(parts@[2]@ == words(cmd@)[2]);
            let mut msg = String::new();
            msg.append("expected only cvar name and value, found ");
            msg.append(parts[2].as_str());
            return Err(msg);
        }
        assert(parts@[1]@ == words(cmd@)[1]);
        match cvars.set_str(name, parts[1].as_str()) {
            Ok(()) => Ok(()),
            Err(e) => Err(e.message()),
        }
    }
}

} // verus!
