//! The interactive chat session: the transcript, the input line and its
//! cursor, what a submitted line does, how run events are shown, and what
//! each key does.
use vstd::prelude::*;
use vstd::string::StringExecFns;
use vstd::utf8::{encode_scalar, encode_utf8, is_char_boundary};
use crate::nm_config::ConfigView;
use crate::session::{
    AppCommand, AppEvent, ChatMessage, CommandView, MessageView, Mode, WorkflowSet, command_views,
    index_named, message_views, push_command,
};
use crate::commands::{IoRequest, agent_outcome, command_outcome, handle_command, realizes};
use crate::graphemes::{
    byte_idx_for_g, byte_index_for, byte_len, grapheme_count, grapheme_offsets,
    lemma_cursor_positions,
};
use crate::text::{has_prefix, lowercase_of, to_lowercase, chars_of, parsed_usize, starts_with, words_of, all_digits};

verus! {

/// `String::insert`: puts `c` at the byte offset `idx`, which must fall
/// between characters.
#[verifier::external_body]
fn insert_char_at(s: &mut String, idx: usize, c: char)
    requires
        idx <= byte_len(old(s)@),
        is_char_boundary(encode_utf8(old(s)@), idx as int),
    ensures
        encode_utf8(final(s)@) == encode_utf8(old(s)@).take(idx as int) + encode_utf8(seq![c])
            + encode_utf8(old(s)@).skip(idx as int),
{
    s.insert(idx, c);
}

/// `String::replace_range` with empty text: removes the bytes `[l, r)`,
/// whose ends must fall between characters.
#[verifier::external_body]
fn remove_bytes(s: &mut String, l: usize, r: usize)
    requires
        l <= r <= byte_len(old(s)@),
        is_char_boundary(encode_utf8(old(s)@), l as int),
        is_char_boundary(encode_utf8(old(s)@), r as int),
    ensures
        encode_utf8(final(s)@) == encode_utf8(old(s)@).take(l as int) + encode_utf8(old(s)@).skip(
            r as int,
        ),
{
    s.replace_range(l..r, "");
}

/// The welcome line of a new session.
pub open spec fn welcome_text() -> Seq<char> {
    "Welcome to Neonmachines! Type your message or use /help for commands."@
}

/// The chat session.
pub struct ChatSession {
    pub mode: Mode,
    pub messages: Vec<ChatMessage>,
    /// The input line.
    pub input: String,
    /// The cursor, counted in graphemes.
    pub cursor_g: usize,
    pub scroll_offset: usize,
    pub is_running: bool,
    pub spinner_status: String,
    pub workflows: WorkflowSet,
    pub active_workflow: String,
    pub workflow_list: Vec<String>,
    pub workflow_index: usize,
    pub create_focus: usize,
    pub create_input: String,
    pub selected_agent: Option<usize>,
}

/// The mathematical content of a [`ChatSession`].
#[verifier::ext_equal]
pub struct ChatView {
    pub mode: Mode,
    pub messages: Seq<MessageView>,
    pub input: Seq<char>,
    pub cursor: usize,
    pub scroll: usize,
    pub running: bool,
    pub spinner: Seq<char>,
    pub workflows: Seq<ConfigView>,
    pub active: Seq<char>,
    pub workflow_list: Seq<Seq<char>>,
    pub workflow_index: usize,
    pub create_focus: usize,
    pub create_input: Seq<char>,
    pub selected: Option<usize>,
}

impl View for ChatSession {
    type V = ChatView;

    open spec fn view(&self) -> ChatView {
        ChatView {
            mode: self.mode,
            messages: message_views(self.messages@),
            input: self.input@,
            cursor: self.cursor_g,
            scroll: self.scroll_offset,
            running: self.is_running,
            spinner: self.spinner_status@,
            workflows: self.workflows@,
            active: self.active_workflow@,
            workflow_list: self.workflow_list@.map_values(|s: String| s@),
            workflow_index: self.workflow_index,
            create_focus: self.create_focus,
            create_input: self.create_input@,
            selected: self.selected_agent,
        }
    }
}

/// The session after a message from `from` with `text`: the view scrolls
/// to the new message.
pub open spec fn with_message(v: ChatView, from: Seq<char>, text: Seq<char>) -> ChatView {
    ChatView {
        messages: v.messages.push(MessageView { from, text }),
        scroll: v.messages.len() as usize,
        ..v
    }
}

/// The cursor one grapheme to the left, if it can move.
pub open spec fn moved_left(v: ChatView) -> ChatView {
    ChatView {
        cursor: if v.cursor > 0 {
            (v.cursor - 1) as usize
        } else {
            v.cursor
        },
        ..v
    }
}

/// The cursor one grapheme to the right, if the input has one more.
pub open spec fn moved_right(v: ChatView) -> ChatView {
    ChatView {
        cursor: if v.cursor < grapheme_offsets(v.input).len() {
            (v.cursor + 1) as usize
        } else {
            v.cursor
        },
        ..v
    }
}

/// The report of a line sent to the active workflow.
pub open spec fn running_text(name: Seq<char>, line: Seq<char>) -> Seq<char> {
    "Running workflow '"@ + name + "' with prompt: "@ + line
}

/// The notice when no workflow is active.
pub open spec fn no_workflow_text() -> Seq<char> {
    "No active workflow selected. Use /workflow to select one."@
}

/// The start node of a run: the selected agent, when there is one.
pub open spec fn start_node(selected: Option<usize>) -> Option<i32> {
    match selected {
        Some(i) => Some(i as i32),
        None => None,
    }
}

/// Whether `after`, `outbox` and `io` are what submitting the input of
/// `before` gives: the line is recorded as from `you`, the input is
/// emptied; a line that starts with `/` is a command; any other line goes
/// to the active workflow, or is answered that none is active.
pub open spec fn submitted(
    before: ChatView,
    after: ChatView,
    outbox_before: Seq<CommandView>,
    outbox: Seq<CommandView>,
    io: Option<IoRequest>,
) -> bool {
    let line = before.input;
    let said = with_message(ChatView { input: Seq::empty(), ..before }, "you"@, line);
    if has_prefix(line, "/"@) {
        &&& realizes(
            command_outcome(line, before.workflows, before.active, before.selected, before.mode),
            after.workflows,
            after.active,
            after.selected,
            after.mode,
            said.messages,
            after.messages,
            outbox_before,
            outbox,
            io,
        )
        &&& after == ChatView {
            workflows: after.workflows,
            active: after.active,
            selected: after.selected,
            mode: after.mode,
            messages: after.messages,
            ..said
        }
    } else {
        &&& io is None
        &&& match index_named(before.workflows, before.active) {
            Some(i) => {
                let cfg = before.workflows[i];
                &&& outbox == outbox_before.push(
                    CommandView::RunWorkflow {
                        workflow_name: cfg.name,
                        prompt: line,
                        cfg,
                        start_agent: start_node(before.selected),
                    },
                )
                &&& after == with_message(said, "system"@, running_text(cfg.name, line))
            },
            None => {
                &&& outbox == outbox_before
                &&& after == with_message(said, "system"@, no_workflow_text())
            },
        }
    }
}

/// How the session shows a run event.
pub open spec fn event_shown(v: ChatView, ev: AppEvent) -> ChatView {
    match ev {
        AppEvent::Log(line) => with_message(v, "progress"@, line@),
        AppEvent::RunStart(name) => with_message(
            ChatView { spinner: "Running workflow '"@ + name@ + "'"@, ..v },
            "system"@,
            "Starting run for workflow '"@ + name@ + "'…"@,
        ),
        AppEvent::RunResult(line) => with_message(
            ChatView { spinner: Seq::empty(), ..v },
            "agent"@,
            "Result: "@ + line@,
        ),
        AppEvent::RunEnd(name) => with_message(
            ChatView { spinner: Seq::empty(), ..v },
            "system"@,
            "Run for '"@ + name@ + "' completed."@,
        ),
        AppEvent::Error(line) => with_message(ChatView { spinner: Seq::empty(), ..v }, "error"@, line@),
    }
}

/// A key press, as the session reads it.
#[derive(Clone, Copy, Debug, PartialEq, Eq, Structural)]
pub enum Key {
    /// A character key; `ctrl` says whether Control was held.
    Char { c: char, ctrl: bool },
    Enter { shift: bool },
    Backspace,
    Left,
    Right,
    Up,
    Down,
    Esc,
    Tab,
    Other,
}

/// The commands that Tab completes, in the order they are tried.
pub open spec fn completions() -> Seq<Seq<char>> {
    seq!["help"@, "workflow"@, "create"@, "run"@, "chat"@, "history"@, "agent"@]
}

/// The first command that begins with `typed`.
pub open spec fn first_completion(typed: Seq<char>) -> Option<Seq<char>> {
    let cs = completions();
    if has_prefix(cs[0], typed) {
        Some(cs[0])
    } else if has_prefix(cs[1], typed) {
        Some(cs[1])
    } else if has_prefix(cs[2], typed) {
        Some(cs[2])
    } else if has_prefix(cs[3], typed) {
        Some(cs[3])
    } else if has_prefix(cs[4], typed) {
        Some(cs[4])
    } else if has_prefix(cs[5], typed) {
        Some(cs[5])
    } else if has_prefix(cs[6], typed) {
        Some(cs[6])
    } else {
        None
    }
}

/// Whether the command `name` begins with the characters `typed`.
fn begins(typed: &[char], name: &str) -> (r: bool)
    ensures
        r == has_prefix(name@, typed@),
{
    let n = chars_of(name);
    starts_with(n.as_slice(), typed)
}

/// Whether the input `s` fits in memory with room for one more character.
pub open spec fn input_fits(s: Seq<char>) -> bool {
    byte_len(s) + 4 <= usize::MAX
}

/// Whether `after` is `before` with `c` put at the cursor and the cursor
/// moved right; the input then holds at least one grapheme.
pub open spec fn inserted(before: ChatView, after: ChatView, c: char) -> bool {
    let at = byte_index_for(before.input, before.cursor as nat) as int;
    &&& encode_utf8(after.input) == encode_utf8(before.input).take(at) + encode_utf8(seq![c])
        + encode_utf8(before.input).skip(at)
    &&& grapheme_offsets(after.input).len() > 0
    &&& after == moved_right(ChatView { input: after.input, ..before })
}

/// Whether `after` is `before` with the grapheme before the cursor removed
/// and the cursor moved left (no change at the start of the line).
pub open spec fn backspaced(before: ChatView, after: ChatView) -> bool {
    if before.cursor > 0 {
        let l = byte_index_for(before.input, (before.cursor - 1) as nat) as int;
        let r = byte_index_for(before.input, before.cursor as nat) as int;
        &&& encode_utf8(after.input) == encode_utf8(before.input).take(l) + encode_utf8(
            before.input,
        ).skip(r)
        &&& after == moved_left(ChatView { input: after.input, ..before })
    } else {
        after == before
    }
}

/// Whether `after` is `before` after Tab: in chat mode, an input that
/// starts with `/` becomes `/` and the first command that begins with
/// what was typed after the `/` (in lower case), with the cursor at its
/// end; otherwise nothing changes.
pub open spec fn completed(before: ChatView, after: ChatView) -> bool {
    if before.mode == Mode::Chat && has_prefix(before.input, "/"@) {
        match first_completion(lowercase_of(before.input.skip(1))) {
            Some(cmd) => after == ChatView {
                input: "/"@ + cmd,
                cursor: grapheme_offsets("/"@ + cmd).len() as usize,
                ..before
            },
            None => after == before,
        }
    } else {
        after == before
    }
}

/// What a key press leads to: whether the session ends, and the file
/// operation that a submitted command asks for.
pub struct KeyOutcome {
    pub quit: bool,
    pub io: Option<IoRequest>,
}

/// Whether `after`, the commands sent and `r` are what the key `key` does
/// to `before`: Ctrl+C or Ctrl+D ends the session, Ctrl+L scrolls to the top, other
/// Control keys do nothing, a character goes in at the cursor, Shift+Enter
/// puts a line feed there, Enter submits, Backspace, Left and Right edit
/// and move, Up and Down scroll, Esc returns to chat mode (saying so when
/// already there), Tab completes a command name.
pub open spec fn key_handled(
    before: ChatView,
    after: ChatView,
    key: Key,
    outbox_before: Seq<CommandView>,
    outbox: Seq<CommandView>,
    r: KeyOutcome,
) -> bool {
    &&& r.quit <==> (key == Key::Char { c: 'c', ctrl: true } || key == Key::Char { c: 'd', ctrl: true })
    &&& (r.io is Some ==> key == Key::Enter { shift: false })
    &&& (key != Key::Enter { shift: false } ==> outbox == outbox_before)
    &&& match key {
        Key::Char { c, ctrl } => if ctrl && c == 'l' {
            after == ChatView { scroll: 0, ..before }
        } else if ctrl {
            after == before
        } else {
            inserted(before, after, c)
        },
        Key::Enter { shift } => if shift {
            inserted(before, after, '\n')
        } else {
            submitted(before, after, outbox_before, outbox, r.io)
        },
        Key::Backspace => backspaced(before, after),
        Key::Left => after == moved_left(before),
        Key::Right => after == moved_right(before),
        Key::Up => after == ChatView {
            scroll: if before.scroll + 1 < before.messages.len() {
                (before.scroll + 1) as usize
            } else {
                before.scroll
            },
            ..before
        },
        Key::Down => after == ChatView {
            scroll: if before.scroll > 0 {
                (before.scroll - 1) as usize
            } else {
                before.scroll
            },
            ..before
        },
        Key::Esc => after == if before.mode == Mode::Chat {
            with_message(before, "system"@, "Exited interactive chat mode"@)
        } else {
            ChatView { mode: Mode::Chat, ..before }
        },
        Key::Tab => completed(before, after),
        Key::Other => after == before,
    }
}

impl ChatSession {
    /// A session over `workflows` with `active_workflow` active: in chat
    /// mode, with the welcome line, an empty input, and the workflow list
    /// pointing at the active workflow (or at the first).
    pub fn new(workflows: WorkflowSet, active_workflow: String) -> (r: ChatSession)
        ensures
            r@.mode == Mode::Chat,
            r@.messages == seq![MessageView { from: "system"@, text: welcome_text() }],
            r@.input.len() == 0,
            r@.cursor == 0,
            r@.scroll == 0,
            r@.running,
            r@.spinner.len() == 0,
            r@.workflows == workflows@,
            r@.active == active_workflow@,
            r@.workflow_list == workflows@.map_values(|c: ConfigView| c.name),
            r@.workflow_index == match index_named(workflows@, active_workflow@) {
                Some(i) => i as usize,
                None => 0,
            },
            r@.create_focus == 0,
            r@.create_input.len() == 0,
            r@.selected is None,
    {
        let mut list: Vec<String> = Vec::new();
        let mut i: usize = 0;
        while i < workflows.len()
            invariant
                i <= workflows@.len(),
                list@.map_values(|s: String| s@) == workflows@.take(i as int).map_values(
                    |c: ConfigView| c.name,
                ),
            decreases workflows@.len() - i,
        {
            let name = workflows.at(i).name.clone();
            let ghost before = list@;
            list.push(name);
            proof {
                assert(list@.map_values(|s: String| s@) =~= before.map_values(|s: String| s@).push(
                    workflows@[i as int].name,
                ));
                assert(workflows@.take(i + 1) =~= workflows@.take(i as int).push(
                    workflows@[i as int],
                ));
            }
            i = i + 1;
        }
        assert(workflows@.take(workflows@.len() as int) =~= workflows@);
        let index = match workflows.find(active_workflow.as_str()) {
            Some(k) => k,
            None => 0,
        };
        let mut messages: Vec<ChatMessage> = Vec::new();
        messages.push(
            ChatMessage {
                from: "system",
                text: String::from_str(
                    "Welcome to Neonmachines! Type your message or use /help for commands.",
                ),
            },
        );
        let r = ChatSession {
            mode: Mode::Chat,
            messages,
            input: String::new(),
            cursor_g: 0,
            scroll_offset: 0,
            is_running: true,
            spinner_status: String::new(),
            workflows,
            active_workflow,
            workflow_list: list,
            workflow_index: index,
            create_focus: 0,
            create_input: String::new(),
            selected_agent: None,
        };
        assert(r@.messages =~= seq![MessageView { from: "system"@, text: welcome_text() }]);
        r
    }

    /// Appends a message and scrolls to it.
    pub fn add_message(&mut self, from: &'static str, text: String)
        ensures
            final(self)@ == with_message(old(self)@, from@, text@),
    {
        let ghost before = self@;
        self.messages.push(ChatMessage { from, text });
        self.scroll_offset = self.messages.len() - 1;
        assert(self@ =~= with_message(before, from@, text@));
    }

    /// Moves the cursor one grapheme to the left.
    pub fn left(&mut self)
        ensures
            final(self)@ == moved_left(old(self)@),
    {
        if self.cursor_g > 0 {
            self.cursor_g = self.cursor_g - 1;
        }
    }

    /// Moves the cursor one grapheme to the right.
    pub fn right(&mut self)
        ensures
            final(self)@ == moved_right(old(self)@),
            grapheme_offsets(old(self)@.input).len() == 0 <==> byte_len(old(self)@.input) == 0,
    {
        let n = grapheme_count(self.input.as_str());
        if self.cursor_g < n {
            self.cursor_g = self.cursor_g + 1;
        }
    }

    /// Puts `c` at the cursor and moves the cursor right.
    pub fn insert_char(&mut self, c: char)
        requires
            input_fits(old(self)@.input),
        ensures
            inserted(old(self)@, final(self)@, c),
    {
        let bi = byte_idx_for_g(self.input.as_str(), self.cursor_g);
        proof {
            lemma_cursor_positions(self@.input, self@.cursor as nat, self@.cursor as nat);
        }
        let ghost before = self@;
        insert_char_at(&mut self.input, bi, c);
        assert(self@ == ChatView { input: self@.input, ..before });
        assert(encode_utf8(seq![c]) =~= encode_scalar(c as u32) + encode_utf8(seq![c].drop_first()));
        assert(byte_len(self@.input) > 0);
        self.right();
    }

    /// Removes the grapheme before the cursor and moves the cursor left.
    pub fn backspace(&mut self)
        requires
            input_fits(old(self)@.input),
        ensures
            backspaced(old(self)@, final(self)@),
    {
        if self.cursor_g > 0 {
            let l = byte_idx_for_g(self.input.as_str(), self.cursor_g - 1);
            let r = byte_idx_for_g(self.input.as_str(), self.cursor_g);
            proof {
                lemma_cursor_positions(self@.input, (self@.cursor - 1) as nat, self@.cursor as nat);
                lemma_cursor_positions(self@.input, self@.cursor as nat, self@.cursor as nat);
            }
            let ghost before = self@;
            remove_bytes(&mut self.input, l, r);
            assert(self@ == ChatView { input: self@.input, ..before });
            self.left();
        }
    }

    /// Submits the input line: a command line goes to the command handler,
    /// any other line to the active workflow. Returns the file operation
    /// that the caller must carry out, if any.
    pub fn submit(&mut self, outbox: &mut Vec<AppCommand>) -> (io: Option<IoRequest>)
        ensures
            submitted(
                old(self)@,
                final(self)@,
                command_views(old(outbox)@),
                command_views(final(outbox)@),
                io,
            ),
    {
        let ghost before = self@;
        let line = self.input.clone();
        self.input = String::new();
        self.add_message("you", line.clone());
        let ghost said = self@;
        assert(said == with_message(ChatView { input: Seq::empty(), ..before }, "you"@, before.input));
        let chars = chars_of(line.as_str());
        let slash: Vec<char> = vec!['/'];
        proof {
            reveal_strlit("/");
        }
        assert(slash@ =~= "/"@);
        if starts_with(chars.as_slice(), slash.as_slice()) {
            let io = handle_command(
                line.as_str(),
                &mut self.workflows,
                &mut self.active_workflow,
                outbox,
                &mut self.messages,
                &mut self.selected_agent,
                &mut self.mode,
            );
            assert(self@ =~= ChatView {
                workflows: self@.workflows,
                active: self@.active,
                selected: self@.selected,
                mode: self@.mode,
                messages: self@.messages,
                ..said
            });
            io
        } else {
            match self.workflows.find(self.active_workflow.as_str()) {
                Some(i) => {
                    let cfg = self.workflows.at(i).duplicate();
                    let name = cfg.name.clone();
                    let start: Option<i32> = match self.selected_agent {
                        Some(k) => Some(k as i32),
                        None => None,
                    };
                    let report = String::from_str("Running workflow '").concat(name.as_str()).concat(
                        "' with prompt: ",
                    ).concat(line.as_str());
                    push_command(
                        outbox,
                        AppCommand::RunWorkflow {
                            workflow_name: name,
                            prompt: line,
                            cfg,
                            start_agent: start,
                        },
                    );
                    self.add_message("system", report);
                },
                None => {
                    self.add_message(
                        "system",
                        String::from_str("No active workflow selected. Use /workflow to select one."),
                    );
                },
            }
            None
        }
    }

    /// Shows a run event.
    pub fn apply_event(&mut self, ev: AppEvent)
        ensures
            final(self)@ == event_shown(old(self)@, ev),
    {
        let ghost before = self@;
        match ev {
            AppEvent::Log(line) => {
                self.add_message("progress", line);
            },
            AppEvent::RunStart(name) => {
                self.spinner_status = String::from_str("Running workflow '").concat(
                    name.as_str(),
                ).concat("'");
                let text = String::from_str("Starting run for workflow '").concat(
                    name.as_str(),
                ).concat("'…");
                self.add_message("system", text);
            },
            AppEvent::RunResult(line) => {
                self.spinner_status = String::new();
                self.add_message("agent", String::from_str("Result: ").concat(line.as_str()));
            },
            AppEvent::RunEnd(name) => {
                self.spinner_status = String::new();
                self.add_message(
                    "system",
                    String::from_str("Run for '").concat(name.as_str()).concat("' completed."),
                );
            },
            AppEvent::Error(line) => {
                self.spinner_status = String::new();
                self.add_message("error", line);
            },
        }
    }

    /// Puts `/<name>` in the input with the cursor at its end.
    fn set_completion(&mut self, name: &str)
        ensures
            final(self)@ == (ChatView {
                input: "/"@ + name@,
                cursor: grapheme_offsets("/"@ + name@).len() as usize,
                ..old(self)@
            }),
    {
        let new_input = String::from_str("/").concat(name);
        let count = grapheme_count(new_input.as_str());
        self.input = new_input;
        self.cursor_g = count;
    }

    /// Completes a command name at the input, as [`completed`] says.
    pub fn complete_command(&mut self)
        ensures
            completed(old(self)@, final(self)@),
    {
        let chars = chars_of(self.input.as_str());
        let slash: Vec<char> = vec!['/'];
        proof {
            reveal_strlit("/");
        }
        assert(slash@ =~= "/"@);
        if self.mode == Mode::Chat && starts_with(chars.as_slice(), slash.as_slice()) {
            let rest = crate::text::subvec(chars.as_slice(), 1, chars.len());
            assert(rest@ =~= self@.input.skip(1));
            let rest_text = crate::text::string_of(rest.as_slice());
            let typed = chars_of(to_lowercase(rest_text.as_str()).as_str());
            let t = typed.as_slice();
            if begins(t, "help") {
                self.set_completion("help");
            } else if begins(t, "workflow") {
                self.set_completion("workflow");
            } else if begins(t, "create") {
                self.set_completion("create");
            } else if begins(t, "run") {
                self.set_completion("run");
            } else if begins(t, "chat") {
                self.set_completion("chat");
            } else if begins(t, "history") {
                self.set_completion("history");
            } else if begins(t, "agent") {
                self.set_completion("agent");
            }
        }
    }

    /// Handles a key press, as [`key_handled`] says.
    pub fn on_key(&mut self, key: Key, outbox: &mut Vec<AppCommand>) -> (r: KeyOutcome)
        requires
            input_fits(old(self)@.input),
        ensures
            key_handled(
                old(self)@,
                final(self)@,
                key,
                command_views(old(outbox)@),
                command_views(final(outbox)@),
                r,
            ),
    {
        match key {
            Key::Char { c, ctrl } => {
                if ctrl && (c == 'c' || c == 'd') {
                    return KeyOutcome { quit: true, io: None };
                }
                if ctrl && c == 'l' {
                    self.scroll_offset = 0;
                } else if !ctrl {
                    self.insert_char(c);
                }
                KeyOutcome { quit: false, io: None }
            },
            Key::Enter { shift } => {
                if shift {
                    self.insert_char('\n');
                    KeyOutcome { quit: false, io: None }
                } else {
                    let io = self.submit(outbox);
                    KeyOutcome { quit: false, io }
                }
            },
            Key::Backspace => {
                self.backspace();
                KeyOutcome { quit: false, io: None }
            },
            Key::Left => {
                self.left();
                KeyOutcome { quit: false, io: None }
            },
            Key::Right => {
                self.right();
                KeyOutcome { quit: false, io: None }
            },
            Key::Up => {
                if self.scroll_offset < self.messages.len() && self.scroll_offset + 1
                    < self.messages.len() {
                    self.scroll_offset = self.scroll_offset + 1;
                }
                KeyOutcome { quit: false, io: None }
            },
            Key::Down => {
                if self.scroll_offset > 0 {
                    self.scroll_offset = self.scroll_offset - 1;
                }
                KeyOutcome { quit: false, io: None }
            },
            Key::Esc => {
                if self.mode == Mode::Chat {
                    self.add_message("system", String::from_str("Exited interactive chat mode"));
                }
                self.mode = Mode::Chat;
                KeyOutcome { quit: false, io: None }
            },
            Key::Tab => {
                self.complete_command();
                KeyOutcome { quit: false, io: None }
            },
            Key::Other => KeyOutcome { quit: false, io: None },
        }
    }
}


/// The agent a run request starts at, for a run request.
pub open spec fn run_start(c: CommandView) -> Option<Option<i32>> {
    match c {
        CommandView::RunWorkflow { start_agent, .. } => Some(start_agent),
        _ => None,
    }
}

/// A message typed after a `/agent <n>` line has picked agent `n` of the
/// active workflow runs that workflow from agent `n`; one typed after
/// `/agent none` runs it by the workflow's own routing.
pub proof fn law_selected_agent_routes_messages(
    s0: ChatView,
    s1: ChatView,
    s2: ChatView,
    o0: Seq<CommandView>,
    o1: Seq<CommandView>,
    o2: Seq<CommandView>,
    io1: Option<IoRequest>,
    io2: Option<IoRequest>,
    message: Seq<char>,
)
    requires
        has_prefix(s0.input, "/"@),
        words_of(s0.input).len() == 2,
        words_of(s0.input)[0] == "/agent"@,
        index_named(s0.workflows, s0.active) is Some,
        submitted(s0, s1, o0, o1, io1),
        !has_prefix(message, "/"@),
        submitted(ChatView { input: message, ..s1 }, s2, o1, o2, io2),
    ensures
        words_of(s0.input)[1] == "none"@ ==> run_start(o2.last()) == Some(None::<i32>),
        match parsed_usize(words_of(s0.input)[1]) {
            Some(n) => n < s0.workflows[index_named(s0.workflows, s0.active)->0].rows.len() ==> run_start(
                o2.last(),
            ) == Some(Some(n as i32)),
            None => true,
        },
{
    reveal_strlit("/cwd");
    reveal_strlit("/run");
    reveal_strlit("/save");
    reveal_strlit("/create");
    reveal_strlit("/workflow");
    reveal_strlit("/options");
    reveal_strlit("/chat");
    reveal_strlit("/agent");
    reveal_strlit("none");
    reveal_strlit("list");
    let w = words_of(s0.input);
    let o = command_outcome(s0.input, s0.workflows, s0.active, s0.selected, s0.mode);
    assert(w[0] == "/agent"@);
    assert("/agent"@.len() == 6);
    assert("/agent"@ != "/cwd"@ && "/agent"@ != "/run"@ && "/agent"@ != "/save"@);
    assert("/agent"@ != "/create"@ && "/agent"@ != "/workflow"@ && "/agent"@ != "/options"@);
    assert("/agent"@ != "/chat"@);
    assert(o == agent_outcome(w, s0.workflows, s0.active, s0.selected, s0.mode));
    assert(s1.workflows == s0.workflows && s1.active == s0.active);
    assert(s1.selected == o.selected);
    let i = index_named(s0.workflows, s0.active)->0;
    let before = ChatView { input: message, ..s1 };
    assert(index_named(before.workflows, before.active) == Some(i));
    assert(o2 == o1.push(
        CommandView::RunWorkflow {
            workflow_name: s1.workflows[i].name,
            prompt: message,
            cfg: s1.workflows[i],
            start_agent: start_node(s1.selected),
        },
    ));
    assert(run_start(o2.last()) == Some(start_node(s1.selected)));
    if w[1] == "none"@ {
        assert(w[1] != "list"@);
        assert(s1.selected is None);
    } else if parsed_usize(w[1]) is Some {
        if w[1] == "list"@ {
            assert(w[1][0] == 'l');
            assert(!all_digits(w[1]));
        }
        let n = parsed_usize(w[1])->0;
        if n < s0.workflows[i].rows.len() {
            assert(s1.selected == Some(n));
        }
    }
}

} // verus!
