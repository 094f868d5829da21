//! What a key does.

use vstd::prelude::*;

use crate::handler::accept::AfterAccept;
use crate::handler::accept::ends_in;
use crate::handler::accept::law_accept_deletes_in_front_of_cursor;
use crate::handler::accept::law_ask_ai_needs_selection;
use crate::handler::keys::key_bytes;
use crate::handler::keys::key_to_bytes;
use crate::handler::keys::same_key;
use crate::handler::keys::KeyOutcome;
use crate::handler::quoting::escaped;
use crate::handler::state::HandlerState;
use crate::handler::state::InputHandler;
use crate::handler::state::MatchMode;
use crate::handler::state::Settings;
use crate::handler::state::ShellKind;
use crate::handler::state::Teardown;
use crate::input::Key;
use crate::input::KeyEvent;
use crate::model::SuggestionKind;
use crate::model::TerminalSnapshot;
use crate::predict::edit;
use crate::text::lemma_utf8_nonempty;

verus! {

/// How long the key hint shows a new match mode.
pub const MODE_FLASH_MS: u64 = 1000;

/// A movement of the selection.
#[derive(Debug, Clone, Copy, PartialEq, Eq, Structural)]
pub enum Navigation {
    Up,
    Down,
    PageUp,
    PageDown,
    Home,
    End,
}

/// A command line that the terminal's state is to take over.
#[derive(Debug)]
pub struct LineUpdate {
    pub text: String,
    /// Character offset.
    pub cursor: usize,
    /// The line is predicted: the shell has not been told of it yet.
    pub predicted: bool,
}

/// What is to follow on a key.
#[derive(Debug)]
pub enum NextStep {
    Nothing,
    /// The selection moves in the popup, of which so many rows are visible. Then the popup
    /// is painted.
    Navigate(Navigation, usize),
    /// The popup goes.
    Clear(Teardown),
    /// Suggestions are computed.
    Trigger,
    /// Suggestions for the updated line are shown.
    Chain,
}

/// What a key leads to.
#[derive(Debug)]
pub struct KeyStep {
    pub outcome: KeyOutcome,
    pub line: Option<LineUpdate>,
    pub next: NextStep,
}

/// What a key means.
#[derive(Debug, Clone, Copy, PartialEq, Eq, Structural)]
pub enum KeyAction {
    ToggleMode,
    Navigate(Navigation),
    /// The pinned "Ask AI" row is accepted.
    AskAi,
    Accept,
    /// Accepts, and runs the command line.
    AcceptAndRun,
    /// Runs the command line as it is.
    Run,
    Dismiss,
    /// There is nothing to accept: goes to the shell, which may complete by itself. The
    /// popup goes.
    Decline,
    /// Goes to the shell; the popup goes.
    PassOn,
    /// Goes to the shell; the popup stays, and is computed anew.
    Retype,
    /// Computes suggestions.
    Trigger,
    /// Goes to the shell, with no popup shown.
    Type,
    /// Goes to the shell, which recalls a command line.
    Recall,
    /// Goes to the shell, with no popup shown and nothing to remember.
    Forward,
}

/// The movement that a key stands for in a visible popup, whatever is bound.
pub open spec fn fixed_navigation(key: Key) -> Option<Navigation> {
    match key {
        Key::PageUp => Some(Navigation::PageUp),
        Key::PageDown => Some(Navigation::PageDown),
        Key::Home | Key::HomeCsiTilde | Key::HomeCsi7Tilde | Key::HomeSs3 => Some(Navigation::Home),
        Key::End | Key::EndCsiTilde | Key::EndCsi8Tilde | Key::EndSs3 => Some(Navigation::End),
        _ => None,
    }
}

/// The key deletes from the command line.
pub open spec fn is_deletion(key: Key) -> bool {
    key == Key::Backspace || key == Key::Ctrl('u') || key == Key::Ctrl('w')
}

/// How many rows of the popup are visible, given the height of the screen.
pub open spec fn visible_rows(settings: Settings, term: Option<TerminalSnapshot>) -> int {
    let pad: int = if settings.theme.borders {
        2
    } else {
        0
    };
    let rows: int = match term {
        Some(t) => if t.geometry.screen_rows > 1 + pad && t.geometry.screen_rows - 1 - pad
            < settings.max_visible {
            t.geometry.screen_rows - 1 - pad
        } else {
            settings.max_visible as int
        },
        None => settings.max_visible as int,
    };
    if rows < 1 {
        1
    } else {
        rows
    }
}

impl HandlerState {
    /// What a key means while the popup is visible. What is bound comes first.
    pub open spec fn visible_action(self, key: Key) -> KeyAction {
        let keys = self.settings.keybindings;
        if key == keys.toggle_match_mode@ {
            KeyAction::ToggleMode
        } else if key == keys.navigate_up@ {
            KeyAction::Navigate(Navigation::Up)
        } else if key == keys.navigate_down@ {
            KeyAction::Navigate(Navigation::Down)
        } else if key == keys.accept@ {
            if self.asks_ai() {
                KeyAction::AskAi
            } else if self.effective() is None {
                KeyAction::Decline
            } else {
                KeyAction::Accept
            }
        } else if key == keys.accept_and_enter@ {
            if self.asks_ai() {
                KeyAction::AskAi
            } else if self.popup.overlay.selected is Some {
                KeyAction::AcceptAndRun
            } else {
                KeyAction::Run
            }
        } else if key == keys.dismiss@ {
            KeyAction::Dismiss
        } else {
            match fixed_navigation(key) {
                Some(nav) => KeyAction::Navigate(nav),
                None => match key {
                    Key::Printable(_) | Key::Backspace => KeyAction::Retype,
                    _ => KeyAction::PassOn,
                },
            }
        }
    }

    /// What a key means while no popup is visible.
    pub open spec fn hidden_action(self, key: Key) -> KeyAction {
        if key == self.settings.keybindings.trigger@ {
            KeyAction::Trigger
        } else {
            match key {
                Key::Printable(_) => KeyAction::Type,
                Key::ArrowUp | Key::ArrowDown => KeyAction::Recall,
                _ => KeyAction::Forward,
            }
        }
    }

    /// With a key that goes to the shell applied to the tracked command line.
    pub open spec fn typed(self, key: Key) -> HandlerState {
        if self.settings.shell_kind == ShellKind::Zsh {
            self
        } else {
            HandlerState { line: edit(self.line, key), ..self }
        }
    }

    /// The terminal's state is told of the tracked line. A line that was given up is not
    /// told, one that was deleted is.
    pub open spec fn tells_line(self, key: Key) -> bool {
        let line = edit(self.line, key);
        &&& self.settings.shell_kind != ShellKind::Zsh
        &&& key == Key::Enter || line != self.line
        &&& line.0.len() > 0 || is_deletion(key)
    }

    /// With the other match mode, which the key hint shows for a while. The popup is to be
    /// computed anew.
    pub open spec fn mode_toggled(self, now: u64) -> HandlerState {
        let mode = other_mode(self.settings.match_mode);
        HandlerState {
            settings: Settings { match_mode: mode, ..self.settings },
            mode_flash: Some((mode, (now + MODE_FLASH_MS) as u64)),
            fingerprint: None,
            ..self
        }
    }

    /// The trigger has to wait until the shell has echoed the line.
    pub open spec fn trigger_stashed(self) -> HandlerState {
        HandlerState { trigger_requested: true, manual_trigger_stashed: true, ..self }
    }
}

pub open spec fn other_mode(mode: MatchMode) -> MatchMode {
    match mode {
        MatchMode::Fuzzy => MatchMode::Substring,
        MatchMode::Substring => MatchMode::Fuzzy,
    }
}

/// The update is that of the tracked line.
pub open spec fn is_tracked_line(line: Option<LineUpdate>, model: (Seq<char>, int)) -> bool {
    line matches Some(update) && update.text@ == model.0 && update.cursor == model.1
        && !update.predicted
}

/// The step of a key that goes to the shell: whether the terminal's state is told of the
/// tracked line.
pub open spec fn tells(
    before: HandlerState,
    key: Key,
    term: Option<TerminalSnapshot>,
    line: Option<LineUpdate>,
) -> bool {
    if term is Some && before.tells_line(key) {
        is_tracked_line(line, before.typed(key).line)
    } else {
        line is None
    }
}

/// The key was swallowed.
pub open spec fn swallowed(step: KeyStep) -> bool {
    step.outcome is Forward && step.outcome.bytes() == Seq::<u8>::empty() && step.line is None
}

/// What a key does while the popup is visible.
pub open spec fn visible_step(
    before: HandlerState,
    key: Key,
    term: Option<TerminalSnapshot>,
    now: u64,
    after: HandlerState,
    step: KeyStep,
) -> bool {
    match before.visible_action(key) {
        KeyAction::ToggleMode => {
            &&& swallowed(step)
            &&& step.next is Trigger
            &&& after == before.mode_toggled(now)
        },
        KeyAction::Navigate(nav) => {
            &&& swallowed(step)
            &&& step.next matches NextStep::Navigate(n, rows) && n == nav && rows == visible_rows(
                before.settings,
                term,
            )
            &&& after == before
        },
        KeyAction::AskAi => {
            &&& step.outcome is AskAiAccept
            &&& step.line is None
            &&& step.next is Nothing
            &&& after == before
        },
        KeyAction::Accept => accept_step(before, term, after, step),
        KeyAction::AcceptAndRun => {
            &&& step.outcome is Forward
            &&& step.outcome.bytes() == (match (term, before.accepted_row()) {
                (Some(t), Some(row)) => t.accept_bytes(row),
                _ => Seq::empty(),
            }).push(0x0D)
            &&& step.line is None
            &&& step.next == NextStep::Clear(before.teardown())
            &&& after == before.dismissed()
        },
        KeyAction::Run => {
            &&& step.outcome is Forward
            &&& step.outcome.bytes() == seq![0x0Du8]
            &&& step.line is None
            &&& step.next == NextStep::Clear(before.teardown())
            &&& after == before.dismissed()
        },
        KeyAction::Dismiss => {
            &&& swallowed(step)
            &&& step.next == NextStep::Clear(before.teardown())
            &&& after == before.dismissed()
        },
        KeyAction::Retype => {
            &&& step.outcome is Forward
            &&& step.outcome.bytes() == key_bytes(key)
            &&& tells(before, key, term, step.line)
            &&& step.next is Nothing
            &&& after == (HandlerState { trigger_requested: true, ..before.typed(key) })
        },
        KeyAction::Decline => {
            &&& step.outcome is Forward
            &&& step.outcome.bytes() == key_bytes(key)
            &&& step.line is None
            &&& step.next == NextStep::Clear(before.teardown())
            &&& after == before.dismissed()
        },
        _ => {
            &&& step.outcome is Forward
            &&& step.outcome.bytes() == key_bytes(key)
            &&& tells(before, key, term, step.line)
            &&& step.next == NextStep::Clear(before.teardown())
            &&& after == before.typed(key).dismissed()
        },
    }
}

/// What the accept key does where a row is there to accept.
pub open spec fn accept_step(
    before: HandlerState,
    term: Option<TerminalSnapshot>,
    after: HandlerState,
    step: KeyStep,
) -> bool {
    &&& step.outcome is Forward
    &&& match (term, before.accepted_row()) {
        (Some(t), Some(row)) => if row.kind == SuggestionKind::History {
            &&& step.outcome.bytes() == t.accept_bytes(row)
            &&& step.line is None
            &&& step.next == NextStep::Clear(before.teardown())
            &&& after == before.dismissed()
        } else if !ends_in(row.text@, '/') {
            &&& step.outcome.bytes() == (if ends_in(row.text@, '=') {
                t.accept_bytes(row)
            } else {
                t.accept_bytes(row).push(0x20)
            })
            &&& step.line is None
            &&& step.next == NextStep::Clear(before.teardown())
            &&& after == (HandlerState {
                line: before.line_after_accept(t, row),
                ..before.dismissed()
            })
        } else {
            &&& step.outcome.bytes() == t.accept_bytes(row)
            &&& step.line matches Some(update)
            &&& update.text@ == t.predicted_line(row)
            &&& update.cursor == t.predicted_head(row).len()
            &&& update.predicted
            &&& step.next is Chain
            &&& after == (HandlerState {
                line: if before.settings.shell_kind == ShellKind::Zsh {
                    before.line
                } else {
                    (t.predicted_line(row), t.predicted_head(row).len() as int)
                },
                ..before
            })
        },
        _ => {
            &&& step.outcome.bytes() == Seq::<u8>::empty()
            &&& step.line is None
            &&& step.next == NextStep::Clear(before.teardown())
            &&& after == before.dismissed()
        },
    }
}

/// What a key does while no popup is visible.
pub open spec fn hidden_step(
    before: HandlerState,
    key: Key,
    term: Option<TerminalSnapshot>,
    after: HandlerState,
    step: KeyStep,
) -> bool {
    &&& step.outcome is Forward
    &&& match before.hidden_action(key) {
        KeyAction::Trigger => {
            let awake = HandlerState { debounce_suppressed: false, ..before };
            &&& step.outcome.bytes() == Seq::<u8>::empty()
            &&& if term matches Some(t) && t.buffer_pending_display {
                &&& after == awake.trigger_stashed()
                &&& step.next is Nothing
                &&& if before.settings.shell_kind != ShellKind::Zsh && before.line.0.len() > 0 {
                    is_tracked_line(step.line, before.line)
                } else {
                    step.line is None
                }
            } else {
                &&& after == awake
                &&& step.next is Trigger
                &&& step.line is None
            }
        },
        KeyAction::Type => {
            &&& step.outcome.bytes() == key_bytes(key)
            &&& tells(before, key, term, step.line)
            &&& step.next is Nothing
            &&& after == (HandlerState { debounce_suppressed: false, ..before.typed(key) })
        },
        KeyAction::Recall => {
            &&& step.outcome.bytes() == key_bytes(key)
            &&& tells(before, key, term, step.line)
            &&& step.next is Nothing
            &&& after == (HandlerState { debounce_suppressed: true, ..before.typed(key) })
        },
        _ => {
            &&& step.outcome.bytes() == key_bytes(key)
            &&& tells(before, key, term, step.line)
            &&& step.next is Nothing
            &&& after == before.typed(key)
        },
    }
}

/// What a key does.
pub open spec fn key_step(
    before: HandlerState,
    key: Key,
    term: Option<TerminalSnapshot>,
    now: u64,
    after: HandlerState,
    step: KeyStep,
) -> bool {
    if before.popup.visible {
        visible_step(before, key, term, now, after, step)
    } else {
        hidden_step(before, key, term, after, step)
    }
}

/// The movement that a key stands for in a visible popup.
fn navigation_of(key: &KeyEvent) -> (nav: Option<Navigation>)
    ensures
        nav == fixed_navigation(key@),
{
    match key {
        KeyEvent::PageUp => Some(Navigation::PageUp),
        KeyEvent::PageDown => Some(Navigation::PageDown),
        KeyEvent::Home | KeyEvent::HomeCsiTilde | KeyEvent::HomeCsi7Tilde | KeyEvent::HomeSs3 =>
            Some(Navigation::Home),
        KeyEvent::End | KeyEvent::EndCsiTilde | KeyEvent::EndCsi8Tilde | KeyEvent::EndSs3 => Some(
            Navigation::End,
        ),
        _ => None,
    }
}

/// Whether the key deletes from the command line.
fn deletes(key: &KeyEvent) -> (deletion: bool)
    ensures
        deletion == is_deletion(key@),
{
    match key {
        KeyEvent::Backspace => true,
        KeyEvent::Ctrl(c) => *c == 'u' || *c == 'w',
        _ => false,
    }
}

fn swallow(next: NextStep) -> (step: KeyStep)
    ensures
        swallowed(step),
        step.next == next,
{
    KeyStep { outcome: KeyOutcome::Forward(Vec::new()), line: None, next }
}

impl InputHandler {
    /// The command line as tracked by keystrokes.
    fn tracked_line(&self) -> (line: Option<LineUpdate>)
        ensures
            is_tracked_line(line, self@.line),
    {
        Some(
            LineUpdate {
                text: self.input_model.buffer.clone(),
                cursor: self.input_model.cursor,
                predicted: false,
            },
        )
    }

    /// Applies a key that goes to the shell to the tracked command line. Returns the line
    /// that the terminal's state is to take over, if any.
    pub fn maybe_apply_input_model(
        &mut self,
        key: &KeyEvent,
        term: Option<&TerminalSnapshot>,
    ) -> (line: Option<LineUpdate>)
        requires
            old(self).wf(),
            old(self)@.line.0.len() < usize::MAX,
        ensures
            final(self)@ == old(self)@.typed(key@),
            tells(
                old(self)@,
                key@,
                match term {
                    Some(t) => Some(*t),
                    None => None,
                },
                line,
            ),
            final(self).wf(),
    {
        if self.settings.shell_kind == ShellKind::Zsh {
            return None;
        }
        let changed = self.input_model.apply_key(key);
        let empty = self.input_model.buffer.as_str().is_empty();
        if !changed || (empty && !deletes(key)) || term.is_none() {
            return None;
        }
        self.tracked_line()
    }

    /// Switches to the other match mode. The popup is to be computed anew.
    pub fn toggle_match_mode(&mut self, now: u64)
        requires
            now <= u64::MAX - MODE_FLASH_MS,
        ensures
            final(self)@ == old(self)@.mode_toggled(now),
            final(self).wf() == old(self).wf(),
    {
        let mode = match self.settings.match_mode {
            MatchMode::Fuzzy => MatchMode::Substring,
            MatchMode::Substring => MatchMode::Fuzzy,
        };
        self.settings.match_mode = mode;
        self.mode_flash = Some((mode, now + MODE_FLASH_MS));
        self.last_trigger_fingerprint = None;
    }

    /// How many rows of the popup are visible on the screen.
    pub fn effective_navigation_visible_rows(&self, term: Option<&TerminalSnapshot>) -> (rows:
        usize)
        ensures
            rows == visible_rows(
                self@.settings,
                match term {
                    Some(t) => Some(*t),
                    None => None,
                },
            ),
    {
        let pad: u16 = if self.settings.theme.borders {
            2
        } else {
            0
        };
        let mut rows: usize = self.settings.max_visible;
        if let Some(t) = term {
            let height: u16 = t.geometry.screen_rows;
            if height > 1 + pad {
                let fits: usize = (height - 1 - pad) as usize;
                if fits < rows {
                    rows = fits;
                }
            }
        }
        if rows < 1 {
            1
        } else {
            rows
        }
    }

    /// Processes a key while the popup is visible.
    pub fn process_key_visible(
        &mut self,
        key: &KeyEvent,
        term: Option<&TerminalSnapshot>,
        now: u64,
    ) -> (step: KeyStep)
        requires
            old(self).wf(),
            old(self)@.line.0.len() < usize::MAX,
            now <= u64::MAX - MODE_FLASH_MS,
        ensures
            visible_step(
                old(self)@,
                key@,
                match term {
                    Some(t) => Some(*t),
                    None => None,
                },
                now,
                final(self)@,
                step,
            ),
            (term matches Some(t) ==> t.buffer_cursor <= t.line().len()) ==> final(self).wf(),
    {
        if same_key(key, &self.settings.keybindings.toggle_match_mode) {
            self.toggle_match_mode(now);
            return swallow(NextStep::Trigger);
        }
        let rows: usize = self.effective_navigation_visible_rows(term);
        if same_key(key, &self.settings.keybindings.navigate_up) {
            return swallow(NextStep::Navigate(Navigation::Up, rows));
        }
        if same_key(key, &self.settings.keybindings.navigate_down) {
            return swallow(NextStep::Navigate(Navigation::Down, rows));
        }
        if same_key(key, &self.settings.keybindings.accept) {
            if self.effective_selection_is_ask_ai() {
                return KeyStep {
                    outcome: KeyOutcome::AskAiAccept,
                    line: None,
                    next: NextStep::Nothing,
                };
            }
            if self.effective_selected().is_none() {
                let teardown = self.dismiss();
                return KeyStep {
                    outcome: KeyOutcome::Forward(key_to_bytes(key)),
                    line: None,
                    next: NextStep::Clear(teardown),
                };
            }
            let (forward, after) = self.accept_with_chaining(term);
            let outcome = KeyOutcome::Forward(forward);
            return match after {
                AfterAccept::Clear(teardown) => KeyStep {
                    outcome,
                    line: None,
                    next: NextStep::Clear(teardown),
                },
                AfterAccept::Chain { predicted, cursor } => KeyStep {
                    outcome,
                    line: Some(LineUpdate { text: predicted, cursor, predicted: true }),
                    next: NextStep::Chain,
                },
            };
        }
        if same_key(key, &self.settings.keybindings.accept_and_enter) {
            if self.effective_selection_is_ask_ai() {
                return KeyStep {
                    outcome: KeyOutcome::AskAiAccept,
                    line: None,
                    next: NextStep::Nothing,
                };
            }
            let mut forward = if self.popup.overlay.selected.is_some() {
                self.accept_suggestion(term)
            } else {
                Vec::new()
            };
            let teardown = self.dismiss();
            forward.push(0x0D);
            return KeyStep {
                outcome: KeyOutcome::Forward(forward),
                line: None,
                next: NextStep::Clear(teardown),
            };
        }
        if same_key(key, &self.settings.keybindings.dismiss) {
            return swallow(NextStep::Clear(self.dismiss()));
        }
        if let Some(nav) = navigation_of(key) {
            return swallow(NextStep::Navigate(nav, rows));
        }
        let line = self.maybe_apply_input_model(key, term);
        let outcome = KeyOutcome::Forward(key_to_bytes(key));
        match key {
            KeyEvent::Printable(_) | KeyEvent::Backspace => {
                self.trigger_requested = true;
                KeyStep { outcome, line, next: NextStep::Nothing }
            },
            _ => {
                let teardown = self.dismiss();
                KeyStep { outcome, line, next: NextStep::Clear(teardown) }
            },
        }
    }

    /// Processes a key while no popup is visible.
    pub fn process_key_hidden(
        &mut self,
        key: &KeyEvent,
        term: Option<&TerminalSnapshot>,
    ) -> (step: KeyStep)
        requires
            old(self).wf(),
            old(self)@.line.0.len() < usize::MAX,
        ensures
            hidden_step(
                old(self)@,
                key@,
                match term {
                    Some(t) => Some(*t),
                    None => None,
                },
                final(self)@,
                step,
            ),
            final(self).wf(),
    {
        if same_key(key, &self.settings.keybindings.trigger) {
            self.debounce_suppressed = false;
            let pending = match term {
                Some(t) => t.buffer_pending_display,
                None => false,
            };
            if !pending {
                return swallow(NextStep::Trigger);
            }
            self.trigger_requested = true;
            self.manual_trigger_stashed = true;
            let mut step = swallow(NextStep::Nothing);
            if self.settings.shell_kind != ShellKind::Zsh && !self.input_model.buffer.as_str().is_empty() {
                step.line = self.tracked_line();
            }
            return step;
        }
        let line = self.maybe_apply_input_model(key, term);
        match key {
            KeyEvent::Printable(_) => {
                self.debounce_suppressed = false;
            },
            KeyEvent::ArrowUp | KeyEvent::ArrowDown => {
                self.debounce_suppressed = true;
            },
            _ => {},
        }
        KeyStep {
            outcome: KeyOutcome::Forward(key_to_bytes(key)),
            line,
            next: NextStep::Nothing,
        }
    }

    /// Processes a single key event. The outcome holds the bytes to forward to the shell
    /// (none if the popup has swallowed the key), or says that the user has accepted the
    /// pinned "Ask AI" row.
    pub fn process_key(
        &mut self,
        key: &KeyEvent,
        term: Option<&TerminalSnapshot>,
        now: u64,
    ) -> (step: KeyStep)
        requires
            old(self).wf(),
            old(self)@.line.0.len() < usize::MAX,
            now <= u64::MAX - MODE_FLASH_MS,
        ensures
            key_step(
                old(self)@,
                key@,
                match term {
                    Some(t) => Some(*t),
                    None => None,
                },
                now,
                final(self)@,
                step,
            ),
            (term matches Some(t) ==> t.buffer_cursor <= t.line().len()) ==> final(self).wf(),
    {
        if self.popup.visible {
            self.process_key_visible(key, term, now)
        } else {
            self.process_key_hidden(key, term)
        }
    }
}

// ---- Laws ----

/// Accepting the pinned "Ask AI" row sends nothing to the shell and changes nothing, with
/// either accept key. So no answer of the language model is ever run by itself.
pub proof fn law_ask_ai_is_never_run(
    before: HandlerState,
    key: Key,
    term: Option<TerminalSnapshot>,
    now: u64,
    after: HandlerState,
    step: KeyStep,
)
    requires
        before.popup.visible,
        before.asks_ai(),
        visible_step(before, key, term, now, after, step),
        key == before.settings.keybindings.accept@ || key
            == before.settings.keybindings.accept_and_enter@,
        key != before.settings.keybindings.toggle_match_mode@,
        key != before.settings.keybindings.navigate_up@,
        key != before.settings.keybindings.navigate_down@,
    ensures
        step.outcome is AskAiAccept,
        step.outcome.bytes() == Seq::<u8>::empty(),
        after == before,
{
}

/// The line of a shell that reports it is never tracked.
pub proof fn law_reported_line_is_not_tracked(
    before: HandlerState,
    key: Key,
    term: Option<TerminalSnapshot>,
    now: u64,
    after: HandlerState,
    step: KeyStep,
)
    requires
        key_step(before, key, term, now, after, step),
        before.settings.shell_kind == ShellKind::Zsh,
    ensures
        after.line == before.line,
        step.line matches Some(update) ==> update.predicted,
{
}

/// A key that the popup swallows does not touch the tracked line: the shell does not see
/// it.
pub proof fn law_swallowed_key_keeps_line(
    before: HandlerState,
    key: Key,
    term: Option<TerminalSnapshot>,
    now: u64,
    after: HandlerState,
    step: KeyStep,
)
    requires
        visible_step(before, key, term, now, after, step),
        step.outcome.bytes() == Seq::<u8>::empty(),
        key_bytes(key).len() > 0,
    ensures
        after.line == before.line,
{
    if let (KeyAction::Accept, Some(t), Some(row)) = (
        before.visible_action(key),
        term,
        before.accepted_row(),
    ) {
        law_accept_deletes_in_front_of_cursor(t, row);
        let bytes = t.accept_bytes(row);
        assert(bytes.push(0x20).len() > 0);
        if row.text@.len() > 0 {
            assert(escaped(row.text@, t.context.quote_state).len() > 0);
            assert(t.replacement(row).len() > 0);
            lemma_utf8_nonempty(t.replacement(row));
            assert(bytes.len() > 0);
        }
    }
}

/// With no popup shown every key but the trigger reaches the shell as it is.
pub proof fn law_hidden_keys_reach_the_shell(
    before: HandlerState,
    key: Key,
    term: Option<TerminalSnapshot>,
    after: HandlerState,
    step: KeyStep,
)
    requires
        hidden_step(before, key, term, after, step),
        key != before.settings.keybindings.trigger@,
    ensures
        step.outcome is Forward,
        step.outcome.bytes() == key_bytes(key),
        after.popup == before.popup,
        after.screen == before.screen,
{
}

/// The trigger key keeps the line that is to be completed.
pub proof fn law_trigger_keeps_line(
    before: HandlerState,
    key: Key,
    term: Option<TerminalSnapshot>,
    after: HandlerState,
    step: KeyStep,
)
    requires
        hidden_step(before, key, term, after, step),
        key == before.settings.keybindings.trigger@,
    ensures
        after.line == before.line,
        step.outcome.bytes() == Seq::<u8>::empty(),
{
}

/// Typing and deleting keep a visible popup on the screen, and ask for it to be computed
/// anew.
pub proof fn law_typing_keeps_popup(
    before: HandlerState,
    key: Key,
    term: Option<TerminalSnapshot>,
    now: u64,
    after: HandlerState,
    step: KeyStep,
)
    requires
        visible_step(before, key, term, now, after, step),
        before.visible_action(key) is Retype,
    ensures
        after.popup == before.popup,
        after.screen == before.screen,
        after.work == before.work,
        after.trigger_requested,
{
}

/// Switching the match mode twice restores it.
pub proof fn law_mode_toggles_back(h: HandlerState, now: u64, later: u64)
    ensures
        h.mode_toggled(now).mode_toggled(later).settings == h.settings,
{
}

/// A popup has at least one visible row to move in, and no more than the screen can show.
pub proof fn law_visible_rows_fit(settings: Settings, term: TerminalSnapshot)
    ensures
        visible_rows(settings, Some(term)) >= 1,
        visible_rows(settings, Some(term)) <= settings.max_visible || settings.max_visible == 0,
        ({
            let pad: int = if settings.theme.borders {
                2
            } else {
                0
            };
            term.geometry.screen_rows > 1 + pad ==> visible_rows(settings, Some(term)) + 1 + pad
                <= term.geometry.screen_rows
        }),
{
}

/// The key is bound to an action of the popup.
pub open spec fn is_bound(h: HandlerState, key: Key) -> bool {
    let keys = h.settings.keybindings;
    key == keys.accept@ || key == keys.accept_and_enter@ || key == keys.dismiss@ || key
        == keys.navigate_up@ || key == keys.navigate_down@ || key == keys.toggle_match_mode@
}

/// A page key, or Home or End in any of their encodings.
pub open spec fn is_moving_key(key: Key) -> bool {
    matches!(
        key,
        Key::PageUp
        | Key::PageDown
        | Key::Home
        | Key::HomeCsiTilde
        | Key::HomeCsi7Tilde
        | Key::HomeSs3
        | Key::End
        | Key::EndCsiTilde
        | Key::EndCsi8Tilde
        | Key::EndSs3
    )
}

/// Any other key takes the popup down and goes to the shell: one that is bound to nothing,
/// moves nothing, and neither types nor deletes a character. Its effect on the line is
/// tracked.
pub proof fn law_other_key_takes_popup_down(
    before: HandlerState,
    key: Key,
    term: Option<TerminalSnapshot>,
    now: u64,
    after: HandlerState,
    step: KeyStep,
)
    requires
        key_step(before, key, term, now, after, step),
        before.popup.visible,
        !is_bound(before, key),
        !is_moving_key(key),
        !(key is Printable),
        key != Key::Backspace,
    ensures
        !after.popup.visible,
        after.popup.suggestions.len() == 0,
        !after.work.dynamic_rx && !after.work.dynamic_task,
        !after.trigger_requested,
        step.next == NextStep::Clear(before.teardown()),
        step.outcome is Forward,
        step.outcome.bytes() == key_bytes(key),
        before.settings.shell_kind != ShellKind::Zsh ==> after.line == edit(before.line, key),
        after.settings == before.settings,
{
}

/// A typed character and Backspace, where they are bound to nothing, go to the shell, and
/// the popup stays as it is and is asked to be computed anew.
pub proof fn law_typing_key_keeps_popup(
    before: HandlerState,
    key: Key,
    term: Option<TerminalSnapshot>,
    now: u64,
    after: HandlerState,
    step: KeyStep,
)
    requires
        key_step(before, key, term, now, after, step),
        before.popup.visible,
        !is_bound(before, key),
        key is Printable || key == Key::Backspace,
    ensures
        after.popup == before.popup,
        after.screen == before.screen,
        after.work == before.work,
        after.trigger_requested,
        step.next is Nothing,
        step.outcome is Forward,
        step.outcome.bytes() == key_bytes(key),
        before.settings.shell_kind != ShellKind::Zsh ==> after.line == edit(before.line, key),
{
}

/// The page keys, Home and End move the selection where they are bound to nothing, and the
/// two bound keys do. The shell sees none of it, and nothing else changes.
pub proof fn law_moving_keys_move_the_selection(
    before: HandlerState,
    key: Key,
    term: Option<TerminalSnapshot>,
    now: u64,
    after: HandlerState,
    step: KeyStep,
)
    requires
        key_step(before, key, term, now, after, step),
        before.popup.visible,
        key != before.settings.keybindings.toggle_match_mode@,
    ensures
        ({
            let keys = before.settings.keybindings;
            let moves = |to: Navigation|
                step.next matches NextStep::Navigate(nav, rows) && nav == to && rows
                    == visible_rows(before.settings, term) && after == before
                    && step.outcome is Forward && step.outcome.bytes().len() == 0
                    && step.line is None;
            &&& key == keys.navigate_up@ ==> moves(Navigation::Up)
            &&& key == keys.navigate_down@ && key != keys.navigate_up@ ==> moves(Navigation::Down)
            &&& !is_bound(before, key) && key == Key::PageUp ==> moves(Navigation::PageUp)
            &&& !is_bound(before, key) && key == Key::PageDown ==> moves(Navigation::PageDown)
            &&& !is_bound(before, key) && (key == Key::Home || key == Key::HomeSs3 || key
                == Key::HomeCsiTilde || key == Key::HomeCsi7Tilde) ==> moves(Navigation::Home)
            &&& !is_bound(before, key) && (key == Key::End || key == Key::EndSs3 || key
                == Key::EndCsiTilde || key == Key::EndCsi8Tilde) ==> moves(Navigation::End)
        }),
{
}

/// The dismiss key takes the popup down, and the shell sees nothing of it.
pub proof fn law_dismiss_key_only_dismisses(
    before: HandlerState,
    key: Key,
    term: Option<TerminalSnapshot>,
    now: u64,
    after: HandlerState,
    step: KeyStep,
)
    requires
        key_step(before, key, term, now, after, step),
        before.popup.visible,
        key == before.settings.keybindings.dismiss@,
        key != before.settings.keybindings.toggle_match_mode@,
        key != before.settings.keybindings.navigate_up@,
        key != before.settings.keybindings.navigate_down@,
        key != before.settings.keybindings.accept@,
        key != before.settings.keybindings.accept_and_enter@,
    ensures
        !after.popup.visible,
        after.popup.suggestions.len() == 0,
        !after.trigger_requested,
        step.next == NextStep::Clear(before.teardown()),
        step.outcome is Forward && step.outcome.bytes().len() == 0,
        step.line is None,
        after.line == before.line,
        after.settings == before.settings,
{
}

/// The mode key switches between the two match modes, keeps the popup, shows the new mode
/// for a second, and has the suggestions computed anew. The shell sees nothing of it.
pub proof fn law_mode_key_switches_the_mode(
    before: HandlerState,
    key: Key,
    term: Option<TerminalSnapshot>,
    now: u64,
    after: HandlerState,
    step: KeyStep,
)
    requires
        key_step(before, key, term, now, after, step),
        before.popup.visible,
        key == before.settings.keybindings.toggle_match_mode@,
        now <= u64::MAX - 1000,
    ensures
        after.settings.match_mode != before.settings.match_mode,
        after.settings == (Settings {
            match_mode: after.settings.match_mode,
            ..before.settings
        }),
        after.mode_flash == Some((after.settings.match_mode, (now + 1000) as u64)),
        after.fingerprint is None,
        after.popup == before.popup,
        after.work == before.work,
        after.line == before.line,
        step.next is Trigger,
        step.outcome is Forward && step.outcome.bytes().len() == 0,
        step.line is None,
{
}

/// Where there is no row to accept, the accept key goes to the shell, and the popup goes.
pub proof fn law_accept_key_without_row_goes_to_shell(
    before: HandlerState,
    key: Key,
    term: Option<TerminalSnapshot>,
    now: u64,
    after: HandlerState,
    step: KeyStep,
)
    requires
        key_step(before, key, term, now, after, step),
        before.popup.visible,
        key == before.settings.keybindings.accept@,
        key != before.settings.keybindings.toggle_match_mode@,
        key != before.settings.keybindings.navigate_up@,
        key != before.settings.keybindings.navigate_down@,
        before.popup.overlay.selected is None,
        !before.settings.tab_accepts_top,
    ensures
        !after.popup.visible,
        step.next == NextStep::Clear(before.teardown()),
        step.outcome is Forward,
        step.outcome.bytes() == key_bytes(key),
        step.line is None,
        after.line == before.line,
{
}

/// The accept key types the selected row. A directory keeps the popup, for what is inside
/// of it; with any other row the popup goes, and a space follows, unless a value is to
/// follow or the row is a line of the history.
pub proof fn law_accept_key_types_the_row(
    before: HandlerState,
    key: Key,
    t: TerminalSnapshot,
    now: u64,
    after: HandlerState,
    step: KeyStep,
    i: usize,
)
    requires
        key_step(before, key, Some(t), now, after, step),
        before.popup.visible,
        key == before.settings.keybindings.accept@,
        key != before.settings.keybindings.toggle_match_mode@,
        key != before.settings.keybindings.navigate_up@,
        key != before.settings.keybindings.navigate_down@,
        before.popup.overlay.selected == Some(i),
        i < before.popup.suggestions.len(),
        before.popup.suggestions[i as int].kind != SuggestionKind::AskAi,
    ensures
        ({
            let row = before.popup.suggestions[i as int];
            let text = row.text@;
            let history = row.kind == SuggestionKind::History;
            let chains = !history && text.len() > 0 && text.last() == '/';
            let value = text.len() > 0 && text.last() == '=';
            &&& step.outcome is Forward
            &&& chains ==> step.next is Chain && after.popup == before.popup
                && step.outcome.bytes() == t.accept_bytes(row) && (step.line matches Some(update)
                && update.text@ == t.predicted_line(row) && update.cursor == t.predicted_head(
                row,
            ).len() && update.predicted)
            &&& !chains ==> step.next == NextStep::Clear(before.teardown()) && !after.popup.visible
                && step.line is None
            &&& !chains && (history || value) ==> step.outcome.bytes() == t.accept_bytes(row)
            &&& !chains && !history && !value ==> step.outcome.bytes() == t.accept_bytes(row)
                + seq![' ' as u8]
        }),
{
    let row = before.popup.suggestions[i as int];
    assert(t.accept_bytes(row).push(0x20) =~= t.accept_bytes(row) + seq![' ' as u8]);
}

/// The accept-and-run key types the selected row, or nothing where none is selected, and
/// ends the line. The popup goes.
pub proof fn law_run_key_ends_the_line(
    before: HandlerState,
    key: Key,
    term: Option<TerminalSnapshot>,
    now: u64,
    after: HandlerState,
    step: KeyStep,
)
    requires
        key_step(before, key, term, now, after, step),
        before.popup.visible,
        key == before.settings.keybindings.accept_and_enter@,
        key != before.settings.keybindings.toggle_match_mode@,
        key != before.settings.keybindings.navigate_up@,
        key != before.settings.keybindings.navigate_down@,
        key != before.settings.keybindings.accept@,
        before.popup.suggestions.len() <= usize::MAX,
        before.popup.overlay.selected matches Some(i) ==> i < before.popup.suggestions.len()
            && before.popup.suggestions[i as int].kind != SuggestionKind::AskAi,
    ensures
        step.outcome is Forward,
        step.outcome.bytes() == (match (term, before.popup.overlay.selected) {
            (Some(t), Some(i)) => t.accept_bytes(before.popup.suggestions[i as int]),
            _ => Seq::empty(),
        }) + seq![0x0Du8],
        step.next == NextStep::Clear(before.teardown()),
        !after.popup.visible,
        after.popup.suggestions.len() == 0,
        step.line is None,
{
    if before.popup.overlay.selected is None {
        law_ask_ai_needs_selection(before);
    }
    let typed = match (term, before.popup.overlay.selected) {
        (Some(t), Some(i)) => t.accept_bytes(before.popup.suggestions[i as int]),
        _ => Seq::empty(),
    };
    assert(typed.push(0x0D) =~= typed + seq![0x0Du8]);
}

/// With no popup shown, typing wakes the automatic trigger up, recalling a line puts it to
/// sleep, and no other key but the trigger touches it; and each of them is tracked.
pub proof fn law_hidden_keys_wake_and_suppress(
    before: HandlerState,
    key: Key,
    term: Option<TerminalSnapshot>,
    now: u64,
    after: HandlerState,
    step: KeyStep,
)
    requires
        key_step(before, key, term, now, after, step),
        !before.popup.visible,
        key != before.settings.keybindings.trigger@,
    ensures
        key is Printable ==> !after.debounce_suppressed,
        key == Key::ArrowUp || key == Key::ArrowDown ==> after.debounce_suppressed,
        !(key is Printable) && key != Key::ArrowUp && key != Key::ArrowDown
            ==> after.debounce_suppressed == before.debounce_suppressed,
        before.settings.shell_kind != ShellKind::Zsh ==> after.line == edit(before.line, key),
        after == (HandlerState {
            debounce_suppressed: after.debounce_suppressed,
            line: after.line,
            ..before
        }),
        step.next is Nothing,
        step.outcome is Forward,
        step.outcome.bytes() == key_bytes(key),
{
}

/// The trigger key computes suggestions at once, unless the shell has not echoed the line
/// yet: then the trigger is remembered. It wakes the automatic trigger up.
pub proof fn law_trigger_key_computes_or_waits(
    before: HandlerState,
    key: Key,
    term: Option<TerminalSnapshot>,
    now: u64,
    after: HandlerState,
    step: KeyStep,
)
    requires
        key_step(before, key, term, now, after, step),
        !before.popup.visible,
        key == before.settings.keybindings.trigger@,
    ensures
        ({
            let waits = term matches Some(t) && t.buffer_pending_display;
            &&& !waits ==> step.next is Trigger && after.trigger_requested
                == before.trigger_requested && after.manual_trigger_stashed
                == before.manual_trigger_stashed && step.line is None
            &&& waits ==> step.next is Nothing && after.trigger_requested
                && after.manual_trigger_stashed
            &&& waits && before.settings.shell_kind != ShellKind::Zsh && before.line.0.len() > 0
                ==> (step.line matches Some(update) && update.text@ == before.line.0
                && update.cursor == before.line.1 && !update.predicted)
        }),
        !after.debounce_suppressed,
        after.popup == before.popup,
        after.line == before.line,
        step.outcome is Forward && step.outcome.bytes().len() == 0,
{
}

/// The terminal's state is told of a line that is tracked as soon as a key changes it, also
/// where a key empties it by deleting; a line that is given up is not told, nor is one that
/// stays as it was.
pub proof fn law_tracked_changes_are_told(
    before: HandlerState,
    key: Key,
    t: TerminalSnapshot,
    now: u64,
    after: HandlerState,
    step: KeyStep,
)
    requires
        key_step(before, key, Some(t), now, after, step),
        !before.popup.visible,
        key != before.settings.keybindings.trigger@,
        before.settings.shell_kind != ShellKind::Zsh,
    ensures
        ({
            let told = step.line matches Some(update) && update.text@ == after.line.0
                && update.cursor == after.line.1 && !update.predicted;
            let deletes = key == Key::Backspace || key == Key::Ctrl('u') || key == Key::Ctrl('w');
            &&& after.line != before.line && after.line.0.len() > 0 ==> told
            &&& after.line != before.line && deletes ==> told
            &&& after.line == before.line && key != Key::Enter ==> step.line is None
            &&& after.line.0.len() == 0 && !deletes ==> step.line is None
        }),
{
}

/// Keys are moved in by as many rows as the popup has, or as fit on the screen beside the
/// line and the borders, if those are fewer.
pub proof fn law_visible_rows_are_what_fits(settings: Settings, term: TerminalSnapshot)
    requires
        settings.max_visible >= 1,
    ensures
        visible_rows(settings, None) == settings.max_visible,
        ({
            let taken: int = if settings.theme.borders {
                3
            } else {
                1
            };
            let left = term.geometry.screen_rows - taken;
            &&& left >= settings.max_visible ==> visible_rows(settings, Some(term))
                == settings.max_visible
            &&& 1 <= left < settings.max_visible ==> visible_rows(settings, Some(term)) == left
        }),
{
}

} // verus!
