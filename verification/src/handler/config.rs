//! Setting the handler up, and asking for its state.

use vstd::prelude::*;

use crate::feedback::AsyncFeedback;
use crate::handler::fingerprint::TriggerFingerprint;
use crate::handler::keys::Keybindings;
use crate::handler::merge::is_pinned;
use crate::handler::overlay::PopupLayout;
use crate::handler::screen::Screen;
use crate::handler::site::DynamicCtxSnapshot;
use crate::handler::state::DescriptionBoxMode;
use crate::handler::state::HandlerState;
use crate::handler::state::InputHandler;
use crate::handler::state::MatchMode;
use crate::handler::state::PopupState;
use crate::handler::state::PopupTheme;
use crate::handler::state::ProviderSlot;
use crate::handler::state::Settings;
use crate::handler::state::ShellKind;
use crate::handler::state::WorkState;
use crate::model::CommandContext;
use crate::model::Suggestion;

verus! {

impl HandlerState {
    /// With other settings, and nothing else changed.
    pub open spec fn set(self, settings: Settings) -> HandlerState {
        HandlerState { settings, ..self }
    }
}

impl InputHandler {
    pub fn with_async_provider(self, provider: ProviderSlot) -> (handler: Self)
        ensures
            handler@ == (HandlerState { providers: self@.providers.push(provider), ..self@ }),
            handler.wf() == self.wf(),
    {
        let mut handler = self;
        handler.async_providers.push(provider);
        handler
    }

    /// Replaces the asynchronous providers. The next trigger starts the new ones.
    pub fn set_async_providers(&mut self, providers: Vec<ProviderSlot>)
        ensures
            final(self)@ == (HandlerState { providers: providers@, ..old(self)@ }),
            final(self).wf() == old(self).wf(),
    {
        self.async_providers = providers;
    }

    pub fn has_async_providers(&self) -> (has: bool)
        ensures
            has == (self@.providers.len() > 0),
    {
        self.async_providers.len() > 0
    }

    /// Makes "Ask AI" available, or not.
    pub fn with_ask_ai_provider(self, available: bool) -> (handler: Self)
        ensures
            handler@ == (HandlerState { ask_ai: available, ..self@ }),
            handler.wf() == self.wf(),
    {
        let mut handler = self;
        handler.ask_ai = available;
        handler
    }

    pub fn set_ask_ai_provider(&mut self, available: bool)
        ensures
            final(self)@ == (HandlerState { ask_ai: available, ..old(self)@ }),
            final(self).wf() == old(self).wf(),
    {
        self.ask_ai = available;
    }

    pub fn ask_ai_active(&self) -> (active: bool)
        ensures
            active == self@.ask_ai,
    {
        self.ask_ai
    }

    pub fn with_popup_config(self, max_visible: usize) -> (handler: Self)
        ensures
            handler@ == self@.set(Settings { max_visible, ..self@.settings }),
            handler.wf() == self.wf(),
    {
        let mut handler = self;
        handler.settings.max_visible = max_visible;
        handler
    }

    pub fn with_feedback_dismiss_ms(self, ms: u16) -> (handler: Self)
        ensures
            handler@ == self@.set(Settings { feedback_dismiss_ms: ms, ..self@.settings }),
            handler.wf() == self.wf(),
    {
        let mut handler = self;
        handler.settings.feedback_dismiss_ms = ms;
        handler
    }

    /// Sets how long a trigger waits for providers before painting; 0 paints at once.
    pub fn with_render_block_ms(self, ms: u64) -> (handler: Self)
        ensures
            handler@ == self@.set(Settings { render_block_ms: ms, ..self@.settings }),
            handler.wf() == self.wf(),
    {
        let mut handler = self;
        handler.settings.render_block_ms = ms;
        handler
    }

    pub fn render_block_ms(&self) -> (ms: u64)
        ensures
            ms == self@.settings.render_block_ms,
    {
        self.settings.render_block_ms
    }

    pub fn tab_accepts_top(&self) -> (enabled: bool)
        ensures
            enabled == self@.settings.tab_accepts_top,
    {
        self.settings.tab_accepts_top
    }

    pub fn with_tab_accepts_top(self, enabled: bool) -> (handler: Self)
        ensures
            handler@ == self@.set(Settings { tab_accepts_top: enabled, ..self@.settings }),
            handler.wf() == self.wf(),
    {
        let mut handler = self;
        handler.settings.tab_accepts_top = enabled;
        handler
    }

    pub fn shell_kind(&self) -> (kind: ShellKind)
        ensures
            kind == self@.settings.shell_kind,
    {
        self.settings.shell_kind
    }

    pub fn with_shell_kind(self, kind: ShellKind) -> (handler: Self)
        ensures
            handler@ == self@.set(Settings { shell_kind: kind, ..self@.settings }),
            handler.wf() == self.wf(),
    {
        let mut handler = self;
        handler.settings.shell_kind = kind;
        handler
    }

    pub fn with_popup_widths(self, min_width: u16, max_width: u16) -> (handler: Self)
        ensures
            handler@ == self@.set(
                Settings {
                    min_popup_width: min_width,
                    max_popup_width: max_width,
                    ..self@.settings
                },
            ),
            handler.wf() == self.wf(),
    {
        let mut handler = self;
        handler.settings.min_popup_width = min_width;
        handler.settings.max_popup_width = max_width;
        handler
    }

    /// Sets up the description box beside the popup.
    pub fn with_description_box(
        self,
        mode: DescriptionBoxMode,
        max_width: u16,
        lines: u16,
        debounce_ms: u16,
    ) -> (handler: Self)
        ensures
            handler@ == self@.set(
                Settings {
                    detail_box_mode: mode,
                    detail_box_max_width: max_width,
                    detail_box_lines: lines,
                    detail_box_debounce_ms: debounce_ms as u64,
                    ..self@.settings
                },
            ),
            handler.wf() == self.wf(),
    {
        let mut handler = self;
        handler.settings.detail_box_mode = mode;
        handler.settings.detail_box_max_width = max_width;
        handler.settings.detail_box_lines = lines;
        handler.settings.detail_box_debounce_ms = debounce_ms as u64;
        handler
    }

    pub fn with_auto_trigger(self, auto_trigger: bool) -> (handler: Self)
        ensures
            handler@ == self@.set(Settings { auto_trigger, ..self@.settings }),
            handler.wf() == self.wf(),
    {
        let mut handler = self;
        handler.settings.auto_trigger = auto_trigger;
        handler
    }

    pub fn with_keybindings(self, keybindings: Keybindings) -> (handler: Self)
        ensures
            handler@ == self@.set(Settings { keybindings, ..self@.settings }),
            handler.wf() == self.wf(),
    {
        let mut handler = self;
        handler.settings.keybindings = keybindings;
        handler
    }

    pub fn with_theme(self, theme: PopupTheme) -> (handler: Self)
        ensures
            handler@ == self@.set(Settings { theme, ..self@.settings }),
            handler.wf() == self.wf(),
    {
        let mut handler = self;
        handler.settings.theme = theme;
        handler
    }

    pub fn with_match_mode(self, mode: MatchMode) -> (handler: Self)
        ensures
            handler@ == self@.set(Settings { match_mode: mode, ..self@.settings }),
            handler.wf() == self.wf(),
    {
        let mut handler = self;
        handler.settings.match_mode = mode;
        handler
    }

    /// Sets the typing-pause debounce window.
    pub fn with_delay_ms(self, ms: u64) -> (handler: Self)
        ensures
            handler@ == self@.set(Settings { delay_ms: ms, ..self@.settings }),
            handler.wf() == self.wf(),
    {
        let mut handler = self;
        handler.settings.delay_ms = ms;
        handler
    }

    /// Changes the debounce window at runtime; it holds from the next cycle on.
    pub fn set_delay_ms(&mut self, ms: u64)
        ensures
            final(self)@ == old(self)@.set(Settings { delay_ms: ms, ..old(self)@.settings }),
            final(self).wf() == old(self).wf(),
    {
        self.settings.delay_ms = ms;
    }

    pub fn delay_ms(&self) -> (ms: u64)
        ensures
            ms == self@.settings.delay_ms,
    {
        self.settings.delay_ms
    }

    /// When the key hint goes back to normal.
    pub fn mode_flash_deadline(&self) -> (deadline: Option<u64>)
        ensures
            deadline == (match self@.mode_flash {
                Some((_, at)) => Some(at),
                None => None,
            }),
    {
        match self.mode_flash {
            Some((_, at)) => Some(at),
            None => None,
        }
    }

    pub fn clear_mode_flash(&mut self)
        ensures
            final(self)@ == (HandlerState { mode_flash: None, ..old(self)@ }),
            final(self).wf() == old(self).wf(),
    {
        self.mode_flash = None;
    }

    pub fn has_pending_trigger(&self) -> (pending: bool)
        ensures
            pending == self@.trigger_requested,
    {
        self.trigger_requested
    }

    pub fn clear_trigger_request(&mut self)
        ensures
            final(self)@ == (HandlerState { trigger_requested: false, ..old(self)@ }),
            final(self).wf() == old(self).wf(),
    {
        self.trigger_requested = false;
    }

    /// Whether the trigger key waits for the shell's echo. It does so once.
    pub fn take_manual_trigger_stashed(&mut self) -> (stashed: bool)
        ensures
            stashed == old(self)@.manual_trigger_stashed,
            final(self)@ == (HandlerState { manual_trigger_stashed: false, ..old(self)@ }),
            final(self).wf() == old(self).wf(),
    {
        let stashed = self.manual_trigger_stashed;
        self.manual_trigger_stashed = false;
        stashed
    }

    pub fn set_manual_trigger_stashed(&mut self)
        ensures
            final(self)@ == (HandlerState { manual_trigger_stashed: true, ..old(self)@ }),
            final(self).wf() == old(self).wf(),
    {
        self.manual_trigger_stashed = true;
    }

    pub fn is_debounce_suppressed(&self) -> (suppressed: bool)
        ensures
            suppressed == self@.debounce_suppressed,
    {
        self.debounce_suppressed
    }

    pub fn auto_trigger_enabled(&self) -> (enabled: bool)
        ensures
            enabled == self@.settings.auto_trigger,
    {
        self.settings.auto_trigger
    }

    /// A channel that was taken out is open again.
    pub fn restore_dynamic_rx(&mut self)
        ensures
            final(self)@ == (HandlerState {
                work: WorkState { dynamic_rx: true, ..old(self)@.work },
                ..old(self)@
            }),
            final(self).wf() == old(self).wf(),
    {
        self.work.dynamic_rx = true;
    }

    pub fn has_dynamic_rx(&self) -> (open: bool)
        ensures
            open == self@.work.dynamic_rx,
    {
        self.work.dynamic_rx
    }

    pub fn has_dynamic_task(&self) -> (owned: bool)
        ensures
            owned == self@.work.dynamic_task,
    {
        self.work.dynamic_task
    }

    /// Takes the channel out. `true` if there was one.
    pub fn take_dynamic_rx(&mut self) -> (open: bool)
        ensures
            open == old(self)@.work.dynamic_rx,
            final(self)@ == (HandlerState {
                work: WorkState { dynamic_rx: false, ..old(self)@.work },
                ..old(self)@
            }),
            final(self).wf() == old(self).wf(),
    {
        let open = self.work.dynamic_rx;
        self.work.dynamic_rx = false;
        open
    }

    pub fn feedback_kind(&self) -> (feedback: &AsyncFeedback)
        ensures
            feedback@ == self@.work.feedback,
    {
        &self.work.feedback
    }

    pub fn output_epoch(&self) -> (epoch: u64)
        ensures
            epoch == self@.screen.output_epoch,
    {
        self.screen.output_epoch
    }

    pub fn theme(&self) -> (theme: &PopupTheme)
        ensures
            *theme == self@.settings.theme,
    {
        &self.settings.theme
    }

    pub fn is_visible(&self) -> (visible: bool)
        ensures
            visible == self@.popup.visible,
    {
        self.popup.visible
    }

    pub fn set_visible(&mut self, visible: bool)
        ensures
            final(self)@ == (HandlerState {
                popup: PopupState { visible, ..old(self)@.popup },
                ..old(self)@
            }),
            final(self).wf() == old(self).wf(),
    {
        self.popup.visible = visible;
    }

    /// Shows the given suggestions as if they had been painted near the top of the screen.
    pub fn force_visible_for_test(&mut self, suggestions: Vec<Suggestion>)
        ensures
            is_pinned(suggestions@, old(self)@.ask_ai, final(self)@.popup.suggestions),
            final(self)@ == (HandlerState {
                screen: Screen {
                    last_layout: Some(
                        PopupLayout {
                            start_row: 5,
                            start_col: 0,
                            width: 20,
                            height: 1,
                            scroll_deficit: 0,
                        },
                    ),
                    ..old(self)@.screen
                },
                ..old(self)@.showing(final(self)@.popup.suggestions)
            }),
            final(self).wf() == old(self).wf(),
    {
        self.replace_suggestions_and_reset_overlay(suggestions);
        self.popup.visible = true;
        self.screen.last_layout = Some(
            PopupLayout { start_row: 5, start_col: 0, width: 20, height: 1, scroll_deficit: 0 },
        );
    }

    pub fn current_suggestions(&self) -> (rows: &[Suggestion])
        ensures
            rows@ == self@.popup.suggestions,
    {
        self.popup.suggestions.as_slice()
    }

    pub fn set_spawned_generation(&mut self, generation: u64)
        ensures
            final(self)@ == (HandlerState { spawned_generation: generation, ..old(self)@ }),
            final(self).wf() == old(self).wf(),
    {
        self.spawned_generation = generation;
    }

    pub fn set_buffer_generation(&mut self, generation: u64)
        ensures
            final(self)@ == (HandlerState { buffer_generation: generation, ..old(self)@ }),
            final(self).wf() == old(self).wf(),
    {
        self.buffer_generation = generation;
    }

    /// Takes a completion site for that of the running providers.
    pub fn prime_dynamic_ctx_for_buffer(&mut self, ctx: &CommandContext)
        ensures
            final(self)@ == (HandlerState {
                work: WorkState { site: Some(ctx.site()), ..old(self)@.work },
                ..old(self)@
            }),
            final(self).wf() == old(self).wf(),
    {
        self.work.dynamic_ctx = Some(DynamicCtxSnapshot::capture(ctx));
    }

    /// A task that runs providers is owned from now on.
    pub fn seed_dynamic_task_noop(&mut self)
        ensures
            final(self)@ == (HandlerState {
                work: WorkState { dynamic_task: true, ..old(self)@.work },
                ..old(self)@
            }),
            final(self).wf() == old(self).wf(),
    {
        self.work.dynamic_task = true;
    }

    pub fn last_trigger_fingerprint(&self) -> (fingerprint: Option<TriggerFingerprint>)
        ensures
            fingerprint == self@.fingerprint,
    {
        self.last_trigger_fingerprint
    }
}

} // verus!
