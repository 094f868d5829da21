use pty::proxy::osc_filter::PrivateOscFilter;
use pty::proxy::trigger::buffer_dirty_action;
use pty::proxy::trigger::Action;
use pty::proxy::trigger::BufferDirtyAction;
use pty::proxy::trigger::PendingTrigger;

fn apply_buffer_dirty_action(slot: &mut PendingTrigger, action: BufferDirtyAction) {
    slot.apply(action);
}

#[test]
fn private_osc_filter_strips_shell_env_frames() {
    let mut filter = PrivateOscFilter::default();

    let out = filter.filter(b"before\x1b]7773;AWS_PROFILE%3Ddev%00SECRET%3Dx\x07after");

    assert_eq!(out, b"beforeafter");
}

#[test]
fn private_osc_filter_preserves_other_osc_frames() {
    let mut filter = PrivateOscFilter::default();

    // OSC 7 (CWD) is non-private and must pass through unchanged.
    let input = b"before\x1b]7;file:///tmp/work\x07after";
    let out = filter.filter(input);

    assert_eq!(out, input);
}

#[test]
fn private_osc_filter_strips_shell_env_frames_across_chunks() {
    let mut filter = PrivateOscFilter::default();

    let first = filter.filter(b"before\x1b]777");
    let second = filter.filter(b"3;AWS_PROFILE%3Ddev");
    let third = filter.filter(b"%00SECRET%3Dx\x07after");

    assert_eq!(first, b"before");
    assert!(second.is_empty());
    assert_eq!(third, b"after");
}

#[test]
fn private_osc_filter_strips_osc_7770() {
    let mut f = PrivateOscFilter::default();
    let input = b"\x1b]7770;git checkout\x07hello";
    assert_eq!(f.filter(input), b"hello");
}

#[test]
fn private_osc_filter_strips_osc_7771() {
    let mut f = PrivateOscFilter::default();
    let input = b"\x1b]7771;A\x07prompt";
    assert_eq!(f.filter(input), b"prompt");
}

#[test]
fn private_osc_filter_strips_osc_7772() {
    let mut f = PrivateOscFilter::default();
    let input = b"\x1b]7772;0;buffer\x07tail";
    assert_eq!(f.filter(input), b"tail");
}

#[test]
fn private_osc_filter_still_strips_osc_7773() {
    let mut f = PrivateOscFilter::default();
    let input = b"\x1b]7773;PATH%3D%2Fbin%00\x07rest";
    assert_eq!(f.filter(input), b"rest");
}

#[test]
fn private_osc_filter_strips_osc_7774_env_truncated() {
    let mut f = PrivateOscFilter::default();
    let input = b"\x1b]7774;env_truncated;65536\x07tail";
    assert_eq!(f.filter(input), b"tail");
}

#[test]
fn private_osc_filter_strips_osc_7774_zle_hook_disabled() {
    let mut f = PrivateOscFilter::default();
    let input = b"\x1b]7774;zle_hook_disabled;completion%3Afoo\x07tail";
    assert_eq!(f.filter(input), b"tail");
}

#[test]
fn private_osc_filter_preserves_osc_7_cwd() {
    let mut f = PrivateOscFilter::default();
    let input = b"\x1b]7;file:///tmp\x07tail";
    // Non-GC-private OSC must pass through.
    assert_eq!(f.filter(input), &input[..]);
}

#[test]
fn private_osc_filter_preserves_osc_133() {
    let mut f = PrivateOscFilter::default();
    let input = b"\x1b]133;A\x07tail";
    assert_eq!(f.filter(input), &input[..]);
}

#[test]
fn private_osc_filter_preserves_osc_633_vscode() {
    let mut f = PrivateOscFilter::default();
    let input = b"\x1b]633;A\x07tail";
    assert_eq!(f.filter(input), &input[..]);
}

#[test]
fn private_osc_filter_strips_st_terminated_private_frame_without_semicolon() {
    // Regression: vte parses `\x1b]7773\x1b\\` as a complete OSC 7773
    // terminated by ST with no `;`. The filter must strip it entirely
    // rather than leaking the `\x1b]7773` prefix to the terminal.
    let mut f = PrivateOscFilter::default();
    let input = b"\x1b]7773\x1b\\rest";
    assert_eq!(f.filter(input), b"rest");
}

#[test]
fn private_osc_filter_strips_st_terminated_private_frame_across_chunks() {
    let mut f = PrivateOscFilter::default();
    let first = f.filter(b"\x1b]7773;da");
    let second = f.filter(b"ta\x1b\\rest");
    assert!(first.is_empty());
    assert_eq!(second, b"rest");
}

#[test]
fn private_osc_filter_preserves_osc8_hyperlink_with_multiple_semicolons() {
    // OSC 8 hyperlinks carry multiple `;` in the payload; a non-private
    // code must pass through unchanged regardless of payload structure.
    let mut f = PrivateOscFilter::default();
    let input = b"\x1b]8;;https://example.com\x07tail";
    assert_eq!(f.filter(input), &input[..]);
}

#[test]
fn private_osc_filter_preserves_osc_code_that_is_prefix_of_private_code() {
    // `777` is a prefix of `7770`-`7774` but is not itself private.
    let mut f = PrivateOscFilter::default();
    let input = b"\x1b]777;x\x07tail";
    assert_eq!(f.filter(input), &input[..]);
}

#[test]
fn private_osc_filter_preserves_st_terminated_non_private_frame() {
    // Regression: the `byte == 0x1b` branch in `CodeAcc` must flush the
    // prefix and re-enter `Esc` (not `StripEsc`) when `acc` is not a
    // private code. A regression that always entered `StripEsc` here
    // would silently swallow legitimate OSC 133 ST-terminated frames.
    let mut f = PrivateOscFilter::default();
    let input = b"\x1b]133\x1b\\tail";
    assert_eq!(f.filter(input), &input[..]);
}

#[test]
fn private_osc_filter_passes_long_six_digit_osc_through_unchanged() {
    // Pin that long OSC codes pass through unchanged so a 6+ digit input
    // is never silently consumed — the filter must only intercept the
    // known private 4-digit `777x` band.
    let mut f = PrivateOscFilter::default();
    let input = b"\x1b]123456;x\x07tail";
    assert_eq!(f.filter(input), &input[..]);
}

#[test]
fn buffer_dirty_action_triggers_immediately_when_delay_zero_and_display_caught_up() {
    // OSC + redraw landed in same batch → buffer_pending_display=false
    assert_eq!(
        buffer_dirty_action(false, 0, true, false, false),
        BufferDirtyAction::Immediate(Action::Trigger)
    );
}

#[test]
fn buffer_dirty_action_defers_when_delay_zero_and_display_pending() {
    // OSC arrived alone, redraw hasn't been processed yet
    assert_eq!(
        buffer_dirty_action(false, 0, true, false, true),
        BufferDirtyAction::Defer(Action::Trigger)
    );
}

#[test]
fn buffer_dirty_action_ignores_when_auto_trigger_disabled_no_pending() {
    // Without a pending manual trigger, auto_disabled must dominate every
    // combination — guards against a future refactor that hoists the
    // auto-disabled check below the debounce/delay branches.
    for pending in [false, true] {
        for delay_ms in [0u64, 150] {
            for suppressed in [false, true] {
                assert_eq!(
                    buffer_dirty_action(false, delay_ms, false, suppressed, pending),
                    BufferDirtyAction::Ignore,
                    "auto-disabled must dominate (delay_ms={delay_ms}, \
                     suppressed={suppressed}, pending_display={pending})"
                );
            }
        }
    }
}

#[test]
fn buffer_dirty_action_manual_trigger_bypasses_auto_disabled() {
    // A pending manual trigger (has_pending_trigger=true) must fire even
    // when auto_trigger is disabled. This is the fish manual-trigger path:
    // the trigger key sets trigger_requested, the buffer is pending
    // display, so the action defers; the stdout task then resolves it via
    // take_manual_trigger_stashed. Regression: previously the auto_disabled
    // check ran first and returned Ignore, dropping the manual trigger.
    for pending in [false, true] {
        for delay_ms in [0u64, 150] {
            for suppressed in [false, true] {
                let expected = if pending {
                    BufferDirtyAction::Defer(Action::Trigger)
                } else {
                    BufferDirtyAction::Immediate(Action::Trigger)
                };
                assert_eq!(
                    buffer_dirty_action(true, delay_ms, false, suppressed, pending),
                    expected,
                    "manual trigger must bypass auto-disabled \
                     (delay_ms={delay_ms}, suppressed={suppressed}, \
                     pending_display={pending})"
                );
            }
        }
    }
}

#[test]
fn buffer_dirty_action_ignores_when_debounce_suppressed_and_no_pending_trigger() {
    // Exhaustive over delay_ms × buffer_pending_display. The early
    // `if debounce_suppressed { return Ignore }` returns regardless of
    // delay_ms; iterating both cells guards against a future refactor that
    // hoists the delay_ms != 0 branch above the suppression check and
    // silently flips delay_ms=150 to Defer/Immediate(Debounce).
    for delay_ms in [0u64, 150] {
        for pending in [false, true] {
            assert_eq!(
                buffer_dirty_action(false, delay_ms, true, true, pending),
                BufferDirtyAction::Ignore,
                "suppressed must dominate (delay_ms={delay_ms}, pending_display={pending})"
            );
        }
    }
}

#[test]
fn buffer_dirty_action_debounces_when_delay_positive_and_display_caught_up() {
    assert_eq!(
        buffer_dirty_action(false, 150, true, false, false),
        BufferDirtyAction::Immediate(Action::Debounce)
    );
}

#[test]
fn buffer_dirty_action_defers_to_debounce_when_delay_positive_and_display_pending() {
    assert_eq!(
        buffer_dirty_action(false, 150, true, false, true),
        BufferDirtyAction::Defer(Action::Debounce)
    );
}

#[test]
fn buffer_dirty_action_prefers_pending_trigger_when_display_caught_up() {
    // Pending trigger from input handler bypasses debounce_suppressed
    assert_eq!(
        buffer_dirty_action(true, 150, true, true, false),
        BufferDirtyAction::Immediate(Action::Trigger)
    );
}

#[test]
fn buffer_dirty_action_defers_pending_trigger_when_display_pending() {
    // Pending trigger but redraw hasn't applied yet — must defer to avoid stale cursor.
    assert_eq!(
        buffer_dirty_action(true, 150, true, true, true),
        BufferDirtyAction::Defer(Action::Trigger)
    );
}

#[test]
fn pending_trigger_resolve_returns_none_when_empty() {
    let mut pending = PendingTrigger::new();
    assert_eq!(pending.resolve(true, false), None);
    assert!(!pending.is_pending());
}

#[test]
fn pending_trigger_resolve_clears_slot_on_resolution() {
    let mut pending = PendingTrigger::new();
    pending.stash(Action::Trigger);
    let resolved = pending.resolve(true, false);
    assert_eq!(resolved, Some(Action::Trigger));
    assert!(
        !pending.is_pending(),
        "slot must be cleared so a stale entry cannot fire later"
    );
}

#[test]
fn pending_trigger_resolve_drops_when_auto_trigger_disabled() {
    let mut pending = PendingTrigger::new();
    pending.stash(Action::Trigger);
    assert_eq!(pending.resolve(false, false), None);
    assert!(
        !pending.is_pending(),
        "disabled auto-trigger must drain the slot, not leave it for a later batch"
    );
}

#[test]
fn pending_trigger_resolve_drops_debounce_when_auto_trigger_disabled() {
    // Pins that the auto_trigger check gates Debounce too — guards against
    // a refactor that moves the auto_trigger_enabled check inside the
    // match arms and silently lets stashed Debounce fire.
    let mut pending = PendingTrigger::new();
    pending.stash(Action::Debounce);
    assert_eq!(pending.resolve(false, false), None);
    assert!(!pending.is_pending());
}

#[test]
fn pending_trigger_resolve_skips_debounce_when_suppressed() {
    let mut pending = PendingTrigger::new();
    pending.stash(Action::Debounce);
    assert_eq!(pending.resolve(true, true), None);
    assert!(!pending.is_pending());
}

#[test]
fn pending_trigger_resolve_keeps_immediate_trigger_under_debounce_suppression() {
    // Action::Trigger was stashed by has_pending_trigger or delay_ms=0.
    // Both bypass debounce_suppressed, so the resolve path must too.
    let mut pending = PendingTrigger::new();
    pending.stash(Action::Trigger);
    assert_eq!(pending.resolve(true, true), Some(Action::Trigger));
    assert!(!pending.is_pending());
}

#[test]
fn pending_trigger_stash_supersedes_prior_entry() {
    // A stale defer must never out-survive a fresh one — the second buffer
    // event reflects newer cursor geometry.
    let mut pending = PendingTrigger::new();
    pending.stash(Action::Trigger);
    assert!(pending.is_pending());
    pending.stash(Action::Debounce);
    assert_eq!(
        pending.resolve(true, false),
        Some(Action::Debounce),
        "newer Defer must overwrite the prior stash, not merge or be discarded"
    );
}

#[test]
fn pending_trigger_cleared_by_immediate_trigger() {
    let mut slot = PendingTrigger::new();
    slot.stash(Action::Trigger);
    apply_buffer_dirty_action(&mut slot, BufferDirtyAction::Immediate(Action::Trigger));
    assert!(
        !slot.is_pending(),
        "immediate Trigger must drain prior stash"
    );
}

#[test]
fn pending_trigger_cleared_by_immediate_debounce() {
    let mut slot = PendingTrigger::new();
    slot.stash(Action::Trigger);
    apply_buffer_dirty_action(&mut slot, BufferDirtyAction::Immediate(Action::Debounce));
    assert!(
        !slot.is_pending(),
        "immediate Debounce must drain prior Trigger stash even though it demotes the user intent"
    );
}

#[test]
fn pending_trigger_cleared_by_ignore() {
    let mut slot = PendingTrigger::new();
    slot.stash(Action::Trigger);
    apply_buffer_dirty_action(&mut slot, BufferDirtyAction::Ignore);
    assert!(!slot.is_pending(), "Ignore must drain prior stash");
}

#[test]
fn pending_trigger_overwritten_by_defer() {
    let mut slot = PendingTrigger::new();
    slot.stash(Action::Trigger);
    apply_buffer_dirty_action(&mut slot, BufferDirtyAction::Defer(Action::Debounce));
    assert!(
        slot.is_pending(),
        "Defer must keep slot populated (with overwritten action)"
    );
    assert_eq!(slot.resolve(true, false), Some(Action::Debounce));
}
