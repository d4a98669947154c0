use ratgames::input::InputLine;
use ratgames::session::flow::{
    continue_exit, edit_line, AttractConfig, AttractConfigError, AttractFlow, ChallengeAnswer,
    ChallengeFlow, ChallengeStep, ChoiceExit, ChoiceFlow, ContinueExit, PromptExit, PromptFlow,
    TextEntryExit, TextEntryFlow, TimedCardExit, TimedCardFlow,
};
use ratgames::ui::{Countdown, CountdownConfig, UiInput};

// ------------------------------------------------------------ prompt

#[test]
fn prompt_screen_confirm_exits_as_confirmed() {
    let mut p = PromptFlow::new();
    assert_eq!(p.handle(UiInput::Confirm), Some(PromptExit::Confirmed));
}

#[test]
fn prompt_screen_cancel_exits_as_cancelled() {
    let mut p = PromptFlow::new();
    assert_eq!(p.handle(UiInput::Cancel), Some(PromptExit::Cancelled));
}

#[test]
fn prompt_screen_other_input_does_not_exit() {
    let mut p = PromptFlow::new();
    assert_eq!(p.handle(UiInput::Left), None);
}

#[test]
fn without_an_idle_trigger_tick_never_exits() {
    let mut p = PromptFlow::new();
    for _ in 0..100 {
        assert_eq!(p.tick(), None);
    }
}

#[test]
fn the_idle_trigger_expires_into_idled() {
    let mut p = PromptFlow::new().with_idle(Countdown::new(2));
    assert_eq!(p.tick(), None, "still waiting");
    assert_eq!(p.tick(), Some(PromptExit::Idled));
}

#[test]
fn any_input_pushes_the_idle_trigger_back() {
    let mut p = PromptFlow::new().with_idle(Countdown::new(2));
    assert_eq!(p.tick(), None);
    assert_eq!(p.handle(UiInput::Left), None);
    assert_eq!(p.tick(), None, "the poke pushed expiry back");
    assert_eq!(p.tick(), Some(PromptExit::Idled));
}

#[test]
fn prompt_screen_the_transition_fires_at_most_once() {
    let mut p = PromptFlow::new().with_idle(Countdown::new(1));
    let mut exits = Vec::new();
    exits.extend(p.handle(UiInput::Confirm));
    exits.extend(p.tick());
    exits.extend(p.handle(UiInput::Cancel));
    assert_eq!(exits, [PromptExit::Confirmed], "fires once");
}

// -------------------------------------------------------- timed card

#[test]
fn timed_card_confirm_exits_as_confirmed() {
    let mut c = TimedCardFlow::new(Countdown::new(10));
    assert_eq!(c.handle(UiInput::Confirm), Some(TimedCardExit::Confirmed));
}

#[test]
fn timed_card_cancel_exits_as_cancelled() {
    let mut c = TimedCardFlow::new(Countdown::new(10));
    assert_eq!(c.handle(UiInput::Cancel), Some(TimedCardExit::Cancelled));
}

#[test]
fn timed_card_other_input_does_not_exit() {
    let mut c = TimedCardFlow::new(Countdown::new(10));
    assert_eq!(c.handle(UiInput::Left), None);
}

#[test]
fn tick_exits_as_expired_when_the_countdown_elapses() {
    let mut c = TimedCardFlow::new(Countdown::new(2));
    assert_eq!(c.tick(), None, "still holding");
    assert_eq!(c.tick(), Some(TimedCardExit::Expired));
}

#[test]
fn timed_card_the_transition_fires_at_most_once() {
    let mut c = TimedCardFlow::new(Countdown::new(1));
    let mut exits = Vec::new();
    exits.extend(c.handle(UiInput::Confirm));
    exits.extend(c.tick());
    exits.extend(c.handle(UiInput::Confirm));
    assert_eq!(exits, [TimedCardExit::Confirmed], "fires once");
}

#[test]
fn a_card_at_zero_expires_on_its_first_frame_and_only_then() {
    let mut c = TimedCardFlow::new(Countdown::new(0));
    assert_eq!(c.tick(), Some(TimedCardExit::Expired));
    assert_eq!(c.tick(), None);
}

// --------------------------------------------------- continue prompt

fn continue_prompt(frames: u32) -> TimedCardFlow {
    TimedCardFlow::new(Countdown::new(frames))
}

#[test]
fn confirm_exits_as_continued() {
    let mut p = continue_prompt(10);
    assert_eq!(
        p.handle(UiInput::Confirm).map(continue_exit),
        Some(ContinueExit::Continued)
    );
}

#[test]
fn the_lapsed_countdown_exits_as_declined() {
    let mut p = continue_prompt(2);
    assert_eq!(p.tick().map(continue_exit), None, "still offering");
    assert_eq!(p.tick().map(continue_exit), Some(ContinueExit::Declined));
}

#[test]
fn continue_prompt_cancel_exits_as_cancelled() {
    let mut p = continue_prompt(10);
    assert_eq!(
        p.handle(UiInput::Cancel).map(continue_exit),
        Some(ContinueExit::Cancelled)
    );
}

#[test]
fn continue_prompt_the_transition_fires_at_most_once() {
    let mut p = continue_prompt(1);
    let mut exits = Vec::new();
    exits.extend(p.handle(UiInput::Confirm).map(continue_exit));
    exits.extend(p.tick().map(continue_exit));
    exits.extend(p.handle(UiInput::Cancel).map(continue_exit));
    assert_eq!(exits, [ContinueExit::Continued], "fires once");
}

#[test]
fn the_seconds_readout_rides_the_prompt() {
    let mut p = continue_prompt(120).with_seconds(60);
    assert_eq!(p.seconds_shown(), None, "nothing shown before a frame");
    p.tick(); // 119 left -> ceil(119 / 60) = 2
    assert_eq!(p.seconds_shown(), Some(2));
}

#[test]
fn the_seconds_readout_rounds_a_part_second_up_and_a_whole_one_exactly() {
    let mut p = continue_prompt(61).with_seconds(60);
    p.tick(); // 60 left: exactly one second
    assert_eq!(p.seconds_shown(), Some(1));
    p.tick(); // 59 left: a part second
    assert_eq!(p.seconds_shown(), Some(1));
}

// -------------------------------------------------------- text entry

#[test]
fn editing_input_reaches_the_shared_line() {
    let mut line = InputLine::new();
    let mut entry = TextEntryFlow::new();
    for c in "hi!".chars() {
        assert_eq!(entry.handle(UiInput::Char(c), &mut line), None);
    }
    assert_eq!(entry.handle(UiInput::Backspace, &mut line), None);
    assert_eq!(line.text(), "hi");
}

#[test]
fn confirm_submits_the_entered_text_and_clears_the_line() {
    let mut line = InputLine::new();
    let mut entry = TextEntryFlow::new();
    for c in "42".chars() {
        entry.handle(UiInput::Char(c), &mut line);
    }
    assert_eq!(
        entry.handle(UiInput::Confirm, &mut line),
        Some(TextEntryExit::Submitted("42".to_string()))
    );
    assert_eq!(line.text(), "", "cleared for the next entry");
}

#[test]
fn cancel_exits_as_cancelled_and_leaves_the_line() {
    let mut line = InputLine::new();
    let mut entry = TextEntryFlow::new();
    entry.handle(UiInput::Char('x'), &mut line);
    assert_eq!(
        entry.handle(UiInput::Cancel, &mut line),
        Some(TextEntryExit::Cancelled)
    );
    assert_eq!(line.text(), "x", "a cancel does not clear the entry");
}

#[test]
fn text_entry_screen_the_transition_fires_at_most_once() {
    let mut line = InputLine::new();
    let mut entry = TextEntryFlow::new();
    let mut exits = Vec::new();
    exits.extend(entry.handle(UiInput::Confirm, &mut line));
    exits.extend(entry.handle(UiInput::Confirm, &mut line));
    exits.extend(entry.handle(UiInput::Cancel, &mut line));
    assert_eq!(exits, [TextEntryExit::Submitted(String::new())], "fires once");
}

#[test]
fn a_control_character_does_not_reach_the_line() {
    let mut line = InputLine::new();
    edit_line(UiInput::Char('a'), &mut line);
    edit_line(UiInput::Char('\u{7}'), &mut line);
    edit_line(UiInput::Left, &mut line);
    assert_eq!(line.text(), "a");
    assert_eq!(line.cursor(), 1);
}

// ------------------------------------------------------------ choice

#[test]
fn confirm_routes_the_highlighted_choice() {
    let mut menu = ChoiceFlow::new(3);
    assert_eq!(menu.handle(UiInput::Down), None);
    assert_eq!(menu.highlighted(), 1);
    assert_eq!(menu.handle(UiInput::Confirm), Some(ChoiceExit::Chosen(1)));
}

#[test]
fn cancel_routes_through_on_cancel() {
    let mut menu = ChoiceFlow::new(2);
    assert_eq!(menu.handle(UiInput::Cancel), Some(ChoiceExit::Cancelled));
}

#[test]
fn navigation_moves_the_highlight_without_choosing() {
    let mut menu = ChoiceFlow::new(3);
    assert_eq!(menu.highlighted(), 0);
    assert_eq!(menu.handle(UiInput::Down), None);
    assert_eq!(menu.handle(UiInput::Down), None);
    assert_eq!(menu.highlighted(), 2);
}

#[test]
fn a_choice_fires_at_most_once() {
    let mut menu = ChoiceFlow::new(2);
    assert_eq!(menu.handle(UiInput::Confirm), Some(ChoiceExit::Chosen(0)));
    assert_eq!(menu.handle(UiInput::Confirm), None, "the choice fired once");
}

#[test]
fn a_cancel_spends_the_choice() {
    let mut menu = ChoiceFlow::new(3);
    assert_eq!(menu.handle(UiInput::Cancel), Some(ChoiceExit::Cancelled));
    assert_eq!(menu.handle(UiInput::Confirm), None, "the cancel spent the choice");
}

#[test]
fn a_choice_spends_the_cancel() {
    let mut menu = ChoiceFlow::new(3);
    assert_eq!(menu.handle(UiInput::Confirm), Some(ChoiceExit::Chosen(0)));
    assert_eq!(menu.handle(UiInput::Cancel), None, "the choice spent the cancel");
}

#[test]
fn the_highlight_holds_at_both_ends() {
    let mut menu = ChoiceFlow::new(2);
    menu.handle(UiInput::Up);
    assert_eq!(menu.highlighted(), 0);
    menu.handle(UiInput::Down);
    menu.handle(UiInput::Down);
    assert_eq!(menu.highlighted(), 1);
}

// --------------------------------------------------------- challenge

fn typed(clock: Option<u32>) -> ChallengeFlow {
    ChallengeFlow::new(None, clock.map(Countdown::new))
}

#[test]
fn typed_mode_commits_the_shared_line_and_clears_it() {
    let mut line = InputLine::new();
    let mut flow = typed(None);
    for c in "42".chars() {
        assert_eq!(flow.handle(UiInput::Char(c), &mut line), ChallengeStep::Idle);
    }
    assert_eq!(
        flow.handle(UiInput::Confirm, &mut line),
        ChallengeStep::Grade { answer: ChallengeAnswer::Typed("42".to_string()), time_left: None }
    );
    assert_eq!(line.text(), "", "cleared for the next answer");
}

#[test]
fn choice_mode_commits_the_selection() {
    let mut line = InputLine::new();
    let mut flow = ChallengeFlow::new(Some(2), None);
    flow.handle(UiInput::Down, &mut line); // navigate to index 1
    assert_eq!(
        flow.handle(UiInput::Confirm, &mut line),
        ChallengeStep::Grade { answer: ChallengeAnswer::Choice(1), time_left: None }
    );
}

#[test]
fn grading_reads_the_clock_still_left() {
    let mut line = InputLine::new();
    let mut flow = typed(Some(10));
    assert_eq!(flow.tick(), ChallengeStep::Idle); // 1 of 10 spent
    assert_eq!(
        flow.handle(UiInput::Confirm, &mut line),
        ChallengeStep::Grade { answer: ChallengeAnswer::Typed(String::new()), time_left: Some(9) }
    );
}

#[test]
fn the_clock_expiry_grades_a_timeout_exactly_once() {
    let mut flow = typed(Some(2));
    let mut timeouts = 0;
    if flow.tick() == ChallengeStep::TimeOut {
        timeouts += 1;
    }
    assert_eq!(timeouts, 0, "still on the clock");
    if flow.tick() == ChallengeStep::TimeOut {
        timeouts += 1;
        flow.begin_feedback(Countdown::new(10));
    }
    assert_eq!(timeouts, 1);
    for _ in 0..2 {
        assert_eq!(flow.tick(), ChallengeStep::Idle, "the beat froze the clock");
    }
    assert_eq!(timeouts, 1);
}

#[test]
fn the_beat_freezes_editing_and_resolves_when_done() {
    let mut line = InputLine::new();
    let mut flow = typed(None);
    assert!(matches!(flow.handle(UiInput::Confirm, &mut line), ChallengeStep::Grade { .. }));
    flow.begin_feedback(Countdown::new(2));
    assert_eq!(flow.handle(UiInput::Char('x'), &mut line), ChallengeStep::Idle);
    assert_eq!(line.text(), "", "editing is dead during the beat");
    assert_eq!(flow.tick(), ChallengeStep::Idle, "beat still holding");
    assert_eq!(flow.tick(), ChallengeStep::Resolve);
    assert!(!flow.in_feedback());
}

#[test]
fn confirm_skips_the_beat_and_resolves_once() {
    let mut line = InputLine::new();
    let mut flow = typed(None);
    let mut grades = 0;
    let mut resolves = 0;
    for _ in 0..3 {
        match flow.handle(UiInput::Confirm, &mut line) {
            ChallengeStep::Grade { .. } => {
                grades += 1;
                flow.begin_feedback(Countdown::new(100));
            }
            ChallengeStep::Resolve => resolves += 1,
            _ => {}
        }
    }
    // grade -> beat, skip -> resolve, then back in the answering phase a
    // confirm grades again rather than resolving a beat no longer running.
    assert_eq!(grades, 2);
    assert_eq!(resolves, 1, "no double resolve");
}

#[test]
fn cancel_routes_in_both_phases() {
    let mut line = InputLine::new();
    let mut flow = typed(None);
    assert_eq!(flow.handle(UiInput::Cancel, &mut line), ChallengeStep::Cancel);
    assert!(matches!(flow.handle(UiInput::Confirm, &mut line), ChallengeStep::Grade { .. }));
    flow.begin_feedback(Countdown::new(5));
    assert_eq!(flow.handle(UiInput::Cancel, &mut line), ChallengeStep::Cancel);
    assert!(flow.in_feedback(), "a cancel leaves the routing to the host");
}

#[test]
fn a_stay_resolution_poses_the_next_problem() {
    let mut line = InputLine::new();
    let mut flow = ChallengeFlow::new(Some(3), Some(Countdown::new(4)));
    flow.handle(UiInput::Down, &mut line);
    flow.handle(UiInput::Confirm, &mut line);
    flow.begin_feedback(Countdown::new(1));
    assert_eq!(flow.tick(), ChallengeStep::Resolve);
    flow.ask(Some(3), Some(Countdown::new(4)));
    assert_eq!(flow.highlighted(), Some(0));
    assert_eq!(
        flow.handle(UiInput::Confirm, &mut line),
        ChallengeStep::Grade { answer: ChallengeAnswer::Choice(0), time_left: Some(4) }
    );
}

// ----------------------------------------------------------- attract

#[test]
fn attract_config_validate_rejects_a_rotation_with_no_hold() {
    let off = AttractConfig { idle: CountdownConfig { frames: 0 }, card: CountdownConfig { frames: 0 } };
    assert!(off.validate().is_ok(), "a zero hold is fine while attract mode is off");
    let thrashing = AttractConfig {
        idle: CountdownConfig { frames: 600 },
        card: CountdownConfig { frames: 0 },
    };
    assert_eq!(thrashing.validate(), Err(AttractConfigError::ZeroCardHold));
}

#[test]
fn the_idle_trigger_is_armed_only_when_attract_mode_is_on() {
    let off = AttractConfig { idle: CountdownConfig { frames: 0 }, card: CountdownConfig { frames: 300 } };
    assert!(off.idle_countdown().is_none());
    let on = AttractConfig {
        idle: CountdownConfig { frames: 600 },
        card: CountdownConfig { frames: 300 },
    };
    assert_eq!(on.idle_countdown(), Some(Countdown::new(600)));
}

fn attract(holds: &[u32]) -> AttractFlow {
    AttractFlow::new(holds.iter().map(|&f| Countdown::new(f)).collect())
}

#[test]
fn any_input_wakes_the_loop_through_the_transition() {
    let mut a = attract(&[10, 10]);
    assert!(a.handle(UiInput::Left), "an arrow key is a sign of life too");
}

#[test]
fn the_dismiss_fires_at_most_once() {
    let mut a = attract(&[10]);
    let mut woke = 0;
    if a.handle(UiInput::Char('x')) {
        woke += 1;
    }
    a.tick();
    if a.handle(UiInput::Confirm) {
        woke += 1;
    }
    assert_eq!(woke, 1, "woke once");
}

#[test]
fn cards_turn_on_each_hold_and_wrap_without_leaving() {
    let mut a = attract(&[2, 3]);
    assert_eq!(a.showing(), Some(0));
    a.tick();
    assert_eq!(a.showing(), Some(0));
    a.tick();
    assert_eq!(a.showing(), Some(1));
    a.tick();
    a.tick();
    assert_eq!(a.showing(), Some(1));
    a.tick();
    assert_eq!(a.showing(), Some(0));
    assert!(a.handle(UiInput::Confirm), "turning the page never dismissed the loop");
}

#[test]
fn a_reentered_card_holds_its_full_time_again() {
    let mut a = attract(&[2, 1]);
    for _ in 0..3 {
        a.tick();
    }
    assert_eq!(a.showing(), Some(0), "wrapped back to the first card");
    a.tick();
    assert_eq!(a.showing(), Some(0), "still holding, one frame in");
    a.tick();
    assert_eq!(a.showing(), Some(1), "and turns again after its full hold");
}

#[test]
fn an_empty_loop_shows_nothing_and_still_wakes_on_input() {
    let mut a = attract(&[]);
    assert_eq!(a.showing(), None);
    a.tick();
    assert_eq!(a.showing(), None);
    assert!(a.handle(UiInput::Confirm), "input still dismisses an empty loop");
}

#[test]
fn a_single_card_loop_re_holds_that_card() {
    let mut a = attract(&[2]);
    a.tick();
    a.tick();
    assert_eq!(a.showing(), Some(0));
    a.tick();
    assert_eq!(a.showing(), Some(0));
    assert!(a.handle(UiInput::Confirm), "a lone card just re-holds, never leaving");
}
