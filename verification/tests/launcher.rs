use notes2::launcher::{prompt_step, Mode, PromptKey, PromptStep, OPTIONS};

#[test]
fn prompt_offers_both_interfaces() {
    assert_eq!(OPTIONS, ["GUI", "TUI"]);
}

#[test]
fn arrows_move_the_highlight_inside_the_entries() {
    assert_eq!(prompt_step(0, PromptKey::Down), PromptStep::Continue(1));
    assert_eq!(prompt_step(1, PromptKey::Down), PromptStep::Continue(1));
    assert_eq!(prompt_step(1, PromptKey::Up), PromptStep::Continue(0));
    assert_eq!(prompt_step(0, PromptKey::Up), PromptStep::Continue(0));
    assert_eq!(prompt_step(1, PromptKey::Other), PromptStep::Continue(1));
}

#[test]
fn enter_chooses_the_highlighted_interface() {
    assert_eq!(prompt_step(0, PromptKey::Enter), PromptStep::Chosen(Mode::Gui));
    assert_eq!(prompt_step(1, PromptKey::Enter), PromptStep::Chosen(Mode::Tui));
}

#[test]
fn quit_aborts_the_prompt() {
    assert_eq!(prompt_step(0, PromptKey::Quit), PromptStep::Aborted);
    assert_eq!(prompt_step(1, PromptKey::Quit), PromptStep::Aborted);
}
