use tokenx::dispatch::{next_step, start, Action, Phase};

fn run_to_finish(hook_count: usize) -> Vec<Action> {
    let mut phase = start();
    let mut actions = Vec::new();
    loop {
        let (next, action) = next_step(phase, hook_count);
        actions.push(action);
        phase = next;
        if action == Action::Finish {
            return actions;
        }
    }
}

#[test]
fn schedule_with_two_hooks() {
    assert_eq!(
        run_to_finish(2),
        vec![
            Action::RunPreHook(0),
            Action::RunPreHook(1),
            Action::Resolve,
            Action::RunPostHook(0),
            Action::RunPostHook(1),
            Action::Finish,
        ]
    );
}

#[test]
fn schedule_without_hooks_resolves_then_finishes() {
    assert_eq!(run_to_finish(0), vec![Action::Resolve, Action::Finish]);
}

#[test]
fn start_is_before_the_first_pre_hook() {
    assert_eq!(start(), Phase::PreHooks(0));
    assert_eq!(next_step(start(), 3), (Phase::PreHooks(1), Action::RunPreHook(0)));
}

#[test]
fn end_of_pre_hooks_moves_to_resolution() {
    assert_eq!(next_step(Phase::PreHooks(3), 3), (Phase::PostHooks(0), Action::Resolve));
}

#[test]
fn end_of_post_hooks_finishes() {
    assert_eq!(next_step(Phase::PostHooks(3), 3), (Phase::Done, Action::Finish));
    assert_eq!(next_step(Phase::PostHooks(1), 3), (Phase::PostHooks(2), Action::RunPostHook(1)));
}

#[test]
fn finished_request_stays_finished() {
    assert_eq!(next_step(Phase::Done, 3), (Phase::Done, Action::Finish));
    assert_eq!(next_step(Phase::Done, 0), (Phase::Done, Action::Finish));
}

#[test]
fn positions_past_the_chain_count_as_its_end() {
    assert_eq!(next_step(Phase::PreHooks(7), 2), (Phase::PostHooks(0), Action::Resolve));
    assert_eq!(next_step(Phase::PostHooks(9), 2), (Phase::Done, Action::Finish));
}

#[test]
fn each_hook_gets_one_pre_and_one_post() {
    let actions = run_to_finish(4);
    assert_eq!(actions.len(), 2 * 4 + 2);
    for h in 0..4 {
        assert_eq!(actions.iter().filter(|a| **a == Action::RunPreHook(h)).count(), 1);
        assert_eq!(actions.iter().filter(|a| **a == Action::RunPostHook(h)).count(), 1);
    }
}
