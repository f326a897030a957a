use shackle_core::scheduler::AppState;
use shackle_core::scheduler::Application;
use shackle_core::scheduler::NextState;
use shackle_core::scheduler::Phase;

#[test]
fn test_first_tick_enters_the_main_menu() {
    let mut app = Application::new();
    assert_eq!(app.current_state, AppState::Startup);

    let phases = app.tick();
    assert_eq!(app.current_state, AppState::MainMenu);
    assert_eq!(app.next_state, NextState(None));
    // The enter list runs once, ahead of the tick list, in declared order.
    assert_eq!(phases[0], Phase::InitMainMenuResources);
    assert_eq!(phases[1], Phase::SpawnMainMenu);
    assert!(phases.contains(&Phase::HandleMainMenuEvents));
    assert!(phases.contains(&Phase::JoinServerWhenConnected));
}

#[test]
fn test_enter_phases_run_exactly_once_per_transition() {
    let mut app = Application::new();
    let first = app.tick();
    assert!(first.contains(&Phase::SpawnMainMenu));

    // Repeated ticks within the same state never run the enter list again.
    let second = app.tick();
    assert!(!second.contains(&Phase::InitMainMenuResources));
    assert!(!second.contains(&Phase::SpawnMainMenu));
    let third = app.tick();
    assert!(!third.contains(&Phase::SpawnMainMenu));

    // A new transition runs the new state's enter list, once.
    app.next_state = NextState(Some(AppState::Overworld));
    let entered = app.tick();
    assert_eq!(entered[0], Phase::InitializeOverworldResources);
    assert!(entered.contains(&Phase::SpawnOverworldUi));
    let after = app.tick();
    assert!(!after.contains(&Phase::InitializeOverworldResources));
}

#[test]
fn test_requesting_the_current_state_does_not_rerun_enter() {
    let mut app = Application::new();
    app.tick();
    app.next_state = NextState(Some(AppState::MainMenu));
    let phases = app.tick();
    assert!(!phases.contains(&Phase::SpawnMainMenu));
}

#[test]
fn test_quit_stops_the_scheduler() {
    let mut app = Application::new();
    app.tick();
    app.next_state = NextState(Some(AppState::Quit));
    let phases = app.tick();
    assert!(phases.is_empty(), "no further phases run after a quit request");
    assert!(!app.is_running);
}

#[test]
fn test_render_runs_the_current_render_list() {
    let mut app = Application::new();
    app.tick();
    let phases = app.render();
    assert_eq!(phases[0], Phase::DrawClearColor);
    assert!(phases.contains(&Phase::RenderText));
    // Render never mutates scheduler state.
    assert_eq!(app.current_state, AppState::MainMenu);
    assert!(app.is_running);
}
