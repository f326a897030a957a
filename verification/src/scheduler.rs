//! The application state scheduler: a fixed-tick driver that owns exactly
//! one current state, an optional pending transition, and per-state
//! phase-lists installed at construction and never mutated at runtime.
//!
//! `tick` and `render` decide which phases run, in their fixed declared
//! order; the driving loop executes them and calls `tick` repeatedly while
//! accumulated time exceeds one fixed tick, so simulation rate stays
//! independent of frame rate.
use vstd::prelude::*;

verus! {

/// A named top-level mode of the application.
#[derive(Debug, Copy, Clone, PartialEq, Eq, Hash, Structural)]
pub enum AppState {
    Startup,
    MainMenu,
    Overworld,
    Quit,
}

/// The pending-transition slot: at most one requested next state, cleared
/// once consumed.
#[derive(Debug, Copy, Clone, PartialEq, Eq, Structural)]
pub struct NextState(pub Option<AppState>);

/// One operation of a phase-list. The driving loop maps each to the actual
/// system it runs; the scheduler only decides which run, and in what order.
#[derive(Debug, Copy, Clone, PartialEq, Eq, Structural)]
pub enum Phase {
    // User interface layout and input, shared by both menus.
    SizeFullscreenRoot,
    LayoutUi,
    HandleTextInputInput,
    HandleButtonInput,
    CalculateDynamicFontSize,
    RotateSpinner,
    HandleTextInputSubmitOnEnter,
    DeleteOnClickOff,
    // User interface rendering, shared by both menus.
    RenderRectLightener,
    DrawSpinner,
    RenderTextInput,
    DrawButton,
    RenderText,
    DrawClearColor,
    // Main menu.
    InitMainMenuResources,
    SpawnMainMenu,
    HandleMainMenuEvents,
    DisplayNotifications,
    JoinServerWhenConnected,
    // Overworld.
    InitializeOverworldResources,
    SpawnOverworldUi,
    SpawnOverworldEntities,
    HandleClientEvents,
    HandleOverworldUiEvents,
    MovePlayer,
    HandleSendingMessages,
    SpawnContextMenuWhenRclicked,
    RequestNames,
    UpdateNotification,
    DrawPlayArea,
    DrawWorldObjects,
    DrawHoverName,
    DrawChatlog,
}

/// Per-state bundle of the three ordered phase-lists: `enter` runs once per
/// transition into the state, `tick` every fixed step while current,
/// `render` once per presented frame.
#[derive(Debug)]
pub struct Schedules {
    pub enter_schedule: Vec<Phase>,
    pub tick_schedule: Vec<Phase>,
    pub render_schedule: Vec<Phase>,
}

/// The mathematical value of a [`Schedules`].
pub struct SchedulesV {
    pub enter: Seq<Phase>,
    pub tick: Seq<Phase>,
    pub render: Seq<Phase>,
}

impl DeepView for Schedules {
    type V = SchedulesV;

    open spec fn deep_view(&self) -> SchedulesV {
        SchedulesV {
            enter: self.enter_schedule@,
            tick: self.tick_schedule@,
            render: self.render_schedule@,
        }
    }
}

impl DeepView for AppState {
    type V = AppState;

    open spec fn deep_view(&self) -> AppState {
        *self
    }
}

/// The phase-lists of the user-interface layout step.
pub open spec fn spec_ui_layout_phases() -> Seq<Phase> {
    seq![
        Phase::SizeFullscreenRoot,
        Phase::LayoutUi,
        Phase::HandleTextInputInput,
        Phase::HandleButtonInput,
        Phase::CalculateDynamicFontSize,
        Phase::RotateSpinner,
        Phase::HandleTextInputSubmitOnEnter,
        Phase::DeleteOnClickOff,
    ]
}

/// The phase-lists of the user-interface rendering step.
pub open spec fn spec_ui_render_phases() -> Seq<Phase> {
    seq![
        Phase::RenderRectLightener,
        Phase::DrawSpinner,
        Phase::RenderTextInput,
        Phase::DrawButton,
        Phase::RenderText,
    ]
}

/// The main menu's three phase-lists.
pub open spec fn spec_main_menu_schedules() -> SchedulesV {
    SchedulesV {
        enter: seq![Phase::InitMainMenuResources, Phase::SpawnMainMenu],
        tick: spec_ui_layout_phases() + seq![
            Phase::HandleMainMenuEvents,
            Phase::DisplayNotifications,
            Phase::JoinServerWhenConnected,
        ],
        render: seq![Phase::DrawClearColor] + spec_ui_render_phases(),
    }
}

/// The overworld's three phase-lists.
pub open spec fn spec_overworld_schedules() -> SchedulesV {
    SchedulesV {
        enter: seq![
            Phase::InitializeOverworldResources,
            Phase::SpawnOverworldUi,
            Phase::SpawnOverworldEntities,
        ],
        tick: spec_ui_layout_phases() + seq![
            Phase::HandleClientEvents,
            Phase::HandleOverworldUiEvents,
            Phase::MovePlayer,
            Phase::HandleSendingMessages,
            Phase::SpawnContextMenuWhenRclicked,
            Phase::RequestNames,
            Phase::UpdateNotification,
        ],
        render: seq![
            Phase::DrawClearColor,
            Phase::DrawPlayArea,
            Phase::DrawWorldObjects,
            Phase::DrawHoverName,
        ] + spec_ui_render_phases() + seq![Phase::DrawChatlog],
    }
}

fn ui_layout_phases() -> (r: Vec<Phase>)
    ensures
        r@ == spec_ui_layout_phases(),
{
    let r = vec![
        Phase::SizeFullscreenRoot,
        Phase::LayoutUi,
        Phase::HandleTextInputInput,
        Phase::HandleButtonInput,
        Phase::CalculateDynamicFontSize,
        Phase::RotateSpinner,
        Phase::HandleTextInputSubmitOnEnter,
        Phase::DeleteOnClickOff,
    ];
    proof {
        assert(r@ =~= spec_ui_layout_phases());
    }
    r
}

/// The main menu's phase-lists, in their fixed declared order.
pub fn main_menu_schedules() -> (r: Schedules)
    ensures
        r.deep_view() == spec_main_menu_schedules(),
{
    let mut tick_schedule = ui_layout_phases();
    tick_schedule.push(Phase::HandleMainMenuEvents);
    tick_schedule.push(Phase::DisplayNotifications);
    tick_schedule.push(Phase::JoinServerWhenConnected);
    let render_schedule = vec![
        Phase::DrawClearColor,
        Phase::RenderRectLightener,
        Phase::DrawSpinner,
        Phase::RenderTextInput,
        Phase::DrawButton,
        Phase::RenderText,
    ];
    let r = Schedules {
        enter_schedule: vec![Phase::InitMainMenuResources, Phase::SpawnMainMenu],
        tick_schedule,
        render_schedule,
    };
    proof {
        assert(r.deep_view().enter =~= spec_main_menu_schedules().enter);
        assert(r.deep_view().tick =~= spec_main_menu_schedules().tick);
        assert(r.deep_view().render =~= spec_main_menu_schedules().render);
        assert(r.deep_view() =~~= spec_main_menu_schedules());
    }
    r
}

/// The overworld's phase-lists, in their fixed declared order.
pub fn overworld_schedules() -> (r: Schedules)
    ensures
        r.deep_view() == spec_overworld_schedules(),
{
    let mut tick_schedule = ui_layout_phases();
    tick_schedule.push(Phase::HandleClientEvents);
    tick_schedule.push(Phase::HandleOverworldUiEvents);
    tick_schedule.push(Phase::MovePlayer);
    tick_schedule.push(Phase::HandleSendingMessages);
    tick_schedule.push(Phase::SpawnContextMenuWhenRclicked);
    tick_schedule.push(Phase::RequestNames);
    tick_schedule.push(Phase::UpdateNotification);
    let render_schedule = vec![
        Phase::DrawClearColor,
        Phase::DrawPlayArea,
        Phase::DrawWorldObjects,
        Phase::DrawHoverName,
        Phase::RenderRectLightener,
        Phase::DrawSpinner,
        Phase::RenderTextInput,
        Phase::DrawButton,
        Phase::RenderText,
        Phase::DrawChatlog,
    ];
    let r = Schedules {
        enter_schedule: vec![
            Phase::InitializeOverworldResources,
            Phase::SpawnOverworldUi,
            Phase::SpawnOverworldEntities,
        ],
        tick_schedule,
        render_schedule,
    };
    proof {
        assert(r.deep_view().enter =~= spec_overworld_schedules().enter);
        assert(r.deep_view().tick =~= spec_overworld_schedules().tick);
        assert(r.deep_view().render =~= spec_overworld_schedules().render);
        assert(r.deep_view() =~~= spec_overworld_schedules());
    }
    r
}

/// The schedules installed for `s`, scanning from the front.
pub open spec fn spec_sched_lookup(states: Seq<(AppState, SchedulesV)>, s: AppState) -> Option<
    SchedulesV,
>
    decreases states.len(),
{
    if states.len() == 0 {
        None
    } else if states[0].0 == s {
        Some(states[0].1)
    } else {
        spec_sched_lookup(states.skip(1), s)
    }
}

proof fn lemma_sched_lookup_first(states: Seq<(AppState, SchedulesV)>, s: AppState, i: int)
    requires
        0 <= i < states.len(),
        states[i].0 == s,
        forall|k: int| 0 <= k < i ==> states[k].0 != s,
    ensures
        spec_sched_lookup(states, s) == Some(states[i].1),
    decreases i,
{
    if i == 0 {
    } else {
        assert(states.skip(1)[i - 1] == states[i]);
        assert forall|k: int| 0 <= k < i - 1 implies states.skip(1)[k].0 != s by {
            assert(states.skip(1)[k] == states[k + 1]);
        }
        lemma_sched_lookup_first(states.skip(1), s, i - 1);
    }
}

proof fn lemma_sched_lookup_absent(states: Seq<(AppState, SchedulesV)>, s: AppState)
    requires
        forall|k: int| 0 <= k < states.len() ==> states[k].0 != s,
    ensures
        spec_sched_lookup(states, s) is None,
    decreases states.len(),
{
    if states.len() == 0 {
    } else {
        assert forall|k: int| 0 <= k < states.skip(1).len() implies states.skip(1)[k].0 != s by {
            assert(states.skip(1)[k] == states[k + 1]);
        }
        lemma_sched_lookup_absent(states.skip(1), s);
    }
}

/// The scheduler's control value: what `tick` reads and writes.
#[verifier::ext_equal]
pub struct SchedulerV {
    pub is_running: bool,
    pub current: AppState,
    pub next: Option<AppState>,
}

/// One `tick` decision over the control value: a requested `Quit` stops the
/// scheduler; a requested state other than the current one is committed,
/// the slot cleared, and its `enter` list runs (the second component);
/// otherwise nothing changes and only the `tick` list runs.
pub open spec fn spec_tick_step(v: SchedulerV) -> (SchedulerV, bool) {
    match v.next {
        Some(s) => {
            if s == AppState::Quit {
                (SchedulerV { is_running: false, ..v }, false)
            } else if s != v.current {
                (SchedulerV { current: s, next: None, ..v }, true)
            } else {
                (v, false)
            }
        },
        None => (v, false),
    }
}

/// Law: `enter` phases run exactly once per transition. A tick that commits
/// a transition clears the pending slot, so the immediately following tick
/// runs no `enter` list; and a tick with no pending request never runs one.
pub proof fn lemma_enter_runs_once(v: SchedulerV)
    ensures
        spec_tick_step(v).1 ==> !spec_tick_step(spec_tick_step(v).0).1,
        v.next is None ==> !spec_tick_step(v).1,
        v.next == Some(v.current) ==> !spec_tick_step(v).1,
{
}

/// The top-level application: the scheduler plus the installed per-state
/// phase-lists.
#[derive(Debug)]
pub struct Application {
    pub is_running: bool,
    pub current_state: AppState,
    pub next_state: NextState,
    pub states: Vec<(AppState, Schedules)>,
}

impl Default for Application {
    fn default() -> (r: Self)
        ensures
            r.wf(),
            r.is_running,
            r.current_state == AppState::Startup,
            r.next_state == NextState(Some(AppState::MainMenu)),
    {
        Application::new()
    }
}

impl Application {
    /// The control value `tick` steps.
    pub open spec fn sched_view(&self) -> SchedulerV {
        SchedulerV {
            is_running: self.is_running,
            current: self.current_state,
            next: self.next_state.0,
        }
    }

    /// The schedules installed for `s`.
    pub open spec fn spec_schedules_of(&self, s: AppState) -> Option<SchedulesV> {
        spec_sched_lookup(self.states.deep_view(), s)
    }

    /// A state the scheduler can run: one with installed phase-lists.
    pub open spec fn spec_has_schedules(&self, s: AppState) -> bool {
        self.spec_schedules_of(s) is Some
    }

    /// The scheduler never looks up phase-lists it does not have: whichever
    /// state the next tick runs in has schedules installed.
    pub open spec fn wf(&self) -> bool {
        match self.next_state.0 {
            Some(s) => {
                if s == AppState::Quit {
                    true
                } else if s != self.current_state {
                    self.spec_has_schedules(s)
                } else {
                    self.spec_has_schedules(self.current_state)
                }
            },
            None => self.spec_has_schedules(self.current_state),
        }
    }

    /// A fresh application: running, in `Startup`, with a transition into
    /// the main menu pending and the two runnable states' phase-lists
    /// installed.
    pub fn new() -> (r: Self)
        ensures
            r.wf(),
            r.is_running,
            r.current_state == AppState::Startup,
            r.next_state == NextState(Some(AppState::MainMenu)),
            r.spec_schedules_of(AppState::MainMenu) == Some(spec_main_menu_schedules()),
            r.spec_schedules_of(AppState::Overworld) == Some(spec_overworld_schedules()),
    {
        let mut states: Vec<(AppState, Schedules)> = Vec::new();
        states.push((AppState::MainMenu, main_menu_schedules()));
        states.push((AppState::Overworld, overworld_schedules()));
        let r = Application {
            is_running: true,
            current_state: AppState::Startup,
            next_state: NextState(Some(AppState::MainMenu)),
            states,
        };
        proof {
            lemma_sched_lookup_first(r.states.deep_view(), AppState::MainMenu, 0);
            lemma_sched_lookup_first(r.states.deep_view(), AppState::Overworld, 1);
        }
        r
    }

    fn find_schedules(&self, s: AppState) -> (r: Option<&Schedules>)
        ensures
            match r {
                Some(sched) => self.spec_schedules_of(s) == Some(sched.deep_view()),
                None => self.spec_schedules_of(s) is None,
            },
    {
        let mut i: usize = 0;
        while i < self.states.len()
            invariant
                i <= self.states@.len(),
                self.states.deep_view().len() == self.states@.len(),
                forall|k: int| 0 <= k < i ==> self.states.deep_view()[k].0 != s,
            decreases self.states@.len() - i,
        {
            if self.states[i].0 == s {
                proof {
                    lemma_sched_lookup_first(self.states.deep_view(), s, i as int);
                }
                return Some(&self.states[i].1);
            }
            i += 1;
        }
        proof {
            lemma_sched_lookup_absent(self.states.deep_view(), s);
        }
        None
    }

    /// Commits a pending transition, if any, and decides this tick's
    /// phases: the committed state's `enter` list exactly once, then the
    /// current state's `tick` list. A pending `Quit` stops the scheduler
    /// and runs nothing.
    pub fn tick(&mut self) -> (phases: Vec<Phase>)
        requires
            old(self).wf(),
        ensures
            final(self).wf(),
            final(self).states.deep_view() == old(self).states.deep_view(),
            final(self).sched_view() == spec_tick_step(old(self).sched_view()).0,
            old(self).next_state.0 == Some(AppState::Quit) ==> phases@
                == Seq::<Phase>::empty(),
            spec_tick_step(old(self).sched_view()).1 ==> phases@ == final(self).spec_schedules_of(
                final(self).current_state,
            )->Some_0.enter + final(self).spec_schedules_of(
                final(self).current_state,
            )->Some_0.tick,
            old(self).next_state.0 != Some(AppState::Quit) && !spec_tick_step(
                old(self).sched_view(),
            ).1 ==> phases@ == final(self).spec_schedules_of(
                final(self).current_state,
            )->Some_0.tick,
    {
        let mut run_enter_step = false;
        match self.next_state.0 {
            Some(new_state) => {
                if new_state == AppState::Quit {
                    self.is_running = false;
                    let phases: Vec<Phase> = Vec::new();
                    proof {
                        assert(phases@ =~= Seq::<Phase>::empty());
                    }
                    return phases;
                }
                if new_state != self.current_state {
                    self.current_state = new_state;
                    self.next_state = NextState(None);
                    run_enter_step = true;
                }
            },
            None => {},
        }

        let mut phases: Vec<Phase> = Vec::new();
        let current = self.current_state;
        match self.find_schedules(current) {
            Some(schedules) => {
                if run_enter_step {
                    append_phases(&mut phases, &schedules.enter_schedule);
                }
                append_phases(&mut phases, &schedules.tick_schedule);
                proof {
                    if run_enter_step {
                        assert(phases@ =~= self.spec_schedules_of(current)->Some_0.enter
                            + self.spec_schedules_of(current)->Some_0.tick);
                    }
                }
                phases
            },
            None => {
                // Unreachable: wf says the state the tick runs in has
                // schedules installed.
                proof {
                    assert(false);
                }
                phases
            },
        }
    }

    /// Decides this frame's presentation phases: the current state's
    /// `render` list, exactly once. Render never mutates simulation state
    /// and never triggers a transition, so the receiver is shared.
    pub fn render(&self) -> (phases: Vec<Phase>)
        requires
            self.spec_has_schedules(self.current_state),
        ensures
            phases@ == self.spec_schedules_of(self.current_state)->Some_0.render,
    {
        let mut phases: Vec<Phase> = Vec::new();
        match self.find_schedules(self.current_state) {
            Some(schedules) => {
                append_phases(&mut phases, &schedules.render_schedule);
                phases
            },
            None => {
                proof {
                    assert(false);
                }
                phases
            },
        }
    }
}

/// Appends a phase-list to the phases decided so far, keeping its order.
fn append_phases(out: &mut Vec<Phase>, phases: &Vec<Phase>)
    ensures
        final(out)@ == old(out)@ + phases@,
{
    let mut i: usize = 0;
    while i < phases.len()
        invariant
            i <= phases@.len(),
            out@ == old(out)@ + phases@.take(i as int),
        decreases phases@.len() - i,
    {
        out.push(phases[i]);
        proof {
            assert(old(out)@ + phases@.take(i + 1 as int) =~= (old(out)@ + phases@.take(
                i as int,
            )).push(phases@[i as int]));
        }
        i += 1;
    }
    proof {
        assert(phases@.take(phases@.len() as int) =~= phases@);
        assert(out@ =~= old(out)@ + phases@);
    }
}

} // verus!
