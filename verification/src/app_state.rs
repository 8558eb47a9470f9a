use vstd::prelude::*;
use crate::components::{EntityId, Position};
use crate::player::{MenuAction, MenuSelection, PlayerResponse};
use crate::inventory::InventoryResponse;
use crate::saveload::SaveAction;
use crate::settings::{SettingsAction, SettingsSelection};

verus! {

/// Defines the app's state for the game
#[allow(inconsistent_fields)]
pub enum AppState {
    MainMenu { hovering: MenuSelection },
    SettingsMenu { hovering: SettingsSelection },
    NewGameStart,
    LoadGameStart,
    MapChange { level_name: String, player_world_pos: Position },
    InGame,
    /// How long the player waits for a response, in nanoseconds.
    ActivityBound { response_delay: u64 },
    PlayerInInventory,
    SaveGame,
    PreRun { next_state: Box<AppState> },
}

impl AppState {
    /// Creates the enum variant ActivityBound with zero duration
    pub fn activity_bound() -> (s: Self)
        ensures
            s == (AppState::ActivityBound { response_delay: 0 }),
    {
        Self::ActivityBound { response_delay: 0 }
    }

    /// A copy of the state.
    pub fn copy(&self) -> (s: Self)
        ensures
            s == *self,
        decreases self,
    {
        match self {
            AppState::MainMenu { hovering } => AppState::MainMenu { hovering: *hovering },
            AppState::SettingsMenu { hovering } => AppState::SettingsMenu { hovering: *hovering },
            AppState::NewGameStart => AppState::NewGameStart,
            AppState::LoadGameStart => AppState::LoadGameStart,
            AppState::MapChange { level_name, player_world_pos } => AppState::MapChange {
                level_name: level_name.clone(),
                player_world_pos: *player_world_pos,
            },
            AppState::InGame => AppState::InGame,
            AppState::ActivityBound { response_delay } => AppState::ActivityBound { response_delay: *response_delay },
            AppState::PlayerInInventory => AppState::PlayerInInventory,
            AppState::SaveGame => AppState::SaveGame,
            AppState::PreRun { next_state } => AppState::PreRun { next_state: Box::new((**next_state).copy()) },
        }
    }
}

/// Which variant a state is, its fields left aside.
pub open spec fn state_kind(s: AppState) -> int {
    match s {
        AppState::MainMenu { .. } => 0,
        AppState::SettingsMenu { .. } => 1,
        AppState::NewGameStart => 2,
        AppState::LoadGameStart => 3,
        AppState::MapChange { .. } => 4,
        AppState::InGame => 5,
        AppState::ActivityBound { .. } => 6,
        AppState::PlayerInInventory => 7,
        AppState::SaveGame => 8,
        AppState::PreRun { .. } => 9,
    }
}

/// The variant number of a state.
fn kind_of(s: &AppState) -> (k: u8)
    ensures
        k == state_kind(*s),
{
    match s {
        AppState::MainMenu { .. } => 0,
        AppState::SettingsMenu { .. } => 1,
        AppState::NewGameStart => 2,
        AppState::LoadGameStart => 3,
        AppState::MapChange { .. } => 4,
        AppState::InGame => 5,
        AppState::ActivityBound { .. } => 6,
        AppState::PlayerInInventory => 7,
        AppState::SaveGame => 8,
        AppState::PreRun { .. } => 9,
    }
}

/// The state of this frame and the state of the next.
pub struct FrameState {
    pub current: AppState,
    pub next: AppState,
}

impl FrameState {
    pub fn new(current: &AppState) -> (f: Self)
        ensures
            f.current == *current,
            f.next == *current,
    {
        Self { current: current.copy(), next: current.copy() }
    }

    /// Sets the state for the next frame
    pub fn change_to(&mut self, new: AppState)
        ensures
            final(self).current == old(self).current,
            final(self).next == new,
    {
        self.next = new;
    }

    /// will change if the next state is different from the current
    pub fn will_change(&self) -> (r: bool)
        ensures
            r == (state_kind(self.current) != state_kind(self.next)),
    {
        kind_of(&self.current) != kind_of(&self.next)
    }
}

/// How many turns have passed.
pub struct TurnCounter(pub usize);

impl TurnCounter {
    pub fn zero() -> (t: Self)
        ensures
            t.0 == 0,
    {
        Self(0)
    }

    /// One more turn.
    pub fn incr(&mut self)
        requires
            old(self).0 < usize::MAX,
        ensures
            final(self).0 == old(self).0 + 1,
    {
        self.0 = self.0 + 1;
    }
}

/// A sound effect.
#[derive(Debug, Copy, Clone, PartialEq, Eq, Structural)]
pub enum Sound {
    Confirm,
    UiMove,
}

/// The name of a sound effect.
pub open spec fn sound_name(s: Sound) -> Seq<char> {
    match s {
        Sound::Confirm => "confirm"@,
        Sound::UiMove => "ui_move"@,
    }
}

impl Sound {
    pub fn name(&self) -> (n: &'static str)
        ensures
            n@ == sound_name(*self),
    {
        proof { reveal_strlit("confirm"); reveal_strlit("ui_move"); }
        match self {
            Sound::Confirm => "confirm",
            Sound::UiMove => "ui_move",
        }
    }
}

/// One thing the frame does, in the order given.
#[derive(Debug, Copy, Clone, PartialEq, Eq, Structural)]
pub enum TickStep {
    InitializeNewGameWorld,
    LoadGame,
    SetLevelFont,
    RunItemSpawner,
    IncrementTurn,
    RunResponseSystems,
    RunIngameSystems,
    RunEofSystems,
    HandleOneItemActions,
    RunEquipSystem,
    RunConsumeHandler,
    RunHealHandler,
    RunDamageSystem,
    HandleTwoItemActions(EntityId),
    RunCraftingSystem,
    RunZeroQtyCleanup,
    ReadActivityInput,
    RunActivityBoundSystems,
    UpdateAnimationTimers,
    PlaySound(Sound),
    Quit,
    HandleSettingSelected(SettingsSelection),
    SaveSettings,
    SaveGame,
    CleanupGame,
    LogSaved,
    PlayMainMenuIntro,
    UpdateFancyPositions,
    UpdateDeltaTime,
    Maintain,
    DrawUi,
    Render,
    DrawSpriteLayers,
    DebugInfo,
    DebugInput,
    ClearAnimations,
}

/// What the frame learned from the player (or the game) after its first steps.
pub enum TickEvent {
    /// The state reads no input.
    Nothing,
    Game(PlayerResponse),
    Inventory(InventoryResponse),
    /// Whether the player finished its activity.
    Activity(bool),
    /// The main menu's input, and whether a save game exists.
    Menu(MenuAction, bool),
    Settings(SettingsAction),
    Save(SaveAction),
}

/// The steps a frame takes before it reads input.
pub open spec fn prelude_steps(s: AppState) -> Seq<TickStep> {
    match s {
        AppState::ActivityBound { .. } => seq![TickStep::ReadActivityInput, TickStep::RunActivityBoundSystems],
        AppState::MainMenu { .. } => seq![TickStep::UpdateAnimationTimers],
        _ => Seq::empty(),
    }
}

/// Whether the event is the kind the state reads.
pub open spec fn event_fits(s: AppState, e: TickEvent) -> bool {
    match s {
        AppState::InGame => e is Game,
        AppState::PlayerInInventory => e is Inventory,
        AppState::ActivityBound { .. } => e is Activity,
        AppState::MainMenu { .. } => e is Menu,
        AppState::SettingsMenu { .. } => e is Settings,
        AppState::SaveGame => e is Save,
        _ => e is Nothing,
    }
}

/// The steps of a frame after its input, and the state of the next frame (`None`: it stays).
pub open spec fn decided(s: AppState, e: TickEvent) -> (Seq<TickStep>, Option<AppState>) {
    match (s, e) {
        (AppState::NewGameStart, _) => (
            seq![TickStep::InitializeNewGameWorld, TickStep::SetLevelFont, TickStep::RunItemSpawner],
            Some(AppState::InGame),
        ),
        (AppState::LoadGameStart, _) => (seq![TickStep::LoadGame, TickStep::SetLevelFont], Some(AppState::InGame)),
        (AppState::InGame, TickEvent::Game(r)) => {
            let after = seq![TickStep::RunIngameSystems, TickStep::RunEofSystems];
            match r {
                PlayerResponse::Waiting => (after, None),
                PlayerResponse::TurnAdvance => (seq![TickStep::IncrementTurn, TickStep::RunResponseSystems] + after, None),
                PlayerResponse::StateChange(n) => (after, Some(n)),
            }
        },
        (AppState::PlayerInInventory, TickEvent::Inventory(r)) => {
            let after = seq![TickStep::RunItemSpawner, TickStep::RunZeroQtyCleanup];
            match r {
                InventoryResponse::Waiting => (after, None),
                InventoryResponse::ActionReady => (
                    seq![
                        TickStep::HandleOneItemActions,
                        TickStep::RunEquipSystem,
                        TickStep::RunConsumeHandler,
                        TickStep::RunHealHandler,
                        TickStep::RunDamageSystem,
                    ] + after,
                    None,
                ),
                InventoryResponse::SecondItemSelected { second_item } => (
                    seq![TickStep::HandleTwoItemActions(second_item), TickStep::RunCraftingSystem] + after,
                    None,
                ),
                InventoryResponse::StateChange(n) => (after, Some(n)),
            }
        },
        (AppState::ActivityBound { response_delay }, TickEvent::Activity(finished)) => if finished {
            (seq![TickStep::IncrementTurn, TickStep::RunResponseSystems], Some(AppState::InGame))
        } else {
            (Seq::empty(), Some(AppState::ActivityBound { response_delay }))
        },
        (AppState::MainMenu { hovering }, TickEvent::Menu(a, save_exists)) => match a {
            MenuAction::Selected(MenuSelection::NewGame) => (seq![TickStep::PlaySound(Sound::Confirm)], Some(AppState::NewGameStart)),
            MenuAction::Selected(MenuSelection::LoadGame) => if save_exists {
                (seq![TickStep::PlaySound(Sound::Confirm)], Some(AppState::LoadGameStart))
            } else {
                (Seq::empty(), Some(AppState::MainMenu { hovering: MenuSelection::NewGame }))
            },
            MenuAction::Selected(MenuSelection::Settings) => (
                seq![TickStep::PlaySound(Sound::Confirm)],
                Some(AppState::SettingsMenu { hovering: SettingsSelection::SpriteMode }),
            ),
            MenuAction::Selected(MenuSelection::QuitGame) => (seq![TickStep::Quit], None),
            MenuAction::Hovering(n) => if n != hovering {
                (seq![TickStep::PlaySound(Sound::UiMove)], Some(AppState::MainMenu { hovering: n }))
            } else {
                (Seq::empty(), None)
            },
            MenuAction::Waiting => (Seq::empty(), None),
        },
        (AppState::SettingsMenu { hovering }, TickEvent::Settings(a)) => match a {
            SettingsAction::Selected => (seq![TickStep::HandleSettingSelected(hovering)], None),
            SettingsAction::ReturnToMainMenu => (
                seq![TickStep::SaveSettings],
                Some(AppState::PreRun { next_state: Box::new(AppState::MainMenu { hovering: MenuSelection::Settings }) }),
            ),
            SettingsAction::Waiting => (Seq::empty(), None),
        },
        (AppState::SaveGame, TickEvent::Save(a)) => match a {
            SaveAction::Save => (
                seq![TickStep::SaveGame, TickStep::CleanupGame],
                Some(AppState::PreRun { next_state: Box::new(AppState::MainMenu { hovering: MenuSelection::NewGame }) }),
            ),
            SaveAction::Cancel => (Seq::empty(), Some(AppState::InGame)),
            SaveAction::QuitWithoutSaving => (
                seq![TickStep::CleanupGame],
                Some(AppState::PreRun { next_state: Box::new(AppState::MainMenu { hovering: MenuSelection::NewGame }) }),
            ),
            SaveAction::QuickSave => (
                seq![TickStep::SaveGame, TickStep::LogSaved],
                Some(AppState::PreRun { next_state: Box::new(AppState::InGame) }),
            ),
            SaveAction::Waiting => (Seq::empty(), None),
        },
        (AppState::PreRun { next_state }, _) => (pre_state_steps(*next_state), Some(*next_state)),
        _ => (Seq::empty(), None),
    }
}

/// The steps run every time a state is entered.
pub open spec fn pre_state_steps(s: AppState) -> Seq<TickStep> {
    match s {
        AppState::MainMenu { .. } => seq![TickStep::PlayMainMenuIntro],
        _ => Seq::empty(),
    }
}

/// The steps run every time a state is left.
pub open spec fn exit_state_steps(s: AppState) -> Seq<TickStep> {
    match s {
        AppState::MainMenu { .. } => seq![TickStep::ClearAnimations],
        _ => Seq::empty(),
    }
}

/// The steps every frame ends with: drawing, then leaving the current state when the next is
/// of another kind.
pub open spec fn closing_steps(current: AppState, next: AppState) -> Seq<TickStep> {
    let essential = seq![TickStep::UpdateFancyPositions, TickStep::UpdateDeltaTime, TickStep::Maintain, TickStep::DrawUi, TickStep::Render];
    let world = match current {
        AppState::InGame | AppState::PlayerInInventory | AppState::NewGameStart | AppState::MapChange { .. } =>
            seq![TickStep::DrawSpriteLayers, TickStep::DebugInfo, TickStep::DebugInput],
        _ => Seq::empty(),
    };
    let leave = if state_kind(current) != state_kind(next) { exit_state_steps(current) } else { Seq::empty() };
    essential + world + leave
}

/// What a frame does after its input: the steps in order, and the state of the next frame.
pub struct TickPlan {
    pub steps: Vec<TickStep>,
    pub next: AppState,
}

/// These systems are ran every time upon entering a state
pub fn run_pre_state_systems(state: &AppState) -> (r: Vec<TickStep>)
    ensures
        r@ == pre_state_steps(*state),
{
    let mut r: Vec<TickStep> = Vec::new();
    match state {
        AppState::MainMenu { .. } => r.push(TickStep::PlayMainMenuIntro),
        _ => {},
    }
    assert(r@ =~= pre_state_steps(*state));
    r
}

/// These systems are ran every time a state is changed
pub fn run_exit_state_systems(state: &AppState) -> (r: Vec<TickStep>)
    ensures
        r@ == exit_state_steps(*state),
{
    let mut r: Vec<TickStep> = Vec::new();
    match state {
        AppState::MainMenu { .. } => r.push(TickStep::ClearAnimations),
        _ => {},
    }
    assert(r@ =~= exit_state_steps(*state));
    r
}

/// The steps of a frame in the state `current` before it reads input.
pub fn tick_prelude(current: &AppState) -> (r: Vec<TickStep>)
    ensures
        r@ == prelude_steps(*current),
{
    let mut r: Vec<TickStep> = Vec::new();
    match current {
        AppState::ActivityBound { .. } => {
            r.push(TickStep::ReadActivityInput);
            r.push(TickStep::RunActivityBoundSystems);
        },
        AppState::MainMenu { .. } => r.push(TickStep::UpdateAnimationTimers),
        _ => {},
    }
    assert(r@ =~= prelude_steps(*current));
    r
}

/// Appends the steps of `extra` to `steps`.
fn push_all(steps: &mut Vec<TickStep>, extra: Vec<TickStep>)
    ensures
        final(steps)@ == old(steps)@ + extra@,
{
    let mut i: usize = 0;
    while i < extra.len()
        invariant
            i <= extra@.len(),
            steps@ == old(steps)@ + extra@.take(i as int),
        decreases extra@.len() - i,
    {
        steps.push(extra[i]);
        assert(steps@ =~= old(steps)@ + extra@.take(i as int + 1));
        i = i + 1;
    }
    assert(extra@.take(i as int) =~= extra@);
}

/// A list of the given steps.
fn steps_of(a: &[TickStep]) -> (r: Vec<TickStep>)
    ensures
        r@ == a@,
{
    let mut r: Vec<TickStep> = Vec::new();
    let mut i: usize = 0;
    while i < a.len()
        invariant
            i <= a@.len(),
            r@ == a@.take(i as int),
        decreases a@.len() - i,
    {
        r.push(a[i]);
        assert(r@ =~= a@.take(i as int + 1));
        i = i + 1;
    }
    assert(a@.take(i as int) =~= a@);
    r
}

/// One frame of the game after its input `event`: the steps to take, in order (what the state
/// does with the input, then drawing and leaving the state), and the state of the next frame.
/// A new game is set up and a save game loaded, and the game goes on; in game a turn advances
/// the turn counter and lets the world respond; in the inventory a chosen action is handled;
/// an activity ends when the player finished it; the menus move, select and go back; and a
/// state run first is entered.
pub fn tick(current: &AppState, event: TickEvent) -> (plan: TickPlan)
    requires
        !(*current is MapChange),
        event_fits(*current, event),
    ensures
        ({
            let (steps, next) = decided(*current, event);
            let n = match next { Some(n) => n, None => *current };
            &&& plan.next == n
            &&& plan.steps@ == steps + closing_steps(*current, n)
        }),
{
    let mut steps: Vec<TickStep> = Vec::new();
    let mut next = current.copy();
    match current {
        AppState::NewGameStart => {
            steps = steps_of(&[TickStep::InitializeNewGameWorld, TickStep::SetLevelFont, TickStep::RunItemSpawner]);
            next = AppState::InGame;
        },
        AppState::LoadGameStart => {
            steps = steps_of(&[TickStep::LoadGame, TickStep::SetLevelFont]);
            next = AppState::InGame;
        },
        AppState::InGame => {
            match event {
                TickEvent::Game(r) => match r {
                    PlayerResponse::Waiting => {},
                    PlayerResponse::TurnAdvance => {
                        steps = steps_of(&[TickStep::IncrementTurn, TickStep::RunResponseSystems]);
                    },
                    PlayerResponse::StateChange(n) => {
                        next = n;
                    },
                },
                _ => {},
            }
            push_all(&mut steps, steps_of(&[TickStep::RunIngameSystems, TickStep::RunEofSystems]));
        },
        AppState::PlayerInInventory => {
            match event {
                TickEvent::Inventory(r) => match r {
                    InventoryResponse::Waiting => {},
                    InventoryResponse::ActionReady => {
                        steps = steps_of(&[
                            TickStep::HandleOneItemActions,
                            TickStep::RunEquipSystem,
                            TickStep::RunConsumeHandler,
                            TickStep::RunHealHandler,
                            TickStep::RunDamageSystem,
                        ]);
                    },
                    InventoryResponse::SecondItemSelected { second_item } => {
                        steps = steps_of(&[TickStep::HandleTwoItemActions(second_item), TickStep::RunCraftingSystem]);
                    },
                    InventoryResponse::StateChange(n) => {
                        next = n;
                    },
                },
                _ => {},
            }
            push_all(&mut steps, steps_of(&[TickStep::RunItemSpawner, TickStep::RunZeroQtyCleanup]));
        },
        AppState::ActivityBound { response_delay } => {
            match event {
                TickEvent::Activity(finished) => {
                    if finished {
                        steps = steps_of(&[TickStep::IncrementTurn, TickStep::RunResponseSystems]);
                        next = AppState::InGame;
                    } else {
                        next = AppState::ActivityBound { response_delay: *response_delay };
                    }
                },
                _ => {},
            }
        },
        AppState::MapChange { .. } => {},
        AppState::MainMenu { hovering } => {
            match event {
                TickEvent::Menu(a, save_exists) => match a {
                    MenuAction::Selected(sel) => match sel {
                        MenuSelection::NewGame => {
                            steps = steps_of(&[TickStep::PlaySound(Sound::Confirm)]);
                            next = AppState::NewGameStart;
                        },
                        MenuSelection::LoadGame => {
                            if save_exists {
                                steps = steps_of(&[TickStep::PlaySound(Sound::Confirm)]);
                                next = AppState::LoadGameStart;
                            } else {
                                next = AppState::MainMenu { hovering: MenuSelection::NewGame };
                            }
                        },
                        MenuSelection::Settings => {
                            steps = steps_of(&[TickStep::PlaySound(Sound::Confirm)]);
                            next = AppState::SettingsMenu { hovering: SettingsSelection::SpriteMode };
                        },
                        MenuSelection::QuitGame => {
                            steps = steps_of(&[TickStep::Quit]);
                        },
                    },
                    MenuAction::Hovering(n) => {
                        if n != *hovering {
                            steps = steps_of(&[TickStep::PlaySound(Sound::UiMove)]);
                            next = AppState::MainMenu { hovering: n };
                        }
                    },
                    MenuAction::Waiting => {},
                },
                _ => {},
            }
        },
        AppState::SettingsMenu { hovering } => {
            match event {
                TickEvent::Settings(a) => match a {
                    SettingsAction::Selected => {
                        steps = steps_of(&[TickStep::HandleSettingSelected(*hovering)]);
                    },
                    SettingsAction::ReturnToMainMenu => {
                        steps = steps_of(&[TickStep::SaveSettings]);
                        next = AppState::PreRun { next_state: Box::new(AppState::MainMenu { hovering: MenuSelection::Settings }) };
                    },
                    SettingsAction::Waiting => {},
                },
                _ => {},
            }
        },
        AppState::SaveGame => {
            match event {
                TickEvent::Save(a) => match a {
                    SaveAction::Save => {
                        steps = steps_of(&[TickStep::SaveGame, TickStep::CleanupGame]);
                        next = AppState::PreRun { next_state: Box::new(AppState::MainMenu { hovering: MenuSelection::NewGame }) };
                    },
                    SaveAction::Cancel => {
                        next = AppState::InGame;
                    },
                    SaveAction::QuitWithoutSaving => {
                        steps = steps_of(&[TickStep::CleanupGame]);
                        next = AppState::PreRun { next_state: Box::new(AppState::MainMenu { hovering: MenuSelection::NewGame }) };
                    },
                    SaveAction::QuickSave => {
                        steps = steps_of(&[TickStep::SaveGame, TickStep::LogSaved]);
                        next = AppState::PreRun { next_state: Box::new(AppState::InGame) };
                    },
                    SaveAction::Waiting => {},
                },
                _ => {},
            }
        },
        AppState::PreRun { next_state } => {
            steps = run_pre_state_systems(next_state);
            next = (**next_state).copy();
        },
    }
    let ghost decided_steps = steps@;
    push_all(&mut steps, steps_of(&[TickStep::UpdateFancyPositions, TickStep::UpdateDeltaTime, TickStep::Maintain, TickStep::DrawUi, TickStep::Render]));
    match current {
        AppState::InGame | AppState::PlayerInInventory | AppState::NewGameStart | AppState::MapChange { .. } => {
            push_all(&mut steps, steps_of(&[TickStep::DrawSpriteLayers, TickStep::DebugInfo, TickStep::DebugInput]));
        },
        _ => {},
    }
    let frame = FrameState { current: current.copy(), next };
    if frame.will_change() {
        push_all(&mut steps, run_exit_state_systems(&frame.current));
    }
    proof {
        let (ds, n) = decided(*current, event);
        assert(decided_steps =~= ds);
        assert(steps@ =~= ds + closing_steps(*current, frame.next));
    }
    TickPlan { steps, next: frame.next }
}

} // verus!
