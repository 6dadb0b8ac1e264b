//! The game loop's state and its decisions: what each command does to the
//! game, and what is left to show.

use vstd::prelude::*;
use crate::data::city::{City, CITY_COUNT};
use crate::data::game_state::GameState;
use crate::input::{InputCommand, InputHandler};
use crate::round::{round_process, is_round_step, RoundReport};
use crate::scene::{SceneId, SceneManager, SceneView, pushed};
use crate::scenario::{init_new_scenario, other_cities_have_ids};

verus! {

/// What is left for the front end after a command: something to show or
/// nothing.
pub enum LoopAction {
    Nothing,
    Stopped,
    ShowStatus,
    TurnProcessed(RoundReport),
    Developed { city_id: u8, development: u8 },
    Recruited { city_id: u8, recruits: u16 },
    ShowDiplomacy,
    ShowPersonnel,
    ShowInfo,
    ShowCity(u8),
}

/// The game loop's state.
pub struct GameLoop {
    pub game: GameState,
    pub scene_manager: SceneManager,
    pub input: InputHandler,
    pub running: bool,
    pub current_faction: u8,
}

/// The id of the first city from `k` on that faction `faction` owns, or 1
/// when there is none.
pub open spec fn first_owned_city(cities: Seq<City>, faction: u8, k: int) -> u8
    decreases cities.len() - k,
{
    if k < 0 || k >= cities.len() {
        1
    } else if cities[k].ownership != 0 && cities[k].ownership == faction {
        cities[k].id
    } else {
        first_owned_city(cities, faction, k + 1)
    }
}

/// The development after one round of work: 5 more, at most 100.
pub open spec fn developed(level: u8) -> u8 {
    if level + 5 <= 100 {
        (level + 5) as u8
    } else {
        100
    }
}

/// The recruits a city's gold pays for: one per 100 gold, at most 100.
pub open spec fn recruits_for(gold: u16) -> u16 {
    if gold / 100 <= 100 {
        (gold / 100) as u16
    } else {
        100
    }
}

/// A command can be carried out: the game is well formed, and a domestic
/// or military command finds the current city in the table, where
/// recruiting does not overflow the troops.
pub open spec fn command_allowed(gl: GameLoop, cmd: InputCommand) -> bool {
    let id = first_owned_city(gl.game.cities.cities@, gl.current_faction, 0);
    &&& gl.game.wf()
    &&& (cmd == InputCommand::Domestic || cmd == InputCommand::Military) ==> (id as int) < CITY_COUNT
    &&& cmd == InputCommand::Military ==> gl.game.cities.cities@[id as int].off_13 + recruits_for(
        gl.game.cities.cities@[id as int].off_0f,
    ) <= u16::MAX
}

/// The rules of a round of work: development rises by 5 and stops at 100;
/// every full 100 gold pays for one recruit, at most 100 recruits.
pub proof fn lemma_work_rules(level: u8, gold: u16)
    ensures
        level <= 95 ==> developed(level) == level + 5,
        level > 95 ==> developed(level) == 100,
        level <= 100 ==> developed(level) >= level,
        recruits_for(gold) * 100 <= gold,
        recruits_for(gold) < 100 ==> gold < (recruits_for(gold) + 1) * 100,
        recruits_for(gold) <= 100,
        gold >= 10000 ==> recruits_for(gold) == 100,
{
}

/// A faction's current city is the first city in the table it owns, and
/// city 1 when it owns none.
pub proof fn lemma_first_owned_city(cities: Seq<City>, faction: u8, k: int)
    requires
        0 <= k,
    ensures
        (forall|j: int| k <= j < cities.len() ==> !(#[trigger] cities[j].ownership != 0 && cities[j].ownership
            == faction)) ==> first_owned_city(cities, faction, k) == 1,
        forall|j: int|
            k <= j < cities.len() && #[trigger] cities[j].ownership != 0 && cities[j].ownership == faction && (
            forall|i: int| k <= i < j ==> !(#[trigger] cities[i].ownership != 0 && cities[i].ownership == faction))
                ==> first_owned_city(cities, faction, k) == cities[j].id,
    decreases cities.len() - k,
{
    if k < cities.len() {
        lemma_first_owned_city(cities, faction, k + 1);
        if !(cities[k].ownership != 0 && cities[k].ownership == faction) {
            assert forall|j: int|
                k <= j < cities.len() && #[trigger] cities[j].ownership != 0 && cities[j].ownership == faction
                    && (forall|i: int|
                    k <= i < j ==> !(#[trigger] cities[i].ownership != 0 && cities[i].ownership == faction))
                    implies first_owned_city(cities, faction, k) == cities[j].id by {
                assert(j != k);
                assert forall|i: int| k + 1 <= i < j implies !(#[trigger] cities[i].ownership != 0
                    && cities[i].ownership == faction) by {}
            }
        } else {
            assert forall|j: int|
                k <= j < cities.len() && #[trigger] cities[j].ownership != 0 && cities[j].ownership == faction
                    && (forall|i: int|
                    k <= i < j ==> !(#[trigger] cities[i].ownership != 0 && cities[i].ownership == faction))
                    implies first_owned_city(cities, faction, k) == cities[j].id by {
                if j > k {
                    assert(!(cities[k].ownership != 0 && cities[k].ownership == faction));
                }
            }
        }
    }
}

/// The recruits `gold` pays for (see `recruits_for`).
pub fn recruits_for_gold(gold: u16) -> (r: u16)
    ensures
        r == recruits_for(gold),
{
    if gold / 100 <= 100 {
        gold / 100
    } else {
        100
    }
}

impl GameLoop {
    /// A running loop on a fresh game, on the main menu, for faction 1.
    pub fn new() -> (r: Self)
        ensures
            r.game.wf(),
            r.game.turn == 0,
            r.scene_manager@ == (SceneView { current: Some(SceneId::MainMenu), stack: Seq::empty() }),
            !r.input.waiting,
            r.running,
            r.current_faction == 1,
            forall|i: int| 0 <= i < CITY_COUNT ==> (#[trigger] r.game.cities.cities@[i]).ownership == 0,
    {
        let game = GameState::new();
        GameLoop {
            game,
            scene_manager: SceneManager::new(),
            input: InputHandler::new(),
            running: true,
            current_faction: 1,
        }
    }

    /// Sets up scenario `scenario_id` (see `init_new_scenario`), selects
    /// faction 1 and opens the city view.
    pub fn init(&mut self, scenario_id: u8)
        requires
            old(self).game.wf(),
            other_cities_have_ids(old(self).game),
        ensures
            final(self).game.wf(),
            final(self).current_faction == 1,
            final(self).scene_manager@ == pushed(old(self).scene_manager@, SceneId::CityView),
            final(self).running == old(self).running,
            final(self).game.turn == 1,
    {
        init_new_scenario(&mut self.game, scenario_id);
        self.current_faction = 1;
        self.scene_manager.push(SceneId::CityView);
    }

    /// Carries out one command: quitting stops the loop; ending the turn,
    /// or the debug round, processes a round; the domestic command develops
    /// the current city and the military one recruits there; the other
    /// commands change nothing and say what to show.
    pub fn step(&mut self, cmd: InputCommand) -> (r: LoopAction)
        requires
            command_allowed(*old(self), cmd),
        ensures
            final(self).game.wf(),
            final(self).current_faction == old(self).current_faction,
            final(self).scene_manager@ == old(self).scene_manager@,
            cmd == InputCommand::Quit ==> !final(self).running && r is Stopped && final(self).game
                == old(self).game,
            cmd != InputCommand::Quit ==> final(self).running == old(self).running,
            (cmd == InputCommand::EndTurn || cmd == InputCommand::DebugNextTurn) ==> (r matches LoopAction::TurnProcessed(report)
                && is_round_step(old(self).game, final(self).game, report)),
            cmd == InputCommand::Domestic ==> ({
                let id = first_owned_city(old(self).game.cities.cities@, old(self).current_faction, 0);
                let c = old(self).game.cities.cities@[id as int];
                &&& r == (LoopAction::Developed { city_id: id, development: developed(c.off_18) })
                &&& final(self).game.cities.cities@ == old(self).game.cities.cities@.update(
                    id as int,
                    City { off_18: developed(c.off_18), ..c },
                )
            }),
            cmd == InputCommand::Military ==> ({
                let id = first_owned_city(old(self).game.cities.cities@, old(self).current_faction, 0);
                let c = old(self).game.cities.cities@[id as int];
                let n = recruits_for(c.off_0f);
                &&& r == (LoopAction::Recruited { city_id: id, recruits: n })
                &&& final(self).game.cities.cities@ == old(self).game.cities.cities@.update(
                    id as int,
                    City { off_13: (c.off_13 + n) as u16, off_0f: (c.off_0f - n * 10) as u16, ..c },
                )
            }),
            cmd == InputCommand::DebugStatus ==> r is ShowStatus && final(self).game == old(self).game,
            cmd == InputCommand::Diplomacy ==> r is ShowDiplomacy && final(self).game == old(self).game,
            cmd == InputCommand::Personnel ==> r is ShowPersonnel && final(self).game == old(self).game,
            cmd == InputCommand::Info ==> r is ShowInfo && final(self).game == old(self).game,
            cmd == InputCommand::Confirm ==> final(self).game == old(self).game && (if old(
                self,
            ).scene_manager@.current == Some(SceneId::CityView) {
                r == LoopAction::ShowCity(
                    first_owned_city(old(self).game.cities.cities@, old(self).current_faction, 0),
                )
            } else {
                r is Nothing
            }),
            (cmd == InputCommand::NoCommand || cmd == InputCommand::MoveUp || cmd
                == InputCommand::MoveDown || cmd == InputCommand::MoveLeft || cmd
                == InputCommand::MoveRight || cmd == InputCommand::Cancel || cmd == InputCommand::Save
                || cmd == InputCommand::Load) ==> r is Nothing && final(self).game == old(self).game,
    {
        match cmd {
            InputCommand::Quit => {
                self.running = false;
                LoopAction::Stopped
            },
            InputCommand::DebugStatus => LoopAction::ShowStatus,
            InputCommand::DebugNextTurn => LoopAction::TurnProcessed(self.process_turn()),
            InputCommand::EndTurn => LoopAction::TurnProcessed(self.process_turn()),
            InputCommand::Domestic => self.handle_domestic(),
            InputCommand::Military => self.handle_military(),
            InputCommand::Diplomacy => LoopAction::ShowDiplomacy,
            InputCommand::Personnel => LoopAction::ShowPersonnel,
            InputCommand::Info => LoopAction::ShowInfo,
            InputCommand::Confirm => {
                if self.scene_manager.current() == Some(SceneId::CityView) {
                    LoopAction::ShowCity(self.get_current_city())
                } else {
                    LoopAction::Nothing
                }
            },
            _ => LoopAction::Nothing,
        }
    }

    /// Processes a round.
    fn process_turn(&mut self) -> (r: RoundReport)
        requires
            old(self).game.wf(),
        ensures
            is_round_step(old(self).game, final(self).game, r),
            final(self).game.wf(),
            final(self).current_faction == old(self).current_faction,
            final(self).scene_manager@ == old(self).scene_manager@,
            final(self).running == old(self).running,
    {
        round_process(&mut self.game)
    }

    /// Develops the current city: 5 more, at most 100.
    fn handle_domestic(&mut self) -> (r: LoopAction)
        requires
            command_allowed(*old(self), InputCommand::Domestic),
        ensures
            final(self).game.wf(),
            final(self).current_faction == old(self).current_faction,
            final(self).scene_manager@ == old(self).scene_manager@,
            final(self).running == old(self).running,
            ({
                let id = first_owned_city(old(self).game.cities.cities@, old(self).current_faction, 0);
                let c = old(self).game.cities.cities@[id as int];
                &&& r == (LoopAction::Developed { city_id: id, development: developed(c.off_18) })
                &&& final(self).game.cities.cities@ == old(self).game.cities.cities@.update(
                    id as int,
                    City { off_18: developed(c.off_18), ..c },
                )
            }),
    {
        let city_id = self.get_current_city();
        let level = self.game.cities.get(city_id).off_18;
        let development: u32 = level as u32 + 5;
        let new_level: u8 = if development <= 100 {
            development as u8
        } else {
            100
        };
        self.game.cities.get_mut(city_id).off_18 = new_level;
        LoopAction::Developed { city_id, development: new_level }
    }

    /// Recruits in the current city: one soldier per 100 gold, at most
    /// 100, each costing 10 gold.
    fn handle_military(&mut self) -> (r: LoopAction)
        requires
            command_allowed(*old(self), InputCommand::Military),
        ensures
            final(self).game.wf(),
            final(self).current_faction == old(self).current_faction,
            final(self).scene_manager@ == old(self).scene_manager@,
            final(self).running == old(self).running,
            ({
                let id = first_owned_city(old(self).game.cities.cities@, old(self).current_faction, 0);
                let c = old(self).game.cities.cities@[id as int];
                let n = recruits_for(c.off_0f);
                &&& r == (LoopAction::Recruited { city_id: id, recruits: n })
                &&& final(self).game.cities.cities@ == old(self).game.cities.cities@.update(
                    id as int,
                    City { off_13: (c.off_13 + n) as u16, off_0f: (c.off_0f - n * 10) as u16, ..c },
                )
            }),
    {
        let city_id = self.get_current_city();
        let gold = self.game.cities.get(city_id).off_0f;
        let recruits = recruits_for_gold(gold);
        {
            let city = self.game.cities.get_mut(city_id);
            city.off_13 = city.off_13 + recruits;
            city.off_0f = city.off_0f - recruits * 10;
        }
        LoopAction::Recruited { city_id, recruits }
    }

    /// The id of the first city of the current faction, or 1 when it holds
    /// none.
    pub fn get_current_city(&self) -> (r: u8)
        ensures
            r == first_owned_city(self.game.cities.cities@, self.current_faction, 0),
    {
        let faction_id = self.current_faction;
        let mut i: usize = 0;
        while i < self.game.cities.cities.len()
            invariant
                i <= self.game.cities.cities@.len(),
                faction_id == self.current_faction,
                first_owned_city(self.game.cities.cities@, faction_id, i as int) == first_owned_city(
                    self.game.cities.cities@,
                    faction_id,
                    0,
                ),
            decreases self.game.cities.cities@.len() - i,
        {
            let city = &self.game.cities.cities[i];
            if city.is_valid() && city.ownership == faction_id {
                return city.id;
            }
            i = i + 1;
        }
        1
    }
}

impl Default for GameLoop {
    fn default() -> (r: Self)
        ensures
            r.game.wf(),
            r.game.turn == 0,
            r.scene_manager@ == (SceneView { current: Some(SceneId::MainMenu), stack: Seq::empty() }),
            !r.input.waiting,
            r.running,
            r.current_faction == 1,
    {
        Self::new()
    }
}

} // verus!
