//! The scene manager: the current scene and a stack of scenes to return to.

use vstd::prelude::*;
use crate::data::game_state::GameState;
use crate::round::{round_process, is_round_step, RoundReport};

verus! {

/// Scene identifiers.
#[derive(Debug, Clone, Copy, PartialEq, Eq, Structural)]
pub enum SceneId {
    MainMenu,
    CityView,
    BattleView,
    MapView,
    Dialog,
    Event,
}

/// The scene manager.
pub struct SceneManager {
    current: Option<SceneId>,
    stack: Vec<SceneId>,
}

/// What a scene manager holds: the current scene and the stack of scenes
/// below it (top last).
pub struct SceneView {
    pub current: Option<SceneId>,
    pub stack: Seq<SceneId>,
}

/// The scenes after pushing `scene`: the current scene, if any, goes on
/// the stack and `scene` becomes current.
pub open spec fn pushed(s: SceneView, scene: SceneId) -> SceneView {
    SceneView {
        current: Some(scene),
        stack: match s.current {
            Some(c) => s.stack.push(c),
            None => s.stack,
        },
    }
}

/// The scenes after a pop: the top of the stack becomes current (none when
/// the stack is empty).
pub open spec fn popped(s: SceneView) -> SceneView {
    if s.stack.len() == 0 {
        SceneView { current: None, stack: s.stack }
    } else {
        SceneView { current: Some(s.stack.last()), stack: s.stack.drop_last() }
    }
}

impl View for SceneManager {
    type V = SceneView;

    closed spec fn view(&self) -> SceneView {
        SceneView { current: self.current, stack: self.stack@ }
    }
}

impl Default for SceneManager {
    fn default() -> (r: Self)
        ensures
            r@ == (SceneView { current: Some(SceneId::MainMenu), stack: Seq::empty() }),
    {
        SceneManager { current: Some(SceneId::MainMenu), stack: Vec::new() }
    }
}

impl SceneManager {
    /// A manager showing the main menu with an empty stack.
    pub fn new() -> (r: Self)
        ensures
            r@ == (SceneView { current: Some(SceneId::MainMenu), stack: Seq::empty() }),
    {
        Self::default()
    }

    /// Makes `scene` current, keeping the previous scene on the stack.
    pub fn push(&mut self, scene: SceneId)
        ensures
            final(self)@ == pushed(old(self)@, scene),
    {
        if let Some(current) = self.current {
            self.stack.push(current);
        }
        self.current = Some(scene);
    }

    /// Returns to the scene on top of the stack.
    pub fn pop(&mut self)
        ensures
            final(self)@ == popped(old(self)@),
    {
        self.current = self.stack.pop();
    }

    /// The current scene.
    pub fn current(&self) -> (r: Option<SceneId>)
        ensures
            r == self@.current,
    {
        self.current
    }

    /// Runs the current scene: the city view processes a round; the other
    /// scenes leave the game unchanged.
    pub fn dispatch(&mut self, game: &mut GameState)
        requires
            old(self)@.current == Some(SceneId::CityView) ==> old(game).wf(),
        ensures
            final(self)@ == old(self)@,
            old(self)@.current == Some(SceneId::CityView) ==> exists|r: RoundReport|
                is_round_step(*old(game), *final(game), r),
            old(self)@.current != Some(SceneId::CityView) ==> *final(game) == *old(game),
    {
        match self.current {
            Some(SceneId::CityView) => {
                let report = round_process(game);
                assert(is_round_step(*old(game), *game, report));
            },
            Some(SceneId::BattleView) => {},
            Some(SceneId::MainMenu) => {},
            _ => {},
        }
    }
}

/// Pushing a scene and popping it again restores the manager, as long as
/// some scene was current (or the stack was empty).
pub proof fn lemma_push_pop(s: SceneView, scene: SceneId)
    requires
        s.current is Some || s.stack.len() == 0,
    ensures
        popped(pushed(s, scene)) == s,
{
    if s.current is Some {
        assert(pushed(s, scene).stack.drop_last() =~= s.stack);
    }
}

} // verus!
