//! The front end as a whole: the menu, and the simulation that it starts.

use vstd::prelude::*;
use crate::ram::machine::RamMachine;
use crate::ram::state::MachineState;
use crate::ui::key::Key;
use crate::ui::menu::{Menu, MenuHandleResult, MenuHandleResultView, MenuView, texts_of};
use crate::ui::simulation::{Simulation, SimulationHandleResult, SimulationView};

verus! {

/// What the caller is to do after a key.
#[derive(Debug, Clone, PartialEq, Eq)]
pub enum UiAction {
    /// Nothing: wait for the next key.
    Continue,
    /// Leave the program.
    Exit,
    /// Read the program file at the given path, and hand what came of it to
    /// [`UiHandler::machine_loaded`].
    Load(String),
}

/// The mathematical content of a [`UiAction`].
pub enum UiActionView {
    Continue,
    Exit,
    Load(Seq<char>),
}

impl View for UiAction {
    type V = UiActionView;

    open spec fn view(&self) -> UiActionView {
        match self {
            UiAction::Continue => UiActionView::Continue,
            UiAction::Exit => UiActionView::Exit,
            UiAction::Load(path) => UiActionView::Load(path@),
        }
    }
}

/// The menu, and the simulation that runs in front of it, if one does.
#[derive(Debug)]
pub struct UiHandler {
    simulation: Option<Simulation>,
    menu: Menu,
}

impl UiHandler {
    /// The simulation in front, as a mathematical object.
    pub closed spec fn simulation_view(&self) -> Option<SimulationView> {
        match self.simulation {
            Some(simulation) => Some(simulation@),
            None => None,
        }
    }

    /// The menu, as a mathematical object.
    pub closed spec fn menu_view(&self) -> MenuView {
        self.menu@
    }

    /// The menu and the simulation are well-formed.
    pub closed spec fn wf(&self) -> bool {
        &&& self.menu.wf()
        &&& self.simulation matches Some(simulation) ==> simulation.wf()
    }

    /// A front end that shows the menu with the given files on offer.
    pub fn new(found_files: Vec<String>) -> (handler: UiHandler)
        ensures
            handler.wf(),
            handler.simulation_view() is None,
            handler.menu_view() == MenuView::initial(texts_of(found_files@)),
    {
        UiHandler { simulation: None, menu: Menu::new(found_files) }
    }

    /// The simulation in front, if there is one.
    pub fn simulation(&self) -> (simulation: &Option<Simulation>)
        ensures
            match simulation {
                Some(simulation) => self.simulation_view() == Some(simulation@),
                None => self.simulation_view() is None,
            },
    {
        &self.simulation
    }

    /// The menu.
    pub fn menu(&self) -> (menu: &Menu)
        ensures
            menu@ == self.menu_view(),
    {
        &self.menu
    }

    /// Reacts to a key. With a simulation in front the key goes to the
    /// simulation, and leaving it brings the menu back. Else the key goes
    /// to the menu, and a machine that leaves the menu is put in front as
    /// a new simulation.
    pub fn handle_key(&mut self, key: Key) -> (action: UiAction)
        requires
            old(self).wf(),
        ensures
            final(self).wf(),
            match old(self).simulation_view() {
                Some(simulation) => {
                    &&& final(self).menu_view() == old(self).menu_view()
                    &&& action is Continue
                    &&& final(self).simulation_view() == match simulation.handled(key).1 {
                        SimulationHandleResult::Continue => Some(simulation.handled(key).0),
                        SimulationHandleResult::Exit => None,
                    }
                },
                None => {
                    &&& final(self).menu_view() == old(self).menu_view().handled(key).0
                    &&& match old(self).menu_view().handled(key).1 {
                        MenuHandleResultView::Continue => action is Continue,
                        MenuHandleResultView::Exit => action is Exit,
                        MenuHandleResultView::Load(path) => action@ == UiActionView::Load(path),
                        MenuHandleResultView::Machine(name, machine) => action is Continue,
                    }
                    &&& match old(self).menu_view().handled(key).1 {
                        MenuHandleResultView::Machine(name, machine) => started(
                            final(self).simulation_view(),
                            name,
                            machine,
                        ),
                        _ => final(self).simulation_view() is None,
                    }
                },
            },
    {
        let simulation = self.simulation.take();
        match simulation {
            Some(mut simulation) => {
                match simulation.handle_input(key) {
                    SimulationHandleResult::Continue => {
                        self.simulation = Some(simulation);
                    },
                    SimulationHandleResult::Exit => {},
                }
                UiAction::Continue
            },
            None => match self.menu.handle_input(key) {
                MenuHandleResult::Continue => UiAction::Continue,
                MenuHandleResult::Exit => UiAction::Exit,
                MenuHandleResult::Load(path) => UiAction::Load(path),
                MenuHandleResult::Machine(name, machine) => {
                    self.simulation = Some(Simulation::new(name, machine));
                    UiAction::Continue
                },
            },
        }
    }

    /// Takes what came of loading the file that the menu asked for.
    pub fn machine_loaded(&mut self, result: Result<RamMachine, String>)
        requires
            old(self).wf(),
            result matches Ok(machine) ==> machine.wf(),
        ensures
            final(self).wf(),
            final(self).simulation_view() == old(self).simulation_view(),
            final(self).menu_view() == old(self).menu_view().loaded(
                match result {
                    Ok(machine) => Ok(machine@),
                    Err(message) => Err(message@),
                },
            ),
    {
        self.menu.machine_loaded(result);
    }
}

/// A simulation of `machine` under `name` has just been put in front.
pub open spec fn started(
    simulation: Option<SimulationView>,
    name: Seq<char>,
    machine: MachineState,
) -> bool {
    match simulation {
        Some(simulation) => simulation.name == name && simulation.machine == machine
            && simulation.state is Running,
        None => false,
    }
}

} // verus!
