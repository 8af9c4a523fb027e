use fluent_fsm::builder::StateMachineBuilder;
use crate::DoorEvents::{CloseDoor, OpenDoor};
use crate::DoorStates::{Closed, Opened};

#[derive(Eq, PartialEq, Copy, Clone, Hash, Debug)]
enum DoorStates {
    Closed,
    Opened,
}

#[derive(Eq, PartialEq, Copy, Clone, Hash, Debug)]
enum DoorEvents {
    OpenDoor,
    CloseDoor,
}

struct DoorModel {
    door_open: bool,
}

#[test]
pub fn test_readme_example() {
    // Initial state: closed
    let builder = StateMachineBuilder::create(Closed, DoorModel { door_open: false })
        .on_enter_mut(|model: &mut DoorModel| {
            model.door_open = false;
        })
        .on(OpenDoor, || {
            println!("opening door");
        })
        .goto(Opened)
        .in_state(Opened)
        .on_enter_mut(|model: &mut DoorModel| {
            model.door_open = true;
        })
        .on(CloseDoor, || {
            println!("closing door");
        })
        .goto(Closed);

    let mut machine = builder.build_passive().unwrap();
    machine.start().unwrap();

    assert_eq!(machine.model().door_open, false);

    machine.fire(OpenDoor).unwrap();

    assert_eq!(machine.model().door_open, true);
}
