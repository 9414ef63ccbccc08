use game_of_life::{Action, Driver, Phase, FRAME_DELAY_MS, GENERATIONS};

#[test]
fn new_driver_waits_to_be_seeded() {
    let driver = Driver::new(3);
    assert_eq!(driver.phase, Phase::Initializing);
    assert_eq!(driver.remaining, 3);
    assert!(!driver.is_terminated());
}

#[test]
fn two_generations_step_by_step() {
    let mut driver = Driver::new(2);
    let mut actions = Vec::new();
    for _ in 0..10 {
        actions.push(driver.step());
    }
    assert_eq!(
        actions,
        vec![
            Action::Seed,
            Action::Render,
            Action::Advance,
            Action::Wait,
            Action::Render,
            Action::Advance,
            Action::Wait,
            Action::Render,
            Action::Stop,
            Action::Stop,
        ]
    );
    assert!(driver.is_terminated());
    assert_eq!(driver.remaining, 0);
}

#[test]
fn phases_follow_one_another() {
    let mut driver = Driver::new(1);
    let mut phases = vec![driver.phase];
    for _ in 0..6 {
        driver.step();
        phases.push(driver.phase);
    }
    assert_eq!(
        phases,
        vec![
            Phase::Initializing,
            Phase::Rendering,
            Phase::Advancing,
            Phase::Waiting,
            Phase::Rendering,
            Phase::Terminated,
            Phase::Terminated,
        ]
    );
}

#[test]
fn no_generations_show_one_frame() {
    let mut driver = Driver::new(0);
    assert_eq!(driver.step(), Action::Seed);
    assert_eq!(driver.step(), Action::Render);
    assert!(driver.is_terminated());
    assert_eq!(driver.step(), Action::Stop);
}

#[test]
fn reference_run_advances_five_hundred_times() {
    assert_eq!(GENERATIONS, 500);
    assert_eq!(FRAME_DELAY_MS, 25);
    let mut driver = Driver::new(GENERATIONS);
    let mut seeds = 0;
    let mut frames = 0;
    let mut advances = 0;
    let mut waits = 0;
    let mut steps = 0;
    while !driver.is_terminated() {
        match driver.step() {
            Action::Seed => seeds += 1,
            Action::Render => frames += 1,
            Action::Advance => advances += 1,
            Action::Wait => waits += 1,
            Action::Stop => panic!("stopped before the end"),
        }
        steps += 1;
    }
    assert_eq!(seeds, 1);
    assert_eq!(frames, 501);
    assert_eq!(advances, 500);
    assert_eq!(waits, 500);
    assert_eq!(steps, 1502);
}
