use evolution::config::WorldProps;
use evolution::control::{Command, Controls, INITIAL_TICK_RATE};
use evolution::genome::{Gene, Genome};
use evolution::geometry::{Heading, Location};
use evolution::neural_net::NeuralNetHelper;
use evolution::selection::CellContent;
use evolution::world::World;

fn small_world(helper: &NeuralNetHelper) -> World<'_> {
    let props = WorldProps {
        size: 6,
        neural_net_helper: helper,
        num_initial_lifeforms: 0,
        genome_size: 1,
        mutation_rate: 0,
        food_density: 0,
        water_density: 0,
        num_inner_neurons: 0,
        minimum_number_lifeforms: 0,
        danger_delay: 100,
        max_lifespan: 100,
    };
    let mut world = World::empty(props, 1).unwrap();
    for i in 0..3 {
        let genome = Genome { genes: vec![Gene { from: 110, to: 300, weight: 0 }] };
        world.insert_lifeform(Location { x: i, y: 0 }, Heading::North, genome);
    }
    world
}

#[test]
fn controls_start_running() {
    let c = Controls::new();
    assert_eq!(INITIAL_TICK_RATE, 250);
    assert_eq!(
        c,
        Controls {
            tick_rate: 250,
            paused: false,
            resume_rate: 0,
            selected: None,
            should_draw: true,
            running: true
        }
    );
}

#[test]
fn pause_and_resume() {
    let helper = NeuralNetHelper::new(0);
    let world = small_world(&helper);
    let mut c = Controls::new();
    c.handle(Command::TogglePause, &world);
    assert_eq!((c.paused, c.tick_rate, c.resume_rate), (true, u64::MAX, 250));
    assert!(!c.tick_due(1_000_000));
    c.handle(Command::TogglePause, &world);
    assert_eq!((c.paused, c.tick_rate), (false, 250));
    assert!(c.running && c.should_draw);
}

#[test]
fn cadence_changes() {
    let helper = NeuralNetHelper::new(0);
    let world = small_world(&helper);
    let mut c = Controls::new();
    c.handle(Command::Faster, &world);
    assert_eq!(c.tick_rate, 83);
    c.handle(Command::Slower, &world);
    assert_eq!(c.tick_rate, 167);
    c.tick_rate = 2;
    c.handle(Command::Faster, &world);
    assert_eq!(c.tick_rate, 0);
    c.handle(Command::Slower, &world);
    assert_eq!(c.tick_rate, 1);
    c.tick_rate = (u64::MAX - 1) / 2;
    c.handle(Command::Slower, &world);
    assert_eq!(c.tick_rate, u64::MAX);
    c.tick_rate = u64::MAX / 2 + 1;
    c.handle(Command::Slower, &world);
    assert_eq!(c.tick_rate, u64::MAX);
    c.handle(Command::Slower, &world);
    assert_eq!(c.tick_rate, u64::MAX);
}

#[test]
fn quit_and_draw() {
    let helper = NeuralNetHelper::new(0);
    let world = small_world(&helper);
    let mut c = Controls::new();
    c.handle(Command::ToggleDraw, &world);
    assert!(!c.should_draw && c.running);
    c.handle(Command::ToggleDraw, &world);
    assert!(c.should_draw);
    c.handle(Command::Quit, &world);
    assert!(!c.running);
    assert_eq!(c.tick_rate, 250);
}

#[test]
fn selection_by_command() {
    let helper = NeuralNetHelper::new(0);
    let world = small_world(&helper);
    let mut c = Controls::new();
    c.handle(Command::SelectNext, &world);
    assert_eq!(c.selected, Some(0));
    c.handle(Command::SelectNext, &world);
    c.handle(Command::SelectNext, &world);
    assert_eq!(c.selected, Some(2));
    c.handle(Command::SelectNext, &world);
    assert_eq!(c.selected, None);
    c.handle(Command::SelectPrevious, &world);
    assert_eq!(c.selected, Some(2));
    c.handle(Command::SelectPrevious, &world);
    c.handle(Command::SelectPrevious, &world);
    assert_eq!(c.selected, Some(0));
    c.handle(Command::SelectPrevious, &world);
    assert_eq!(c.selected, None);
    c.selected = Some(99);
    c.handle(Command::SelectNext, &world);
    assert_eq!(c.selected, None);
}

#[test]
fn waiting_for_the_next_tick() {
    let c = Controls::new();
    assert_eq!(c.wait(0), 250);
    assert_eq!(c.wait(100), 150);
    assert_eq!(c.wait(250), 0);
    assert_eq!(c.wait(900), 0);
    assert!(!c.tick_due(249));
    assert!(c.tick_due(250));
    assert!(c.tick_due(251));
}

#[test]
fn what_a_cell_shows() {
    let helper = NeuralNetHelper::new(0);
    let mut world = small_world(&helper);
    let at = |x, y| Location { x, y };
    world.add_food(at(1, 0));
    world.add_danger(at(1, 0));
    world.add_food(at(3, 3));
    world.add_water(at(3, 3));
    world.add_danger(at(4, 4));
    world.add_food(at(4, 4));
    world.add_water(at(5, 5));
    assert_eq!(world.content_at(at(1, 0)), CellContent::Lifeform(1));
    assert_eq!(world.content_at(at(3, 3)), CellContent::Food);
    assert_eq!(world.content_at(at(4, 4)), CellContent::Danger);
    assert_eq!(world.content_at(at(5, 5)), CellContent::Water);
    assert_eq!(world.content_at(at(0, 5)), CellContent::Empty);
    assert_eq!(world.content_at(at(9, 9)), CellContent::Empty);
}
