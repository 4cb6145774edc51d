use life_world::cell::{AliveCell, Cell};
use life_world::config::{
    period_micros, Config, TickTrigger, CONFIG_ID, DEFAULT_TICK_INTERVAL_MS, TICK_TRIGGER_ID,
};
use life_world::grid::Grid;
use life_world::players::{Identity, Player, PlayerDirectory, WorldError, DEFAULT_COLOR};
use life_world::world::World;

fn identity(n: u128) -> Identity {
    Identity { high: 0, low: n }
}

fn players_of(world: &World) -> Vec<Player> {
    let directory = world.players();
    (0..directory.len()).map(|i| directory.get(i).unwrap().clone()).collect()
}

#[test]
fn period_is_the_interval_in_microseconds() {
    assert_eq!(period_micros(500), 500_000);
    assert_eq!(period_micros(0), 0);
    assert_eq!(period_micros(1), 1_000);
    assert_eq!(period_micros(u32::MAX), 4_294_967_295_000);
}

#[test]
fn initial_config_and_trigger() {
    assert_eq!((DEFAULT_TICK_INTERVAL_MS, CONFIG_ID, TICK_TRIGGER_ID), (500, 0, 0));
    let config = Config::initial();
    assert_eq!(config, Config { id: 0, tick_interval_ms: 500 });
    assert_eq!(config.trigger(), TickTrigger { scheduled_id: 0, period_micros: 500_000 });
    assert_eq!(Config::with_interval(20), Config { id: 0, tick_interval_ms: 20 });
}

#[test]
fn fresh_world() {
    let world = World::init();
    assert_eq!(world.config(), Config { id: 0, tick_interval_ms: 500 });
    assert_eq!(world.trigger(), TickTrigger { scheduled_id: 0, period_micros: 500_000 });
    assert_eq!(world.players().len(), 0);
    assert_eq!(world.grid().all(), vec![]);
}

#[test]
fn first_connection_creates_a_white_player() {
    let mut world = World::init();
    assert_eq!(world.identity_connected(identity(10)), Ok(()));
    assert_eq!(world.identity_connected(identity(11)), Ok(()));
    assert_eq!(DEFAULT_COLOR, "#FFFFFF");
    assert_eq!(
        players_of(&world),
        vec![
            Player { id: 1, identity: identity(10), color_hex: "#FFFFFF".to_string() },
            Player { id: 2, identity: identity(11), color_hex: "#FFFFFF".to_string() },
        ]
    );
}

#[test]
fn reconnecting_and_disconnecting_change_nothing() {
    let mut world = World::init();
    world.identity_connected(identity(10)).unwrap();
    world.set_color(identity(10), "#123456".to_string()).unwrap();
    let before = players_of(&world);
    assert_eq!(world.identity_connected(identity(10)), Ok(()));
    assert_eq!(players_of(&world), before);
    world.identity_disconnected(identity(10));
    assert_eq!(players_of(&world), before);
    // A player that left can still add cells when it comes back.
    assert_eq!(world.add(identity(10), vec![Cell { x: 0, y: 0 }]), Ok(()));
}

#[test]
fn identities_differ_in_either_half() {
    let mut world = World::init();
    world.identity_connected(Identity { high: 1, low: 0 }).unwrap();
    world.identity_connected(Identity { high: 0, low: 1 }).unwrap();
    assert_eq!(world.players().len(), 2);
    assert_eq!(world.players().resolve(Identity { high: 0, low: 1 }), Ok(2));
    assert_eq!(
        world.players().resolve(Identity { high: 1, low: 1 }),
        Err(WorldError::UnknownIdentity)
    );
}

#[test]
fn set_color_changes_only_the_callers_player() {
    let mut world = World::init();
    for n in 1..=3 {
        world.identity_connected(identity(n)).unwrap();
    }
    world.add(identity(2), vec![Cell { x: 4, y: 4 }]).unwrap();
    let before = players_of(&world);
    let grid_before = world.grid().all();
    assert_eq!(world.set_color(identity(1), "#00FF00".to_string()), Ok(()));
    let after = players_of(&world);
    assert_eq!(
        after[0],
        Player { id: 1, identity: identity(1), color_hex: "#00FF00".to_string() }
    );
    assert_eq!(after[1..], before[1..]);
    assert_eq!(world.grid().all(), grid_before);
    assert_eq!(world.config(), Config::initial());
}

#[test]
fn set_color_by_an_unknown_identity_is_refused() {
    let mut world = World::init();
    world.identity_connected(identity(1)).unwrap();
    let before = players_of(&world);
    assert_eq!(
        world.set_color(identity(2), "#00FF00".to_string()),
        Err(WorldError::UnknownIdentity)
    );
    assert_eq!(players_of(&world), before);
}

#[test]
fn add_marks_cells_under_the_callers_id() {
    let mut world = World::init();
    world.identity_connected(identity(1)).unwrap();
    world.identity_connected(identity(2)).unwrap();
    world.add(identity(2), vec![Cell { x: 1, y: 2 }, Cell { x: -300, y: 9000 }]).unwrap();
    world.add(identity(1), vec![Cell { x: 0, y: 0 }]).unwrap();
    assert_eq!(
        world.grid().all(),
        vec![
            AliveCell { x: -300, y: 9000, player_id: 2 },
            AliveCell { x: 0, y: 0, player_id: 1 },
            AliveCell { x: 1, y: 2, player_id: 2 },
        ]
    );
}

#[test]
fn add_on_an_alive_cell_changes_its_owner() {
    let mut world = World::init();
    world.identity_connected(identity(1)).unwrap();
    world.identity_connected(identity(2)).unwrap();
    world.add(identity(1), vec![Cell { x: 0, y: 0 }]).unwrap();
    world.add(identity(2), vec![Cell { x: 0, y: 0 }, Cell { x: 0, y: 0 }]).unwrap();
    assert_eq!(world.grid().all(), vec![AliveCell { x: 0, y: 0, player_id: 2 }]);
}

#[test]
fn add_by_an_unknown_identity_is_refused_and_changes_nothing() {
    let mut world = World::init();
    world.identity_connected(identity(1)).unwrap();
    world.add(identity(1), vec![Cell { x: 0, y: 0 }]).unwrap();
    let before = world.grid().all();
    assert_eq!(
        world.add(identity(99), vec![Cell { x: 5, y: 5 }, Cell { x: 0, y: 0 }]),
        Err(WorldError::UnknownIdentity)
    );
    assert_eq!(world.grid().all(), before);
    assert_eq!(world.players().len(), 1);
}

#[test]
fn out_of_range_add_is_accepted_and_culled_by_the_next_tick() {
    let mut world = World::init();
    world.identity_connected(identity(1)).unwrap();
    world
        .add(identity(1), vec![Cell { x: 1000, y: 1000 }, Cell { x: 1001, y: 1000 }, Cell {
            x: 1000,
            y: 1001,
        }, Cell { x: 1001, y: 1001 }])
        .unwrap();
    assert_eq!(world.grid().all().len(), 4);
    assert_eq!(world.tick(), Ok(()));
    assert_eq!(world.grid().all(), vec![]);
}

#[test]
fn update_tick_interval_changes_config_and_trigger_together() {
    let mut world = World::init();
    world.identity_connected(identity(1)).unwrap();
    world.add(identity(1), vec![Cell { x: 0, y: 0 }]).unwrap();
    world.update_tick_interval(20);
    assert_eq!(world.config(), Config { id: 0, tick_interval_ms: 20 });
    assert_eq!(world.trigger(), TickTrigger { scheduled_id: 0, period_micros: 20_000 });
    assert_eq!(world.config().trigger(), world.trigger());
    world.update_tick_interval(u32::MAX);
    assert_eq!(world.trigger().period_micros, 4_294_967_295_000);
    assert_eq!(world.players().len(), 1);
    assert_eq!(world.grid().all().len(), 1);
}

#[test]
fn world_tick_advances_the_grid_and_nothing_else() {
    let mut world = World::init();
    world.identity_connected(identity(1)).unwrap();
    world
        .add(identity(1), vec![Cell { x: 0, y: 0 }, Cell { x: 1, y: 0 }, Cell { x: 2, y: 0 }])
        .unwrap();
    let players = players_of(&world);
    assert_eq!(world.tick(), Ok(()));
    assert_eq!(
        world.grid().all(),
        vec![
            AliveCell { x: 1, y: -1, player_id: 1 },
            AliveCell { x: 1, y: 0, player_id: 1 },
            AliveCell { x: 1, y: 1, player_id: 1 },
        ]
    );
    assert_eq!(players_of(&world), players);
    assert_eq!(world.config(), Config::initial());
    assert_eq!(World::init().tick(), Ok(()));
}

#[test]
fn directory_lookup() {
    let mut directory = PlayerDirectory::new();
    assert_eq!(directory.find(identity(1)), None);
    assert_eq!(directory.connect(identity(1)), Ok(1));
    assert_eq!(directory.connect(identity(2)), Ok(2));
    assert_eq!(directory.connect(identity(1)), Ok(1));
    assert_eq!(directory.find(identity(2)), Some(1));
    assert_eq!(directory.resolve(identity(2)), Ok(2));
    assert_eq!(directory.resolve(identity(3)), Err(WorldError::UnknownIdentity));
    assert_eq!(directory.get(2), None);
    assert_eq!(directory.len(), 2);
}

#[test]
fn ids_continue_after_the_largest_restored_id() {
    let rows = vec![
        Player { id: 7, identity: identity(70), color_hex: "#000000".to_string() },
        Player { id: 3, identity: identity(30), color_hex: "#111111".to_string() },
    ];
    let mut directory = PlayerDirectory::from_players(rows.clone());
    assert_eq!(directory.get(0), Some(&rows[0]));
    assert_eq!(directory.connect(identity(30)), Ok(3));
    assert_eq!(directory.connect(identity(1)), Ok(8));
}

#[test]
fn connection_is_refused_when_ids_are_exhausted() {
    let rows =
        vec![Player { id: u32::MAX, identity: identity(1), color_hex: "#FFFFFF".to_string() }];
    let mut world = World::restore(250, PlayerDirectory::from_players(rows.clone()), Grid::new());
    assert_eq!(world.config(), Config { id: 0, tick_interval_ms: 250 });
    assert_eq!(world.trigger().period_micros, 250_000);
    assert_eq!(world.identity_connected(identity(2)), Err(WorldError::IdsExhausted));
    assert_eq!(players_of(&world), rows);
    // The known identity can still connect.
    assert_eq!(world.identity_connected(identity(1)), Ok(()));
}

#[test]
fn errors_say_what_went_wrong() {
    assert_eq!(WorldError::UnknownIdentity.message(), "the caller has no player");
    assert_eq!(WorldError::IdsExhausted.message(), "no player id is left");
}
