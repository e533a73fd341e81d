use bomberhuman::actors::block::Block;
use bomberhuman::actors::bomb::Bomb;
use bomberhuman::actors::fire::Fire;
use bomberhuman::actors::player::Player;
use bomberhuman::actors::power::Power;
use bomberhuman::actors::ActorId;
use bomberhuman::geometry::Point;
use bomberhuman::keyboard::Key;
use bomberhuman::stage::Stage;
use bomberhuman::game_state::GameState;

/// A game state with an empty arena: no blocks, players, powers,
/// bombs or fires.
fn empty_arena() -> GameState {
    let mut gs = GameState::new(900, 780);
    gs.blocks_mut().clear();
    gs.players_mut().clear();
    gs.powers_mut().clear();
    gs
}

#[test]
fn new_game_has_four_players_and_the_walls() {
    let gs = GameState::new(900, 780);
    assert_eq!(gs.width, 900);
    assert_eq!(gs.height, 780);
    assert_eq!(gs.players().len(), 4);
    let mut ids: Vec<u32> = gs.players().iter().map(|p| p.id).collect();
    ids.sort();
    assert_eq!(ids, vec![0, 1, 2, 3]);
    assert!(gs.bombs().is_empty());
    assert!(gs.fires().is_empty());
    // The fixed template: 52 perimeter cells plus 30 checkerboard
    // cells are hard blocks, whatever the random decoration drew.
    let hard = gs.blocks().iter().filter(|b| !b.is_soft()).count();
    assert_eq!(hard, 82);
    // Every power-up hides under a soft block.
    for pw in gs.powers().iter() {
        assert!(gs
            .blocks()
            .iter()
            .any(|b| b.is_soft() && b.pnt == pw.pnt));
    }
}

#[test]
fn stage_spawns_players_at_the_corners() {
    let stage = Stage::new();
    assert_eq!(stage.width, 15);
    assert_eq!(stage.height, 13);
    let ps = &stage.players;
    assert_eq!(ps.len(), 4);
    assert_eq!((ps[0].id, ps[0].pnt), (1, Point::new(60, 60)));
    assert_eq!((ps[1].id, ps[1].pnt), (2, Point::new(780, 60)));
    assert_eq!((ps[2].id, ps[2].pnt), (3, Point::new(60, 660)));
    assert_eq!((ps[3].id, ps[3].pnt), (0, Point::new(780, 660)));
}

#[test]
fn toggle_key_takes_effect_on_the_next_tick() {
    let mut gs = GameState::new(900, 780);
    gs.blocks_mut().clear();
    gs.powers_mut().clear();
    // Player id 1 spawns at (60, 60) and reads key slot 1.
    gs.toggle_key(1, Key::Right, true);
    gs.update(60);
    assert_eq!(gs.players()[0].pnt, Point::new(70, 60));
    gs.toggle_key(1, Key::Right, false);
    gs.update(60);
    assert_eq!(gs.players()[0].pnt, Point::new(70, 60));
}

#[test]
fn bomb_explodes_into_nine_fires_in_the_open() {
    // A bomb with power 2 at the grid origin, nothing nearby: the
    // tick after expiry there are exactly 1 + 4*2 = 9 fires.
    let mut gs = empty_arena();
    gs.bombs_mut().push(Bomb::new(0, 0, 0, 2));
    gs.update(3010);
    assert!(gs.bombs().is_empty());
    assert_eq!(gs.fires().len(), 9);
    let cells: Vec<Point> = gs.fires().iter().map(|f| f.pnt).collect();
    for expected in [
        Point::new(0, 0),
        Point::new(0, -60),
        Point::new(0, -120),
        Point::new(0, 60),
        Point::new(0, 120),
        Point::new(-60, 0),
        Point::new(-120, 0),
        Point::new(60, 0),
        Point::new(120, 0),
    ] {
        assert!(cells.contains(&expected));
    }
}

#[test]
fn hard_block_east_cuts_the_blast_to_seven_fires() {
    // Same bomb, but a hard block one cell east: the east ray is
    // blocked at distance 1 and contributes nothing.
    let mut gs = empty_arena();
    gs.blocks_mut().push(Block::hard(60, 0));
    gs.bombs_mut().push(Bomb::new(0, 0, 0, 2));
    gs.update(3010);
    assert_eq!(gs.fires().len(), 7);
    let cells: Vec<Point> = gs.fires().iter().map(|f| f.pnt).collect();
    assert!(!cells.contains(&Point::new(60, 0)));
    assert!(!cells.contains(&Point::new(120, 0)));
}

#[test]
fn soft_block_east_takes_one_fire_and_shields_beyond() {
    let mut gs = empty_arena();
    gs.blocks_mut().push(Block::soft(60, 0));
    gs.bombs_mut().push(Bomb::new(0, 0, 0, 2));
    gs.update(3010);
    // Origin, two cells in each free direction, and the soft block's
    // own cell: 1 + 2 + 2 + 2 + 1 = 8.
    assert_eq!(gs.fires().len(), 8);
    let cells: Vec<Point> = gs.fires().iter().map(|f| f.pnt).collect();
    assert!(cells.contains(&Point::new(60, 0)));
    assert!(!cells.contains(&Point::new(120, 0)));
}

#[test]
fn power_pickup_bumps_the_stat_and_cleanup_removes_the_item() {
    let mut gs = empty_arena();
    gs.players_mut().push(Player::new(0, 120, 120));
    gs.powers_mut().push(Power::new(120, 120, ActorId::SpeedUp));
    assert_eq!(gs.players()[0].speed, 1);
    gs.update(16);
    assert_eq!(gs.players()[0].speed, 2);
    assert!(gs.powers().is_empty());
}

#[test]
fn fire_kills_the_player_the_same_tick_and_respawn_takes_481_ticks() {
    let mut gs = empty_arena();
    gs.players_mut().push(Player::new(0, 0, 0));
    gs.fires_mut().push(Fire::new(0, 0));
    gs.update(16);
    assert!(gs.players()[0].ttl <= 0);
    for _ in 0..480 {
        assert!(gs.players()[0].ttl <= 0);
        gs.update(16);
    }
    // One increment per tick: the countdown is back at zero now, and
    // the next tick brings it above zero.
    assert_eq!(gs.players()[0].ttl, 0);
    gs.update(16);
    assert_eq!(gs.players()[0].ttl, 1);
}

#[test]
fn draw_is_idempotent_without_update() {
    let mut gs = GameState::new(900, 780);
    let first = gs.draw();
    let second = gs.draw();
    assert_eq!(first, second);
    assert_eq!(
        first.len(),
        gs.powers().len() + gs.players().len() + gs.bombs().len() + gs.blocks().len()
            + gs.fires().len()
    );
    // After a tick the frame may change; drawing twice again agrees.
    gs.update(16);
    let third = gs.draw();
    assert_eq!(third, gs.draw());
}

#[test]
fn draw_layers_powerups_before_players_before_terrain() {
    let mut gs = empty_arena();
    gs.players_mut().push(Player::new(0, 120, 60));
    gs.powers_mut().push(Power::new(180, 60, ActorId::BombUp));
    gs.blocks_mut().push(Block::hard(240, 60));
    let frame = gs.draw();
    assert_eq!(frame.len(), 3);
    assert_eq!(frame[0].actor_id, ActorId::BombUp);
    assert_eq!(frame[1].actor_id, ActorId::Player1);
    assert_eq!(frame[2].actor_id, ActorId::Block);
    // The player's action code is reported in whole frames.
    assert_eq!(frame[1].action, 1);
}

#[test]
fn update_with_zero_elapsed_time_changes_no_bomb() {
    let mut gs = empty_arena();
    gs.bombs_mut().push(Bomb::new(0, 60, 60, 1));
    gs.update(0);
    assert_eq!(gs.bombs().len(), 1);
    assert_eq!(gs.bombs()[0].ttl, 300);
}

#[test]
fn chained_bombs_detonate_in_quick_succession() {
    let mut gs = empty_arena();
    gs.bombs_mut().push(Bomb::new(0, 0, 0, 2));
    gs.update(1500);
    gs.bombs_mut().push(Bomb::new(0, 120, 0, 1));
    // Expire the first bomb; its blast reaches the second.
    gs.update(1510);
    assert_eq!(gs.bombs().len(), 1);
    // The fire on its cell caps the survivor to the chain countdown,
    // and within a few short ticks it goes off too.
    gs.update(10);
    assert!(gs.bombs()[0].ttl <= 5);
    for _ in 0..5 {
        gs.update(10);
    }
    assert!(gs.bombs().is_empty());
}

#[test]
fn default_stage_is_a_fresh_stage() {
    let stage = Stage::default();
    assert_eq!((stage.width, stage.height), (15, 13));
    assert_eq!(stage.players.len(), 4);
}

#[test]
fn key_state_starts_released() {
    let ks = bomberhuman::keyboard::KeyState::default();
    assert!(!ks.button1 && !ks.left && !ks.right && !ks.up && !ks.down);
    let fresh = bomberhuman::keyboard::KeyState::new();
    assert_eq!(ks, fresh);
}

#[test]
fn cleanup_reaps_expired_fires() {
    let mut gs = empty_arena();
    gs.fires_mut().push(Fire::new(0, 0));
    for _ in 0..19 {
        gs.update(16);
    }
    assert_eq!(gs.fires().len(), 1);
    gs.update(16);
    assert!(gs.fires().is_empty());
}
