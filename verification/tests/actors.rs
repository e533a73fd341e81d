use bomberhuman::actors::block::Block;
use bomberhuman::actors::bomb::Bomb;
use bomberhuman::actors::fire::Fire;
use bomberhuman::actors::player::Player;
use bomberhuman::actors::power::Power;
use bomberhuman::actors::ActorId;
use bomberhuman::geometry::Point;
use bomberhuman::keyboard::KeyState;

#[test]
fn fire_lives_twenty_ticks() {
    let mut f = Fire::new(60, 120);
    assert_eq!(f.pnt, Point::new(60, 120));
    assert_eq!(f.ttl, 20);
    assert!(f.alive());
    for _ in 0..19 {
        f.update(16);
        assert!(f.alive());
    }
    f.update(16);
    assert!(!f.alive());
    assert_eq!(f.ttl, 0);
}

#[test]
fn fire_action_follows_decay() {
    let mut f = Fire::new(0, 0);
    f.update(16);
    assert_eq!(f.action, 0);
    for _ in 0..10 {
        f.update(16);
    }
    // Entered with ttl 10: action is (20 - 10) * 15 / 20.
    assert_eq!(f.action, 7);
}

#[test]
fn bomb_counts_down_by_elapsed_time() {
    let mut b = Bomb::new(3, 0, 0, 2);
    assert_eq!(b.ttl, 300);
    assert_eq!(b.owner_id, 3);
    assert_eq!(b.power, 2);
    let no_fire: Vec<Fire> = Vec::new();
    b.update(100, &no_fire);
    assert_eq!(b.ttl, 290);
    b.update(5, &no_fire);
    assert_eq!(b.ttl, 290);
    b.update(30_000, &no_fire);
    assert_eq!(b.ttl, 0);
    assert!(!b.alive());
}

#[test]
fn bomb_countdown_never_increases_and_never_goes_negative() {
    let mut b = Bomb::new(0, 0, 0, 2);
    let no_fire: Vec<Fire> = Vec::new();
    let mut last = b.ttl;
    for delta in [0, 16, 7, 1000, 3, 0, 4000, 16] {
        b.update(delta, &no_fire);
        assert!(b.ttl <= last);
        assert!(b.ttl >= 0);
        last = b.ttl;
    }
}

#[test]
fn bomb_chains_quickly_under_fire() {
    let mut b = Bomb::new(0, 120, 60, 2);
    let fires = vec![Fire::new(120, 60)];
    b.update(10, &fires);
    assert_eq!(b.ttl, 5);
    // Fire elsewhere does not cap the countdown.
    let mut b2 = Bomb::new(0, 120, 60, 2);
    let far = vec![Fire::new(180, 60)];
    b2.update(10, &far);
    assert_eq!(b2.ttl, 299);
}

#[test]
fn hard_block_is_immortal() {
    let mut b = Block::new(60, 60);
    assert!(!b.is_soft());
    assert!(b.alive());
    let fires = vec![Fire::new(60, 60)];
    for _ in 0..100 {
        b.update(16, &fires);
    }
    assert!(b.alive());
    assert_eq!(b.ttl, 30);
}

#[test]
fn soft_block_burns_once_lit() {
    let mut b = Block::soft(60, 60);
    assert!(b.is_soft());
    let no_fire: Vec<Fire> = Vec::new();
    b.update(16, &no_fire);
    assert_eq!(b.ttl, 28);
    let fires = vec![Fire::new(60, 60)];
    b.update(16, &fires);
    assert_eq!(b.ttl, 27);
    // Burning continues without fire.
    b.update(16, &no_fire);
    assert_eq!(b.ttl, 26);
    assert_eq!(b.action, 15 - 26 / 2);
    for _ in 0..26 {
        b.update(16, &no_fire);
    }
    assert!(!b.alive());
}

#[test]
fn power_is_picked_up_by_player_on_its_cell() {
    let mut pw = Power::new(120, 120, ActorId::SpeedUp);
    let mut players = vec![Player::new(0, 120, 120)];
    let no_fire: Vec<Fire> = Vec::new();
    let no_blocks: Vec<Block> = Vec::new();
    assert_eq!(players[0].speed, 1);
    pw.update(16, &mut players, &no_fire, &no_blocks);
    assert_eq!(players[0].speed, 2);
    assert!(!pw.alive());
}

#[test]
fn power_ignores_players_elsewhere() {
    let mut pw = Power::new(120, 120, ActorId::BombUp);
    let mut players = vec![Player::new(0, 240, 120)];
    let no_fire: Vec<Fire> = Vec::new();
    let no_blocks: Vec<Block> = Vec::new();
    pw.update(16, &mut players, &no_fire, &no_blocks);
    assert_eq!(players[0].max_num_bombs, 1);
    assert!(pw.alive());
}

#[test]
fn power_destroyed_by_uncovered_blast() {
    let mut pw = Power::new(120, 120, ActorId::BombUp);
    let mut players: Vec<Player> = Vec::new();
    let fires = vec![Fire::new(120, 120)];
    let no_blocks: Vec<Block> = Vec::new();
    pw.update(16, &mut players, &fires, &no_blocks);
    assert!(!pw.alive());
}

#[test]
fn power_survives_blast_under_a_block() {
    let mut pw = Power::new(120, 120, ActorId::BombUp);
    let mut players: Vec<Player> = Vec::new();
    let fires = vec![Fire::new(120, 120)];
    let blocks = vec![Block::soft(120, 120)];
    pw.update(16, &mut players, &fires, &blocks);
    assert!(pw.alive());
}

#[test]
fn random_item_is_one_of_the_three_stats() {
    for _ in 0..32 {
        let pw = Power::random_item(60, 60);
        assert_eq!(pw.pnt, Point::new(60, 60));
        assert!(matches!(
            pw.actor_id,
            ActorId::BombUp | ActorId::BombPowerUp | ActorId::SpeedUp
        ));
    }
}

#[test]
fn push_item_bumps_matching_stat_with_caps() {
    let mut p = Player::new(0, 0, 0);
    assert_eq!((p.max_num_bombs, p.bomb_power, p.speed), (1, 2, 1));
    p.push_item(ActorId::BombUp);
    assert_eq!(p.max_num_bombs, 2);
    p.push_item(ActorId::BombPowerUp);
    assert_eq!(p.bomb_power, 3);
    for _ in 0..40 {
        p.push_item(ActorId::BombUp);
        p.push_item(ActorId::BombPowerUp);
        p.push_item(ActorId::SpeedUp);
    }
    assert_eq!(p.max_num_bombs, 8);
    assert_eq!(p.bomb_power, 8);
    assert_eq!(p.speed, 30);
    // A non-item id changes nothing.
    p.push_item(ActorId::Fire);
    assert_eq!((p.max_num_bombs, p.bomb_power, p.speed), (8, 8, 30));
}

#[test]
fn player_moves_right_when_unobstructed() {
    let mut p = Player::new(0, 0, 0);
    let blocks: Vec<Block> = Vec::new();
    let mut bombs: Vec<Bomb> = Vec::new();
    let fires: Vec<Fire> = Vec::new();
    let mut ks = KeyState::new();
    ks.right = true;
    p.update(60, &blocks, &mut bombs, &fires, &ks);
    assert_eq!(p.pnt, Point::new(10, 0));
}

#[test]
fn player_blocked_by_wall() {
    let mut p = Player::new(0, 0, 0);
    p.pnt = Point::new(55, 0);
    let blocks = vec![Block::hard(120, 0)];
    let mut bombs: Vec<Bomb> = Vec::new();
    let fires: Vec<Fire> = Vec::new();
    let mut ks = KeyState::new();
    ks.right = true;
    // The first step steers onto the corridor center; the next step
    // into the block is vetoed.
    p.update(60, &blocks, &mut bombs, &fires, &ks);
    assert_eq!(p.pnt, Point::new(60, 0));
    p.update(60, &blocks, &mut bombs, &fires, &ks);
    assert_eq!(p.pnt, Point::new(60, 0));
}

#[test]
fn player_walks_off_own_bomb_but_not_onto_another() {
    let blocks: Vec<Block> = Vec::new();
    let fires: Vec<Fire> = Vec::new();
    let mut ks = KeyState::new();
    ks.right = true;

    // Standing on a bomb: moving away is allowed.
    let mut p = Player::new(0, 0, 0);
    let mut bombs = vec![Bomb::new(0, 0, 0, 2)];
    p.update(60, &blocks, &mut bombs, &fires, &ks);
    assert_eq!(p.pnt, Point::new(10, 0));

    // Approaching a bomb not under the player: the move is vetoed.
    let mut q = Player::new(0, 0, 0);
    q.pnt = Point::new(55, 0);
    let mut other = vec![Bomb::new(1, 120, 0, 2)];
    q.update(60, &blocks, &mut other, &fires, &ks);
    assert_eq!(q.pnt, Point::new(60, 0));
    q.update(60, &blocks, &mut other, &fires, &ks);
    assert_eq!(q.pnt, Point::new(60, 0));
}

#[test]
fn player_places_bomb_on_its_cell() {
    let mut p = Player::new(7, 120, 60);
    let blocks: Vec<Block> = Vec::new();
    let mut bombs: Vec<Bomb> = Vec::new();
    let fires: Vec<Fire> = Vec::new();
    let mut ks = KeyState::new();
    ks.button1 = true;
    p.update(16, &blocks, &mut bombs, &fires, &ks);
    assert_eq!(bombs.len(), 1);
    assert_eq!(bombs[0].owner_id, 7);
    assert_eq!(bombs[0].pnt, Point::new(120, 60));
    assert_eq!(bombs[0].power, 2);
    // Still holding the button: capacity 1 is reached, no second bomb.
    p.update(16, &blocks, &mut bombs, &fires, &ks);
    assert_eq!(bombs.len(), 1);
}

#[test]
fn player_does_not_stack_bombs_on_one_cell() {
    let mut p = Player::new(0, 120, 60);
    p.max_num_bombs = 3;
    let blocks: Vec<Block> = Vec::new();
    let mut bombs = vec![Bomb::new(9, 120, 60, 1)];
    let fires: Vec<Fire> = Vec::new();
    let mut ks = KeyState::new();
    ks.button1 = true;
    p.update(16, &blocks, &mut bombs, &fires, &ks);
    assert_eq!(bombs.len(), 1);
}

#[test]
fn player_dies_on_fire_and_heals_one_per_tick() {
    let mut p = Player::new(0, 0, 0);
    let blocks: Vec<Block> = Vec::new();
    let mut bombs: Vec<Bomb> = Vec::new();
    let fires = vec![Fire::new(0, 0)];
    let ks = KeyState::new();
    p.update(16, &blocks, &mut bombs, &fires, &ks);
    assert!(!p.alive());
    assert_eq!(p.ttl, -480);
    let no_fire: Vec<Fire> = Vec::new();
    for _ in 0..481 {
        assert!(!p.alive());
        p.update(16, &blocks, &mut bombs, &no_fire, &ks);
    }
    assert!(p.alive());
    assert_eq!(p.ttl, 1);
}
