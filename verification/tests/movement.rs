use heroquest::engine::{Game, CELL_COUNT};
use heroquest::equipment::Armor;
use heroquest::game::{
    Cell, DisarmPlan, Door, GamePhase, Inventory, JumpPlan, PendingTeleportRoll, PendingTrapRoll,
    RuleError, Trap, Unit, UnitId,
};
use heroquest::model::{
    CombatFace, Direction, Faction, FigureKind, HeroKind, MonsterKind, Pos, Stats, TrapKind,
};
use heroquest::quest::ObjectiveDef;

fn open_board() -> Vec<Cell> {
    vec![
        Cell {
            passable: true,
            region: 1,
            revealed: true,
        };
        CELL_COUNT
    ]
}

fn figure(id: UnitId, name: &str, figure: FigureKind, faction: Faction, pos: Pos, stats: Stats) -> Unit {
    let inventory = match figure {
        FigureKind::Hero(kind) => Inventory::for_hero(kind),
        FigureKind::Monster(_) => Inventory::default(),
    };
    Unit {
        id,
        name: name.to_owned(),
        figure,
        physical_figure: Some(figure),
        faction,
        model_variant: None,
        pos,
        stats,
        body: stats.body as i16,
        alive: true,
        in_pit: false,
        inventory,
        carried_quest_item: None,
        dormant: false,
        invulnerable_until_acts: false,
        equipment_available: true,
        spellcasting_available: true,
        escaped: false,
        chaos_spells: Vec::new(),
        discarded_chaos_spells: Vec::new(),
        hero_spells: Vec::new(),
        discarded_hero_spells: Vec::new(),
        spell_ring_spell: None,
        spell_ring_casts_left: 0,
        escape_target: None,
        immune_to_fire_spells: false,
        fearful: false,
        sleeping: false,
        clouded: false,
        hero_sleep_caster: None,
        skip_turns: 0,
        petrified_turns: 0,
        diagonal_attack: false,
        hidden_until_activated: false,
        immune_except_spirit_blade: false,
        champion: false,
        commanded: false,
        swift_wind: false,
        courage: false,
        rock_skin: false,
        pass_through_rock: false,
        veil_of_mist: false,
        potion_defense_bonus: 0,
    }
}

fn hero(id: UnitId, kind: HeroKind, pos: Pos) -> Unit {
    let (name, attack, defend, body, mind) = match kind {
        HeroKind::Barbarian => ("Barbarian", 3, 2, 8, 2),
        HeroKind::Dwarf => ("Dwarf", 2, 2, 7, 3),
        HeroKind::Elf => ("Elf", 2, 2, 6, 4),
        HeroKind::Wizard => ("Wizard", 1, 2, 4, 6),
    };
    figure(
        id,
        name,
        FigureKind::Hero(kind),
        Faction::Hero,
        pos,
        Stats {
            movement: 2,
            attack,
            defend,
            body,
            mind,
        },
    )
}

fn monster(id: UnitId, kind: MonsterKind, name: &str, pos: Pos) -> Unit {
    figure(
        id,
        name,
        FigureKind::Monster(kind),
        Faction::Monster,
        pos,
        Stats {
            movement: 8,
            attack: 3,
            defend: 2,
            body: 1,
            mind: 2,
        },
    )
}

fn closed_door(a: Pos, b: Pos) -> Door {
    Door {
        a,
        b,
        open: false,
        secret: false,
        discovered: true,
        searchable: false,
        false_door: false,
    }
}

fn build(
    cells: Vec<Cell>,
    doors: Vec<Door>,
    units: Vec<Unit>,
    hero_order: Vec<UnitId>,
    stairs: Vec<Pos>,
    objective: ObjectiveDef,
) -> Game {
    Game::from_layout(
        "The Trial".to_owned(),
        "A test of courage.".to_owned(),
        cells,
        doors,
        units,
        Vec::new(),
        Vec::new(),
        hero_order,
        stairs,
        objective,
        Vec::new(),
        MonsterKind::Orc,
        7,
    )
    .expect("a well-formed layout")
}

/// Four heroes in a row along the top corridor and a named monster.
fn four_heroes(objective: ObjectiveDef) -> Game {
    let units = vec![
        hero(1, HeroKind::Barbarian, Pos::new(2, 2)),
        hero(2, HeroKind::Dwarf, Pos::new(3, 2)),
        hero(3, HeroKind::Elf, Pos::new(4, 2)),
        hero(4, HeroKind::Wizard, Pos::new(5, 2)),
        monster(10, MonsterKind::Orc, "Crypt Warden", Pos::new(12, 10)),
    ];
    build(
        open_board(),
        Vec::new(),
        units,
        vec![1, 2, 3, 4],
        vec![Pos::new(0, 0), Pos::new(1, 0), Pos::new(0, 1), Pos::new(1, 1)],
        objective,
    )
}

fn unit<'a>(game: &'a Game, id: UnitId) -> &'a Unit {
    game.units.iter().find(|unit| unit.id == id).unwrap()
}

fn unit_mut<'a>(game: &'a mut Game, id: UnitId) -> &'a mut Unit {
    game.units.iter_mut().find(|unit| unit.id == id).unwrap()
}

/// Every square walled up but a corridor along row 10, columns 10 to 13,
/// with the Barbarian at its west end and only the heroes in `keep` alive.
fn corridor(keep: &[UnitId]) -> Game {
    let mut game = four_heroes(ObjectiveDef::ReachStairs);
    for cell in game.cells.iter_mut() {
        cell.passable = false;
        cell.revealed = true;
    }
    for x in 10..=13 {
        let cell = &mut game.cells[Game::cell_index(Pos::new(x, 10))];
        cell.passable = true;
        cell.region = 42;
    }
    for unit in game.units.iter_mut() {
        if !keep.contains(&unit.id) {
            unit.alive = false;
        }
    }
    unit_mut(&mut game, 1).pos = Pos::new(10, 10);
    game
}

#[test]
fn astar_crosses_a_friendly_figure_but_never_offers_it_as_an_endpoint() {
    let mut game = corridor(&[1, 2]);
    unit_mut(&mut game, 2).pos = Pos::new(11, 10);
    game.apply_movement_roll(&[2, 2]).unwrap();

    let destinations = game.active_move_destinations();
    assert!(!destinations.contains(&Pos::new(11, 10)));
    assert!(destinations.contains(&Pos::new(13, 10)));
    assert_eq!(
        game.active_move_path_to(Pos::new(13, 10)).unwrap(),
        vec![Direction::East, Direction::East, Direction::East]
    );
}

#[test]
fn astar_does_not_plan_past_a_known_trap_or_cheat_about_a_hidden_one() {
    let mut game = corridor(&[1]);
    game.traps.push(Trap {
        kind: TrapKind::Pit,
        pos: Pos::new(12, 10),
        discovered: true,
        sprung: false,
        disarmed: false,
        trigger_on_entry: true,
        disarmable: false,
    });
    game.apply_movement_roll(&[2, 2]).unwrap();
    assert!(game.active_move_destinations().contains(&Pos::new(12, 10)));
    assert!(!game.active_move_destinations().contains(&Pos::new(13, 10)));

    game.traps.last_mut().unwrap().discovered = false;
    assert!(game.active_move_destinations().contains(&Pos::new(13, 10)));
    let path = game.active_move_path_to(Pos::new(13, 10)).unwrap();
    assert_eq!(path, vec![Direction::East, Direction::East, Direction::East]);
}

#[test]
fn destinations_are_listed_nearest_first_within_the_movement_left() {
    let mut game = corridor(&[1]);
    game.apply_movement_roll(&[1, 1]).unwrap();
    assert_eq!(
        game.active_move_destinations(),
        vec![Pos::new(11, 10), Pos::new(12, 10)]
    );
    assert_eq!(game.active_move_path_to(Pos::new(13, 10)), None);
    assert_eq!(
        game.active_move_path_to(Pos::new(12, 10)).unwrap(),
        vec![Direction::East, Direction::East]
    );
}

#[test]
fn nothing_is_offered_before_the_movement_dice_are_thrown() {
    let game = corridor(&[1]);
    assert!(game.active_move_destinations().is_empty());
    assert_eq!(game.active_move_path_to(Pos::new(11, 10)), None);
}

#[test]
fn destinations_spread_out_nearest_first_then_row_by_row() {
    let mut game = four_heroes(ObjectiveDef::ReachStairs);
    for unit in game.units.iter_mut() {
        if unit.id != 1 {
            unit.alive = false;
        }
    }
    unit_mut(&mut game, 1).pos = Pos::new(10, 10);
    game.apply_movement_roll(&[1, 1]).unwrap();
    let destinations = game.active_move_destinations();
    assert_eq!(destinations.len(), 12);
    assert_eq!(
        destinations[..4].to_vec(),
        vec![Pos::new(10, 9), Pos::new(9, 10), Pos::new(11, 10), Pos::new(10, 11)]
    );
    let path = game.active_move_path_to(Pos::new(12, 10)).unwrap();
    assert_eq!(path.len(), 2);
    let mut cursor = Pos::new(10, 10);
    for direction in path {
        cursor = cursor.offset(direction).unwrap();
    }
    assert_eq!(cursor, Pos::new(12, 10));
}

/// The Barbarian has just passed a magical door and must teleport.
fn teleporting() -> Game {
    let mut game = four_heroes(ObjectiveDef::ReachStairs);
    game.teleport_destinations = vec![(7, Pos::new(10, 10)), (9, Pos::new(12, 10))];
    game.pending_teleport_roll = Some(PendingTeleportRoll { subject: 1, forbidden_destination: None });
    game
}

#[test]
fn the_red_dice_total_names_the_teleport_destination() {
    let mut game = teleporting();
    assert_eq!(game.resolve_teleport_roll(&[3, 4]), Ok(Pos::new(10, 10)));
    assert_eq!(unit(&game, 1).pos, Pos::new(10, 10));
    assert_eq!(game.pending_teleport_roll, None);
    assert_eq!(game.log.back().unwrap(), "Barbarian rolled 7 and teleported to 11, 11.");
}

#[test]
fn a_teleport_roll_needs_two_dice_a_pending_teleport_and_a_known_total() {
    let mut game = teleporting();
    assert_eq!(game.resolve_teleport_roll(&[3, 4, 1]), Err(RuleError::InvalidDice));
    assert_eq!(game.resolve_teleport_roll(&[3, 7]), Err(RuleError::InvalidDice));
    assert_eq!(game.resolve_teleport_roll(&[1, 1]), Err(RuleError::StaleTeleport));
    assert_eq!(unit(&game, 1).pos, Pos::new(2, 2));
    game.pending_teleport_roll = None;
    assert_eq!(game.resolve_teleport_roll(&[3, 4]), Err(RuleError::StaleTeleport));
}

#[test]
fn landing_on_a_monster_wounds_it_and_sends_it_teleporting_in_turn() {
    let mut game = teleporting();
    unit_mut(&mut game, 10).pos = Pos::new(12, 10);
    unit_mut(&mut game, 10).body = 2;
    assert_eq!(game.resolve_teleport_roll(&[4, 5]), Ok(Pos::new(12, 10)));
    assert_eq!(unit(&game, 10).body, 1);
    assert_eq!(
        game.pending_teleport_roll,
        Some(PendingTeleportRoll { subject: 10, forbidden_destination: Some(Pos::new(12, 10)) })
    );
    assert_eq!(
        game.log.back().unwrap(),
        "Crypt Warden loses 1 Body Point and must roll two red dice to be displaced."
    );
    assert_eq!(game.resolve_teleport_roll(&[5, 4]), Ok(Pos::new(12, 10)));
    assert_eq!(unit(&game, 10).pos, Pos::new(12, 10));
    assert_eq!(
        game.log.back().unwrap(),
        "Crypt Warden rolled 9, the occupied square just left; roll again."
    );
    assert_eq!(game.resolve_teleport_roll(&[2, 5]), Ok(Pos::new(10, 10)));
    assert_eq!(unit(&game, 10).pos, Pos::new(10, 10));
    assert_eq!(game.pending_teleport_roll, None);
}

#[test]
fn a_monster_with_one_body_point_is_destroyed_by_the_collision() {
    let mut game = teleporting();
    unit_mut(&mut game, 10).pos = Pos::new(12, 10);
    assert_eq!(game.resolve_teleport_roll(&[6, 3]), Ok(Pos::new(12, 10)));
    assert!(!unit(&game, 10).alive);
    assert_eq!(game.pending_teleport_roll, None);
    assert_eq!(game.last_combat_visual.unwrap().defender_died, true);
}

#[test]
fn falling_stone_hits_on_four_to_six_and_a_helmet_turns_four_and_five_aside() {
    let mut game = four_heroes(ObjectiveDef::ReachStairs);
    game.pending_collapsing_ceiling_roll = Some(1);
    assert_eq!(game.resolve_collapsing_ceiling_roll(1, 7), Err(RuleError::InvalidDice));
    assert_eq!(game.resolve_collapsing_ceiling_roll(2, 4), Err(RuleError::StaleCollapsingCeilingRoll));
    assert_eq!(game.resolve_collapsing_ceiling_roll(1, 3), Ok(false));
    assert_eq!(game.pending_collapsing_ceiling_roll, None);
    assert_eq!(
        game.log.back().unwrap(),
        "Barbarian rolled 3; no Body Point is lost and movement may continue."
    );

    game.pending_collapsing_ceiling_roll = Some(1);
    assert_eq!(game.resolve_collapsing_ceiling_roll(1, 4), Ok(true));
    assert_eq!(unit(&game, 1).body, 7);
    assert_eq!(
        game.log.back().unwrap(),
        "Barbarian rolled 4; falling stone inflicts 1 Body Point with no defense."
    );

    unit_mut(&mut game, 1).inventory.armor.push(Armor::Helmet);
    game.pending_collapsing_ceiling_roll = Some(1);
    assert_eq!(game.resolve_collapsing_ceiling_roll(1, 5), Ok(false));
    assert_eq!(unit(&game, 1).body, 7);
    assert_eq!(
        game.log.back().unwrap(),
        "Barbarian rolled 5; the Helmet protects the Hero; no Body Point is lost and movement may continue."
    );
    game.pending_collapsing_ceiling_roll = Some(1);
    assert_eq!(game.resolve_collapsing_ceiling_roll(1, 6), Ok(true));
    assert_eq!(unit(&game, 1).body, 6);
}

#[test]
fn a_hero_felled_by_falling_stone_loses_its_movement() {
    let mut game = four_heroes(ObjectiveDef::ReachStairs);
    game.apply_movement_roll(&[3, 3]).unwrap();
    unit_mut(&mut game, 1).body = 1;
    game.pending_collapsing_ceiling_roll = Some(1);
    assert_eq!(game.resolve_collapsing_ceiling_roll(1, 6), Ok(true));
    assert_eq!(unit(&game, 1).body, 0);
    assert_eq!(game.hero_turn.movement_left, 0);
}

/// The Barbarian has stepped south onto a trap at column 2, row 3.
fn on_a_trap(kind: TrapKind) -> (Game, PendingTrapRoll) {
    let mut game = four_heroes(ObjectiveDef::ReachStairs);
    unit_mut(&mut game, 1).pos = Pos::new(2, 3);
    let pending = PendingTrapRoll {
        hero: 1,
        trap: Pos::new(2, 3),
        from: Pos::new(2, 2),
        direction: Direction::South,
        kind,
    };
    game.pending_trap_roll = Some(pending);
    (game, pending)
}

#[test]
fn a_spear_that_shows_a_skull_wounds_the_hero_and_ends_its_turn() {
    let (mut game, pending) = on_a_trap(TrapKind::Spear);
    assert_eq!(game.resolve_trap_roll(pending, &[]), Err(RuleError::InvalidDice));
    assert_eq!(game.resolve_trap_roll(pending, &[CombatFace::Skull]), Ok(()));
    assert_eq!(unit(&game, 1).body, 7);
    assert_eq!(game.pending_trap_roll, None);
    assert!(game.log.iter().any(|line| line == "A spear struck Barbarian: 1 Body Point lost; the turn ends."));
    assert_eq!(game.phase, GamePhase::HeroTurn { order_index: 1 });
    assert_eq!(game.resolve_trap_roll(pending, &[CombatFace::Skull]), Err(RuleError::StaleTrapRoll));
}

#[test]
fn a_dodged_spear_lets_the_hero_move_on() {
    let (mut game, pending) = on_a_trap(TrapKind::Spear);
    assert_eq!(game.resolve_trap_roll(pending, &[CombatFace::WhiteShield]), Ok(()));
    assert_eq!(unit(&game, 1).body, 8);
    assert_eq!(game.log.back().unwrap(), "Barbarian dodged the spear and may continue moving.");
    assert_eq!(game.phase, GamePhase::HeroTurn { order_index: 0 });
}

#[test]
fn a_falling_block_seals_its_square_and_its_victim_flees_back_or_ahead() {
    let (mut game, pending) = on_a_trap(TrapKind::FallingBlock);
    let faces = [CombatFace::Skull, CombatFace::WhiteShield, CombatFace::BlackShield];
    assert_eq!(game.resolve_trap_roll(pending, &faces), Ok(()));
    assert_eq!(unit(&game, 1).body, 7);
    assert!(!game.cells[Game::cell_index(Pos::new(2, 3))].passable);
    assert_eq!(game.hero_turn.movement_left, 0);
    assert_eq!(
        game.log.back().unwrap(),
        "The ceiling collapsed on Barbarian: 1 Body Point(s), with no defense. Choose ahead or back."
    );
    let block = game.pending_falling_block.unwrap();
    assert_eq!(block.back, Some(Pos::new(2, 2)));
    assert_eq!(block.ahead, Some(Pos::new(2, 4)));
    assert_eq!(
        game.resolve_falling_block_escape(Direction::East),
        Err(RuleError::InvalidFallingBlockChoice)
    );
    assert_eq!(game.resolve_falling_block_escape(Direction::North), Ok(Pos::new(2, 2)));
    assert_eq!(unit(&game, 1).pos, Pos::new(2, 2));
    assert_eq!(game.pending_falling_block, None);
    assert_eq!(game.phase, GamePhase::HeroTurn { order_index: 1 });
}

#[test]
fn with_one_way_open_the_victim_of_a_falling_block_flees_at_once() {
    let (mut game, pending) = on_a_trap(TrapKind::FallingBlock);
    unit_mut(&mut game, 2).pos = Pos::new(2, 4);
    let faces = [CombatFace::WhiteShield, CombatFace::WhiteShield, CombatFace::BlackShield];
    assert_eq!(game.resolve_trap_roll(pending, &faces), Ok(()));
    assert_eq!(unit(&game, 1).pos, Pos::new(2, 2));
    assert_eq!(game.pending_falling_block, None);
}

/// The Barbarian, with six squares to move, stands north of a known trap
/// of `kind` at column 2, row 3.
fn before_a_known_trap(kind: TrapKind) -> Game {
    let mut game = four_heroes(ObjectiveDef::ReachStairs);
    game.traps.push(Trap {
        kind,
        pos: Pos::new(2, 3),
        discovered: true,
        sprung: false,
        disarmed: false,
        trigger_on_entry: true,
        disarmable: true,
    });
    game.apply_movement_roll(&[3, 3]).unwrap();
    game
}

fn disarm_plan() -> DisarmPlan {
    DisarmPlan {
        hero: 1,
        trap_index: 0,
        from: Pos::new(2, 2),
        trap: Pos::new(2, 3),
        direction: Direction::South,
        dwarf: false,
    }
}

fn jump_plan() -> JumpPlan {
    JumpPlan {
        hero: 1,
        trap_index: 0,
        from: Pos::new(2, 2),
        trap: Pos::new(2, 3),
        landing: Pos::new(2, 4),
        direction: Direction::South,
    }
}

#[test]
fn a_disarmed_trap_is_stepped_onto_and_stays_harmless() {
    let mut game = before_a_known_trap(TrapKind::Spear);
    assert_eq!(game.resolve_disarm(disarm_plan(), CombatFace::WhiteShield), Ok(true));
    assert!(game.traps[0].disarmed);
    assert_eq!(unit(&game, 1).pos, Pos::new(2, 3));
    assert!(game.hero_turn.action_used);
    assert_eq!(game.hero_turn.movement_left, 5);
    assert_eq!(game.hero_turn.moved_steps, 1);
    assert_eq!(game.log.back().unwrap(), "Barbarian disarmed the trap and may continue moving.");
    assert_eq!(game.resolve_disarm(disarm_plan(), CombatFace::WhiteShield), Err(RuleError::StaleAttack));
}

#[test]
fn a_failed_disarm_sets_the_spear_off_at_once() {
    let mut game = before_a_known_trap(TrapKind::Spear);
    assert_eq!(game.resolve_disarm(disarm_plan(), CombatFace::Skull), Ok(false));
    assert!(game.traps[0].sprung);
    assert_eq!(unit(&game, 1).body, 7);
    assert!(game.log.iter().any(|line| line == "Barbarian failed to disarm the trap!"));
    assert!(game.log.iter().any(|line| line == "A spear struck Barbarian: 1 Body Point lost; the turn ends."));
    assert_eq!(game.phase, GamePhase::HeroTurn { order_index: 1 });
}

#[test]
fn a_dwarf_fails_a_disarm_only_on_a_black_shield() {
    let mut game = before_a_known_trap(TrapKind::Spear);
    let plan = DisarmPlan { dwarf: true, ..disarm_plan() };
    assert_eq!(game.resolve_disarm(plan, CombatFace::Skull), Ok(true));
}

#[test]
fn a_cleared_jump_lands_past_the_trap_for_two_squares() {
    let mut game = before_a_known_trap(TrapKind::Pit);
    assert_eq!(game.resolve_jump(jump_plan(), CombatFace::BlackShield), Ok(true));
    assert_eq!(unit(&game, 1).pos, Pos::new(2, 4));
    assert_eq!(game.hero_turn.movement_left, 4);
    assert_eq!(game.hero_turn.moved_steps, 2);
    assert_eq!(game.log.back().unwrap(), "Barbarian jumped the trap and spent two movement squares.");
    assert_eq!(game.resolve_jump(jump_plan(), CombatFace::BlackShield), Err(RuleError::StaleJump));
}

#[test]
fn a_failed_jump_falls_into_the_pit_and_ends_the_turn() {
    let mut game = before_a_known_trap(TrapKind::Pit);
    assert_eq!(game.resolve_jump(jump_plan(), CombatFace::Skull), Ok(false));
    assert!(game.traps[0].sprung);
    assert!(unit(&game, 1).in_pit);
    assert_eq!(unit(&game, 1).pos, Pos::new(2, 3));
    assert_eq!(unit(&game, 1).body, 7);
    assert_eq!(game.phase, GamePhase::HeroTurn { order_index: 1 });
}
