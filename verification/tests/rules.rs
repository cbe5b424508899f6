use heroquest::cards::Artifact;
use heroquest::engine::{Game, CELL_COUNT};
use heroquest::equipment::{Armor, Weapon};
use heroquest::game::{
    pit_adjusted_dice, AttackSource, Cell, Door, GamePhase, HeroTurnState, Inventory, QuestEvent, QuestTrigger,
    RuleError, Unit, UnitId,
};
use heroquest::model::{
    Direction, Faction, FigureKind, HeroKind, MonsterKind, Pos, PropKind, Stats,
};
use heroquest::quest::{ObjectiveDef, QuestEffectDef};

fn open_board() -> Vec<Cell> {
    vec![
        Cell {
            passable: true,
            region: 1,
            revealed: true,
        };
        CELL_COUNT
    ]
}

fn figure(id: UnitId, name: &str, figure: FigureKind, faction: Faction, pos: Pos, stats: Stats) -> Unit {
    let inventory = match figure {
        FigureKind::Hero(kind) => Inventory::for_hero(kind),
        FigureKind::Monster(_) => Inventory::default(),
    };
    Unit {
        id,
        name: name.to_owned(),
        figure,
        physical_figure: Some(figure),
        faction,
        model_variant: None,
        pos,
        stats,
        body: stats.body as i16,
        alive: true,
        in_pit: false,
        inventory,
        carried_quest_item: None,
        dormant: false,
        invulnerable_until_acts: false,
        equipment_available: true,
        spellcasting_available: true,
        escaped: false,
        chaos_spells: Vec::new(),
        discarded_chaos_spells: Vec::new(),
        hero_spells: Vec::new(),
        discarded_hero_spells: Vec::new(),
        spell_ring_spell: None,
        spell_ring_casts_left: 0,
        escape_target: None,
        immune_to_fire_spells: false,
        fearful: false,
        sleeping: false,
        clouded: false,
        hero_sleep_caster: None,
        skip_turns: 0,
        petrified_turns: 0,
        diagonal_attack: false,
        hidden_until_activated: false,
        immune_except_spirit_blade: false,
        champion: false,
        commanded: false,
        swift_wind: false,
        courage: false,
        rock_skin: false,
        pass_through_rock: false,
        veil_of_mist: false,
        potion_defense_bonus: 0,
    }
}

fn hero(id: UnitId, kind: HeroKind, pos: Pos) -> Unit {
    let (name, attack, defend, body, mind) = match kind {
        HeroKind::Barbarian => ("Barbarian", 3, 2, 8, 2),
        HeroKind::Dwarf => ("Dwarf", 2, 2, 7, 3),
        HeroKind::Elf => ("Elf", 2, 2, 6, 4),
        HeroKind::Wizard => ("Wizard", 1, 2, 4, 6),
    };
    figure(
        id,
        name,
        FigureKind::Hero(kind),
        Faction::Hero,
        pos,
        Stats {
            movement: 2,
            attack,
            defend,
            body,
            mind,
        },
    )
}

fn monster(id: UnitId, kind: MonsterKind, name: &str, pos: Pos) -> Unit {
    figure(
        id,
        name,
        FigureKind::Monster(kind),
        Faction::Monster,
        pos,
        Stats {
            movement: 8,
            attack: 3,
            defend: 2,
            body: 1,
            mind: 2,
        },
    )
}

fn closed_door(a: Pos, b: Pos) -> Door {
    Door {
        a,
        b,
        open: false,
        secret: false,
        discovered: true,
        searchable: false,
        false_door: false,
    }
}

fn build(
    cells: Vec<Cell>,
    doors: Vec<Door>,
    units: Vec<Unit>,
    hero_order: Vec<UnitId>,
    stairs: Vec<Pos>,
    objective: ObjectiveDef,
) -> Game {
    Game::from_layout(
        "The Trial".to_owned(),
        "A test of courage.".to_owned(),
        cells,
        doors,
        units,
        Vec::new(),
        Vec::new(),
        hero_order,
        stairs,
        objective,
        Vec::new(),
        MonsterKind::Orc,
        7,
    )
    .expect("a well-formed layout")
}

/// Four heroes in a row along the top corridor and a named monster.
fn four_heroes(objective: ObjectiveDef) -> Game {
    let units = vec![
        hero(1, HeroKind::Barbarian, Pos::new(2, 2)),
        hero(2, HeroKind::Dwarf, Pos::new(3, 2)),
        hero(3, HeroKind::Elf, Pos::new(4, 2)),
        hero(4, HeroKind::Wizard, Pos::new(5, 2)),
        monster(10, MonsterKind::Orc, "Crypt Warden", Pos::new(12, 10)),
    ];
    build(
        open_board(),
        Vec::new(),
        units,
        vec![1, 2, 3, 4],
        vec![Pos::new(0, 0), Pos::new(1, 0), Pos::new(0, 1), Pos::new(1, 1)],
        objective,
    )
}

fn unit<'a>(game: &'a Game, id: UnitId) -> &'a Unit {
    game.units.iter().find(|unit| unit.id == id).unwrap()
}

fn unit_mut<'a>(game: &'a mut Game, id: UnitId) -> &'a mut Unit {
    game.units.iter_mut().find(|unit| unit.id == id).unwrap()
}

#[test]
fn pit_penalty_never_reduces_attack_or_defense_below_one_die() {
    assert_eq!(pit_adjusted_dice(3, true), 2);
    assert_eq!(pit_adjusted_dice(1, true), 1);
    assert_eq!(pit_adjusted_dice(4, false), 4);
}

#[test]
fn original_furniture_footprints_match_the_scanned_quest_symbols() {
    assert_eq!(PropKind::Stairs.footprint(0), (2, 2));
    assert_eq!(PropKind::Table.footprint(0), (3, 2));
    assert_eq!(PropKind::Table.footprint(1), (2, 3));
    assert_eq!(PropKind::AlchemistsBench.footprint(3), (2, 3));
    assert_eq!(PropKind::Tomb.footprint(0), (2, 3));
    assert_eq!(PropKind::Tomb.footprint(1), (3, 2));
    assert_eq!(PropKind::TortureRack.footprint(2), (2, 3));
    assert_eq!(PropKind::Bookcase.footprint(0), (3, 1));
    assert_eq!(PropKind::WeaponRack.footprint(1), (1, 3));
    assert_eq!(PropKind::Fireplace.footprint(0), (2, 1));
    assert_eq!(PropKind::Cupboard.footprint(3), (1, 3));
    assert_eq!(PropKind::Chest.footprint(2), (1, 1));
    assert_eq!(PropKind::Throne.footprint(3), (1, 1));
    assert!(!PropKind::Stairs.blocks_movement());
    assert!(!PropKind::StarOfWest.blocks_movement());
    assert!(PropKind::Table.blocks_movement());
}

#[test]
fn armor_and_weapon_conflicts_change_defense_dice() {
    let mut inventory = Inventory::default();
    inventory.armor = vec![Armor::Helmet, Armor::Shield, Armor::ChainMail];
    inventory.equipped_weapon = Some(Weapon::Broadsword);
    assert_eq!(inventory.defense_dice(2), 5);
    inventory.equipped_weapon = Some(Weapon::BattleAxe);
    assert_eq!(inventory.defense_dice(2), 4);
}

#[test]
fn movement_uses_two_physical_d6_results() {
    let mut game = four_heroes(ObjectiveDef::ReachStairs);
    assert_eq!(game.apply_movement_roll(&[2, 5]).unwrap(), 7);
    assert_eq!(game.hero_turn.movement_left, 7);
    assert_eq!(
        game.apply_movement_roll(&[1, 1]).unwrap_err().message(),
        "movement dice have already been rolled"
    );
}

#[test]
fn a_closed_door_blocks_even_when_both_endpoints_share_a_region() {
    let mut cells = open_board();
    let a = Pos::new(15, 2);
    let b = Pos::new(16, 2);
    cells[Game::cell_index(a)].region = 3;
    cells[Game::cell_index(b)].region = 4;
    let units = vec![hero(1, HeroKind::Barbarian, Pos::new(2, 2))];
    let mut game = build(
        cells,
        vec![closed_door(a, b)],
        units,
        vec![1],
        Vec::new(),
        ObjectiveDef::ReachStairs,
    );
    let door = game.doors[0].clone();
    let region = game.cell(door.a).unwrap().region;
    game.cells[Game::cell_index(door.b)].region = region;
    game.doors[0].open = false;
    assert!(!game.boundary_is_open(door.a, door.b));
    game.doors[0].open = true;
    assert!(game.boundary_is_open(door.a, door.b));
}

#[test]
fn figures_block_sight_but_a_line_touching_only_a_corner_does_not() {
    let units = vec![
        hero(1, HeroKind::Barbarian, Pos::new(13, 1)),
        monster(10, MonsterKind::Goblin, "Goblin", Pos::new(14, 1)),
    ];
    let game = build(
        open_board(),
        Vec::new(),
        units,
        vec![1],
        Vec::new(),
        ObjectiveDef::ReachStairs,
    );
    assert!(!game.can_see(Pos::new(13, 1), Pos::new(15, 1)));
    assert!(game.can_see(Pos::new(13, 1), Pos::new(14, 2)));
}

#[test]
fn attack_options_enforce_each_original_weapon_shape_and_range() {
    let mut game = four_heroes(ObjectiveDef::DefeatAll);
    let hero = game.active_hero_id().unwrap();
    let target = game
        .units
        .iter()
        .find(|unit| unit.name == "Crypt Warden")
        .unwrap()
        .id;
    let hero_unit = unit_mut(&mut game, hero);
    hero_unit.pos = Pos::new(10, 10);
    hero_unit.inventory.weapons = vec![
        Weapon::Dagger,
        Weapon::Crossbow,
        Weapon::Broadsword,
        Weapon::Longsword,
    ];
    let target_unit = unit_mut(&mut game, target);
    target_unit.pos = Pos::new(12, 10);
    target_unit.dormant = false;
    target_unit.hidden_until_activated = false;

    let ranged = game.active_attack_options().unwrap();
    assert!(ranged
        .iter()
        .any(|plan| plan.source == AttackSource::Weapon(Weapon::Crossbow)));
    assert!(ranged
        .iter()
        .any(|plan| plan.source == AttackSource::ThrownDagger));
    assert!(ranged
        .iter()
        .all(|plan| plan.source != AttackSource::Weapon(Weapon::Broadsword)));

    unit_mut(&mut game, target).pos = Pos::new(11, 11);
    let diagonal = game.active_attack_options().unwrap();
    assert!(diagonal
        .iter()
        .any(|plan| plan.source == AttackSource::Weapon(Weapon::Longsword)));
    assert!(diagonal
        .iter()
        .all(|plan| plan.source != AttackSource::Weapon(Weapon::Broadsword)));

    unit_mut(&mut game, target).pos = Pos::new(11, 10);
    let adjacent = game.active_attack_options().unwrap();
    assert!(adjacent
        .iter()
        .any(|plan| plan.source == AttackSource::Weapon(Weapon::Broadsword)));
    assert!(adjacent
        .iter()
        .all(|plan| plan.source != AttackSource::Weapon(Weapon::Crossbow)));
}

#[test]
fn spirit_blade_rolls_four_dice_against_undead_three_otherwise_and_excludes_wizard() {
    let mut game = four_heroes(ObjectiveDef::DefeatAll);
    let barbarian = game.hero_order[0];
    for unit in game.units.iter_mut() {
        if unit.faction == Faction::Monster {
            unit.alive = false;
        }
    }
    unit_mut(&mut game, barbarian)
        .inventory
        .artifacts
        .push(Artifact::SpiritBlade);
    let target_id = 10;
    let target = unit_mut(&mut game, target_id);
    target.figure = FigureKind::Monster(MonsterKind::Skeleton);
    target.alive = true;
    target.body = 1;
    target.pos = Pos::new(13, 7);
    target.dormant = false;
    target.hidden_until_activated = false;
    unit_mut(&mut game, barbarian).pos = Pos::new(14, 7);
    assert_eq!(game.active_attack_plan().unwrap().attack_dice, 4);

    unit_mut(&mut game, target_id).figure = FigureKind::Monster(MonsterKind::Fimir);
    assert_eq!(game.active_attack_plan().unwrap().attack_dice, 3);

    let wizard = game.hero_order[3];
    game.phase = GamePhase::HeroTurn { order_index: 3 };
    unit_mut(&mut game, wizard)
        .inventory
        .artifacts
        .push(Artifact::SpiritBlade);
    unit_mut(&mut game, wizard).pos = Pos::new(14, 7);
    assert_eq!(game.active_attack_plan().unwrap().attack_dice, 1);
}

#[test]
fn castle_of_mystery_also_ends_when_every_surviving_hero_uses_the_stairs() {
    let mut game = four_heroes(ObjectiveDef::DefeatAllOrEscapeIndependently);
    for id in game.hero_order.clone() {
        unit_mut(&mut game, id).escaped = true;
    }
    game.check_terminal();
    assert_eq!(game.phase, GamePhase::Won);
    assert_eq!(game.escaped_hero_count(), 4);
    assert!(game
        .units
        .iter()
        .any(|unit| unit.faction == Faction::Monster && unit.alive));
}

#[test]
fn attack_plan_prefers_more_dice_then_the_weaker_defender() {
    let mut game = four_heroes(ObjectiveDef::DefeatAll);
    let mut second = monster(11, MonsterKind::Goblin, "Goblin", Pos::new(2, 3));
    second.body = 1;
    game.units.push(second);
    let mut first = unit_mut(&mut game, 10);
    first.pos = Pos::new(2, 1);
    first.body = 3;
    let plan = game.active_attack_plan().unwrap();
    assert_eq!(plan.attacker, 1);
    assert_eq!(plan.defender, 11);
    assert_eq!(plan.source, AttackSource::Weapon(Weapon::Broadsword));
    assert_eq!(plan.attack_dice, 3);
    assert_eq!(plan.defend_dice, 2);
    first = unit_mut(&mut game, 10);
    first.body = 1;
    let tie = game.active_attack_plan().unwrap();
    assert_eq!(tie.defender, 10);
}

#[test]
fn attack_options_report_each_refusal() {
    let mut game = four_heroes(ObjectiveDef::DefeatAll);
    assert_eq!(game.active_attack_options().unwrap_err(), RuleError::NoTarget);
    unit_mut(&mut game, 1).inventory.fools_gold = 10;
    assert_eq!(
        game.active_attack_options().unwrap_err(),
        RuleError::CarryingFoolsGold
    );
    unit_mut(&mut game, 1).sleeping = true;
    assert_eq!(
        game.active_attack_options().unwrap_err(),
        RuleError::Incapacitated
    );
    game.hero_turn.action_used = true;
    assert_eq!(
        game.active_attack_options().unwrap_err(),
        RuleError::AlreadyActed
    );
    game.hero_turn.action_used = false;
    game.phase = GamePhase::ZargonTurn;
    assert_eq!(
        game.active_attack_options().unwrap_err(),
        RuleError::NotHeroTurn
    );
}

#[test]
fn courage_and_a_pit_change_the_attack_dice() {
    let mut game = four_heroes(ObjectiveDef::DefeatAll);
    unit_mut(&mut game, 10).pos = Pos::new(2, 3);
    unit_mut(&mut game, 1).courage = true;
    assert_eq!(game.active_attack_plan().unwrap().attack_dice, 5);
    unit_mut(&mut game, 1).in_pit = true;
    assert_eq!(game.active_attack_plan().unwrap().attack_dice, 4);
    unit_mut(&mut game, 10).in_pit = true;
    assert_eq!(game.active_attack_plan().unwrap().defend_dice, 1);
}

#[test]
fn orcs_bane_follow_up_offers_only_orcs_bane_against_orcs() {
    let mut game = four_heroes(ObjectiveDef::DefeatAll);
    unit_mut(&mut game, 10).pos = Pos::new(2, 3);
    unit_mut(&mut game, 1).inventory.artifacts.push(Artifact::OrcsBane);
    let options = game.active_attack_options().unwrap();
    assert_eq!(options.len(), 2);
    game.hero_turn.action_used = true;
    game.hero_turn.orcs_bane_follow_up = true;
    let follow_up = game.active_attack_options().unwrap();
    assert_eq!(follow_up.len(), 1);
    assert_eq!(follow_up[0].source, AttackSource::OrcsBane);
    assert_eq!(follow_up[0].attack_dice, 2);
    unit_mut(&mut game, 10).figure = FigureKind::Monster(MonsterKind::Goblin);
    assert_eq!(game.active_attack_options().unwrap_err(), RuleError::NoTarget);
}

#[test]
fn a_wizard_may_not_swing_a_broadsword() {
    let mut game = four_heroes(ObjectiveDef::DefeatAll);
    game.phase = GamePhase::HeroTurn { order_index: 3 };
    unit_mut(&mut game, 10).pos = Pos::new(5, 3);
    unit_mut(&mut game, 4).inventory.weapons = vec![Weapon::Broadsword, Weapon::Staff];
    let options = game.active_attack_options().unwrap();
    assert_eq!(options.len(), 1);
    assert_eq!(options[0].source, AttackSource::Weapon(Weapon::Staff));
    assert!(Weapon::Dagger.allowed_by(HeroKind::Wizard));
    assert!(!Weapon::Crossbow.allowed_by(HeroKind::Wizard));
    assert!(Weapon::BattleAxe.allowed_by(HeroKind::Dwarf));
}

#[test]
fn hero_tallies_count_the_living_standing_and_escaped() {
    let mut game = four_heroes(ObjectiveDef::ReachStairs);
    assert_eq!(game.living_hero_count(), 4);
    assert_eq!(game.active_hero_count(), 4);
    assert_eq!(game.escaped_hero_count(), 0);
    unit_mut(&mut game, 2).alive = false;
    unit_mut(&mut game, 3).escaped = true;
    assert_eq!(game.living_hero_count(), 3);
    assert_eq!(game.active_hero_count(), 2);
    assert_eq!(game.escaped_hero_count(), 1);
}

#[test]
fn rescue_reward_is_split_with_the_remainder_to_the_first_heroes() {
    let mut game = four_heroes(ObjectiveDef::ReachStairs);
    unit_mut(&mut game, 2).alive = false;
    unit_mut(&mut game, 4).inventory.gold = u16::MAX - 10;
    game.split_gold_among_living_heroes(200);
    assert_eq!(unit(&game, 1).inventory.gold, 67);
    assert_eq!(unit(&game, 2).inventory.gold, 0);
    assert_eq!(unit(&game, 3).inventory.gold, 67);
    assert_eq!(unit(&game, 4).inventory.gold, u16::MAX);
}

#[test]
fn reaching_the_stairs_wins_only_when_every_living_hero_is_there() {
    let mut game = four_heroes(ObjectiveDef::ReachStairs);
    game.check_terminal();
    assert!(matches!(game.phase, GamePhase::HeroTurn { .. }));
    let stairs = [Pos::new(0, 0), Pos::new(1, 0), Pos::new(0, 1)];
    for (id, pos) in [1, 2, 3].into_iter().zip(stairs) {
        unit_mut(&mut game, id).pos = pos;
    }
    game.check_terminal();
    assert!(matches!(game.phase, GamePhase::HeroTurn { .. }));
    unit_mut(&mut game, 4).alive = false;
    game.check_terminal();
    assert_eq!(game.phase, GamePhase::Won);
    assert_eq!(
        game.log.back().unwrap(),
        "The surviving heroes return safely to the stairway."
    );
}

#[test]
fn the_quest_is_lost_when_no_hero_remains_standing() {
    let mut game = four_heroes(ObjectiveDef::DefeatAll);
    for id in 1..=4 {
        unit_mut(&mut game, id).alive = false;
    }
    game.check_terminal();
    assert_eq!(game.phase, GamePhase::Lost);
    assert_eq!(game.log.back().unwrap(), "No hero remains standing.");
}

#[test]
fn defeating_the_named_foe_crowns_every_surviving_champion() {
    let mut game = four_heroes(ObjectiveDef::DefeatNamed {
        name: "Crypt Warden".to_owned(),
        award_champion_title: true,
    });
    game.check_terminal();
    assert!(matches!(game.phase, GamePhase::HeroTurn { .. }));
    unit_mut(&mut game, 10).alive = false;
    unit_mut(&mut game, 3).alive = false;
    game.check_terminal();
    assert_eq!(game.phase, GamePhase::Won);
    assert!(unit(&game, 1).champion);
    assert!(!unit(&game, 3).champion);
    assert!(unit(&game, 4).champion);
    assert!(game
        .log
        .iter()
        .any(|line| line == "The Emperor awards every surviving Hero the title of Champion."));
    assert_eq!(
        game.log.back().unwrap(),
        "The Witch Lord has vanished in foul black smoke; the campaign is won."
    );
}

#[test]
fn returning_heroes_each_receive_the_per_hero_reward() {
    let mut game = four_heroes(ObjectiveDef::DefeatNamedAndReturn {
        name: "Crypt Warden".to_owned(),
        reward_gold_per_hero: 100,
    });
    unit_mut(&mut game, 10).alive = false;
    game.check_terminal();
    assert!(matches!(game.phase, GamePhase::HeroTurn { .. }));
    let stairs = [Pos::new(0, 0), Pos::new(1, 0), Pos::new(0, 1), Pos::new(1, 1)];
    for (id, pos) in [1, 2, 3, 4].into_iter().zip(stairs) {
        unit_mut(&mut game, id).pos = pos;
    }
    game.check_terminal();
    assert_eq!(game.phase, GamePhase::Won);
    for id in 1..=4 {
        assert_eq!(unit(&game, id).inventory.gold, 100);
    }
}

#[test]
fn a_resolved_event_or_a_found_artifact_meets_its_objective() {
    let mut game = four_heroes(ObjectiveDef::ResolveEventAndReturn {
        event: "RECOVER".to_owned(),
        reward_gold_per_hero: 0,
    });
    game.quest_events.push(QuestEvent {
        id: "RECOVER".to_owned(),
        trigger: QuestTrigger::RevealRoom { region: 1 },
        effect: QuestEffectDef::Message,
        message: None,
        resolved: false,
    });
    unit_mut(&mut game, 1).pos = Pos::new(0, 0);
    unit_mut(&mut game, 2).alive = false;
    unit_mut(&mut game, 3).alive = false;
    unit_mut(&mut game, 4).alive = false;
    game.check_terminal();
    assert!(matches!(game.phase, GamePhase::HeroTurn { .. }));
    game.quest_events[0].resolved = true;
    game.check_terminal();
    assert_eq!(game.phase, GamePhase::Won);

    let mut game = four_heroes(ObjectiveDef::FindArtifactAndReturn {
        artifact: Artifact::TalismanOfLore,
    });
    for id in 1..=4 {
        unit_mut(&mut game, id).pos = Pos::new(0, 0);
    }
    game.check_terminal();
    assert!(matches!(game.phase, GamePhase::HeroTurn { .. }));
    unit_mut(&mut game, 2)
        .inventory
        .artifacts
        .push(Artifact::TalismanOfLore);
    game.check_terminal();
    assert_eq!(game.phase, GamePhase::Won);
}

#[test]
fn an_escape_quest_is_lost_when_nobody_escaped_and_mine_gold_vanishes_on_victory() {
    let mut game = four_heroes(ObjectiveDef::EscapeIndependently);
    for id in 1..=4 {
        unit_mut(&mut game, id).alive = false;
    }
    game.check_terminal();
    assert_eq!(game.phase, GamePhase::Lost);
    assert_eq!(game.log.back().unwrap(), "No Hero escaped the dungeon.");

    let mut game = four_heroes(ObjectiveDef::DefeatAllOrEscapeIndependently);
    unit_mut(&mut game, 2).inventory.fools_gold = 30;
    unit_mut(&mut game, 10).alive = false;
    game.check_terminal();
    assert_eq!(game.phase, GamePhase::Won);
    assert_eq!(unit(&game, 2).inventory.fools_gold, 0);
    assert_eq!(
        game.log.back().unwrap(),
        "Every monster trapped in the castle has been defeated."
    );
    let finished = game.log.len();
    game.check_terminal();
    assert_eq!(game.log.len(), finished);
}

#[test]
fn a_layout_with_a_figure_off_the_board_is_refused() {
    let units = vec![hero(1, HeroKind::Barbarian, Pos::new(40, 2))];
    let game = Game::from_layout(
        "The Trial".to_owned(),
        String::new(),
        open_board(),
        Vec::new(),
        units,
        Vec::new(),
        Vec::new(),
        vec![1],
        Vec::new(),
        ObjectiveDef::ReachStairs,
        Vec::new(),
        MonsterKind::Orc,
        1,
    );
    assert!(game.is_none());
    let twice = Game::from_layout(
        "The Trial".to_owned(),
        String::new(),
        open_board(),
        Vec::new(),
        vec![hero(1, HeroKind::Barbarian, Pos::new(2, 2))],
        Vec::new(),
        Vec::new(),
        vec![1, 1],
        Vec::new(),
        ObjectiveDef::ReachStairs,
        Vec::new(),
        MonsterKind::Orc,
        1,
    );
    assert!(twice.is_none());
}

#[test]
fn movement_direction_matches_each_highlighted_target() {
    let mut game = four_heroes(ObjectiveDef::ReachStairs);
    assert!(game.active_move_targets().is_empty());
    game.apply_movement_roll(&[2, 5]).unwrap();
    let targets = game.active_move_targets();
    assert!(!targets.is_empty());
    for (target, direction) in targets {
        assert_eq!(game.active_move_direction_to(target), Some(direction));
    }
    assert_eq!(
        game.active_move_direction_to(Pos::new(2, 1)),
        Some(Direction::North)
    );
}

#[test]
fn heroes_begin_with_their_original_weapons() {
    let game = four_heroes(ObjectiveDef::ReachStairs);
    let weapons: Vec<_> = game
        .hero_order
        .iter()
        .map(|&id| game.unit(id).unwrap().inventory.equipped_weapon)
        .collect();
    assert_eq!(
        weapons,
        vec![
            Some(Weapon::Broadsword),
            Some(Weapon::Shortsword),
            Some(Weapon::Shortsword),
            Some(Weapon::Dagger),
        ]
    );
}

#[test]
fn plate_mail_uses_one_physical_movement_die() {
    let mut game = four_heroes(ObjectiveDef::ReachStairs);
    let hero_id = game.active_hero_id().unwrap();
    unit_mut(&mut game, hero_id).inventory.armor.push(Armor::PlateMail);
    assert_eq!(game.active_movement_dice_count(), 1);
    assert_eq!(
        game.apply_movement_roll(&[2, 5]).unwrap_err(),
        RuleError::InvalidDice
    );
    assert_eq!(game.apply_movement_roll(&[5]).unwrap(), 5);
}

#[test]
fn borins_armor_replaces_body_armor_and_never_slows_its_legal_wearer() {
    let mut game = four_heroes(ObjectiveDef::ReachStairs);
    let barbarian = game.hero_order[0];
    let hero = unit_mut(&mut game, barbarian);
    hero.inventory.artifacts.push(Artifact::BorinsArmor);
    hero.inventory.armor = vec![
        Armor::ChainMail,
        Armor::PlateMail,
        Armor::Helmet,
        Armor::Shield,
    ];
    assert_eq!(hero.effective_defense_dice(), hero.stats.defend + 4);
    hero.inventory.artifacts.push(Artifact::WizardsCloak);
    assert_eq!(
        hero.effective_defense_dice(),
        hero.stats.defend + 4,
        "the Wizard's Cloak does nothing for another Hero"
    );
    assert_eq!(game.active_movement_dice_count(), 2);

    let wizard = game.hero_order[3];
    game.phase = GamePhase::HeroTurn { order_index: 3 };
    game.hero_turn = HeroTurnState::default();
    let hero = unit_mut(&mut game, wizard);
    hero.inventory.artifacts.push(Artifact::BorinsArmor);
    hero.inventory.artifacts.push(Artifact::WizardsCloak);
    hero.inventory.armor.push(Armor::PlateMail);
    assert_eq!(
        hero.effective_defense_dice(),
        hero.stats.defend + 1,
        "the Wizard ignores forbidden Plate Mail but may use the Wizard's Cloak"
    );
    assert_eq!(game.active_movement_dice_count(), 2);
}

#[test]
fn wizard_cannot_use_any_forbidden_armory_weapon_or_armor_even_if_carried() {
    let mut game = four_heroes(ObjectiveDef::ReachStairs);
    let wizard = game.hero_order[3];
    let monster = game
        .units
        .iter()
        .find(|unit| unit.faction == Faction::Monster)
        .unwrap()
        .id;
    for hero in game.hero_order[..3].to_vec() {
        unit_mut(&mut game, hero).escaped = true;
    }
    for unit in game
        .units
        .iter_mut()
        .filter(|unit| unit.faction == Faction::Monster)
    {
        unit.alive = unit.id == monster;
    }
    {
        let hero = unit_mut(&mut game, wizard);
        hero.pos = Pos::new(14, 2);
        hero.inventory.weapons = vec![
            Weapon::Dagger,
            Weapon::Staff,
            Weapon::Crossbow,
            Weapon::Shortsword,
            Weapon::Broadsword,
            Weapon::Longsword,
            Weapon::BattleAxe,
        ];
        hero.inventory.equipped_weapon = Some(Weapon::BattleAxe);
        hero.inventory.armor = vec![
            Armor::Helmet,
            Armor::Shield,
            Armor::ChainMail,
            Armor::PlateMail,
        ];
    }
    unit_mut(&mut game, monster).pos = Pos::new(15, 2);
    game.cells[Game::cell_index(Pos::new(15, 2))].revealed = true;
    game.allocate_pending_visible_figures();
    game.phase = GamePhase::HeroTurn { order_index: 3 };
    game.hero_turn = HeroTurnState::default();

    let hero = game.unit(wizard).unwrap();
    assert_eq!(hero.effective_defense_dice(), hero.stats.defend);
    assert_eq!(game.active_movement_dice_count(), 2);
    let sources = game
        .active_attack_options()
        .unwrap()
        .into_iter()
        .map(|plan| plan.source)
        .collect::<Vec<_>>();
    assert!(sources.contains(&AttackSource::Weapon(Weapon::Dagger)));
    assert!(sources.contains(&AttackSource::Weapon(Weapon::Staff)));
    assert!(sources.iter().all(|source| matches!(
        source,
        AttackSource::Weapon(Weapon::Dagger | Weapon::Staff) | AttackSource::WizardsStaff
    )));
}
