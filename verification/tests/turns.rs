use heroquest::engine::{Game, CELL_COUNT};
use heroquest::game::{
    Cell, Door, GamePhase, Inventory, Prop, QuestItem, RuleError, Trap, Unit, UnitId,
};
use heroquest::model::{Faction, FigureKind, HeroKind, MonsterKind, PropKind, Pos, Stats, TrapKind};
use heroquest::quest::ObjectiveDef;

fn open_board() -> Vec<Cell> {
    vec![
        Cell {
            passable: true,
            region: 1,
            revealed: true,
        };
        CELL_COUNT
    ]
}

fn figure(id: UnitId, name: &str, figure: FigureKind, faction: Faction, pos: Pos, stats: Stats) -> Unit {
    let inventory = match figure {
        FigureKind::Hero(kind) => Inventory::for_hero(kind),
        FigureKind::Monster(_) => Inventory::default(),
    };
    Unit {
        id,
        name: name.to_owned(),
        figure,
        physical_figure: Some(figure),
        faction,
        model_variant: None,
        pos,
        stats,
        body: stats.body as i16,
        alive: true,
        in_pit: false,
        inventory,
        carried_quest_item: None,
        dormant: false,
        invulnerable_until_acts: false,
        equipment_available: true,
        spellcasting_available: true,
        escaped: false,
        chaos_spells: Vec::new(),
        discarded_chaos_spells: Vec::new(),
        hero_spells: Vec::new(),
        discarded_hero_spells: Vec::new(),
        spell_ring_spell: None,
        spell_ring_casts_left: 0,
        escape_target: None,
        immune_to_fire_spells: false,
        fearful: false,
        sleeping: false,
        clouded: false,
        hero_sleep_caster: None,
        skip_turns: 0,
        petrified_turns: 0,
        diagonal_attack: false,
        hidden_until_activated: false,
        immune_except_spirit_blade: false,
        champion: false,
        commanded: false,
        swift_wind: false,
        courage: false,
        rock_skin: false,
        pass_through_rock: false,
        veil_of_mist: false,
        potion_defense_bonus: 0,
    }
}

fn hero(id: UnitId, kind: HeroKind, pos: Pos) -> Unit {
    let (name, attack, defend, body, mind) = match kind {
        HeroKind::Barbarian => ("Barbarian", 3, 2, 8, 2),
        HeroKind::Dwarf => ("Dwarf", 2, 2, 7, 3),
        HeroKind::Elf => ("Elf", 2, 2, 6, 4),
        HeroKind::Wizard => ("Wizard", 1, 2, 4, 6),
    };
    figure(
        id,
        name,
        FigureKind::Hero(kind),
        Faction::Hero,
        pos,
        Stats {
            movement: 2,
            attack,
            defend,
            body,
            mind,
        },
    )
}

fn monster(id: UnitId, kind: MonsterKind, name: &str, pos: Pos) -> Unit {
    figure(
        id,
        name,
        FigureKind::Monster(kind),
        Faction::Monster,
        pos,
        Stats {
            movement: 8,
            attack: 3,
            defend: 2,
            body: 1,
            mind: 2,
        },
    )
}

fn closed_door(a: Pos, b: Pos) -> Door {
    Door {
        a,
        b,
        open: false,
        secret: false,
        discovered: true,
        searchable: false,
        false_door: false,
    }
}

fn build(
    cells: Vec<Cell>,
    doors: Vec<Door>,
    units: Vec<Unit>,
    hero_order: Vec<UnitId>,
    stairs: Vec<Pos>,
    objective: ObjectiveDef,
) -> Game {
    Game::from_layout(
        "The Trial".to_owned(),
        "A test of courage.".to_owned(),
        cells,
        doors,
        units,
        Vec::new(),
        Vec::new(),
        hero_order,
        stairs,
        objective,
        Vec::new(),
        MonsterKind::Orc,
        7,
    )
    .expect("a well-formed layout")
}

/// Four heroes in a row along the top corridor and a named monster.
fn four_heroes(objective: ObjectiveDef) -> Game {
    let units = vec![
        hero(1, HeroKind::Barbarian, Pos::new(2, 2)),
        hero(2, HeroKind::Dwarf, Pos::new(3, 2)),
        hero(3, HeroKind::Elf, Pos::new(4, 2)),
        hero(4, HeroKind::Wizard, Pos::new(5, 2)),
        monster(10, MonsterKind::Orc, "Crypt Warden", Pos::new(12, 10)),
    ];
    build(
        open_board(),
        Vec::new(),
        units,
        vec![1, 2, 3, 4],
        vec![Pos::new(0, 0), Pos::new(1, 0), Pos::new(0, 1), Pos::new(1, 1)],
        objective,
    )
}

fn unit<'a>(game: &'a Game, id: UnitId) -> &'a Unit {
    game.units.iter().find(|unit| unit.id == id).unwrap()
}

fn unit_mut<'a>(game: &'a mut Game, id: UnitId) -> &'a mut Unit {
    game.units.iter_mut().find(|unit| unit.id == id).unwrap()
}


fn chest(pos: Pos) -> Prop {
    Prop {
        kind: PropKind::Chest,
        pos,
        rotation_quarters: 0,
        visible: true,
        carried_by: None,
    }
}

/// Three sealed royal chests laid out in a column below the heroes.
fn add_royal_chests(game: &mut Game) {
    for (index, pos) in [Pos::new(10, 8), Pos::new(10, 9), Pos::new(10, 10)]
        .into_iter()
        .enumerate()
    {
        game.props.push(chest(pos));
        game.quest_items.push(QuestItem {
            id: format!("Royal Chest {}", index + 1),
            prop_index: game.props.len() - 1,
            sealed_gold: 250,
            holder: None,
            delivered: false,
        });
    }
}

fn chest_game() -> Game {
    let mut game = four_heroes(ObjectiveDef::ReachStairs);
    add_royal_chests(&mut game);
    game
}

#[test]
fn royal_chests_can_be_taken_dropped_and_passed_but_never_become_hero_gold() {
    let mut game = chest_game();
    let barbarian = game.hero_order[0];
    let dwarf = game.hero_order[1];
    unit_mut(&mut game, barbarian).pos = Pos::new(10, 7);
    unit_mut(&mut game, dwarf).pos = Pos::new(11, 7);

    assert_eq!(game.take_quest_item().unwrap(), "Royal Chest 1");
    assert_eq!(game.active_movement_dice_count(), 1);
    assert_eq!(game.unit(barbarian).unwrap().inventory.gold, 0);
    assert_eq!(game.quest_items[0].sealed_gold, 250);
    assert_eq!(game.transfer_quest_item_to_adjacent_hero().unwrap(), dwarf);
    assert!(game.unit(barbarian).unwrap().carried_quest_item.is_none());
    assert_eq!(game.unit(dwarf).unwrap().carried_quest_item, Some(0));

    game.phase = GamePhase::HeroTurn { order_index: 1 };
    assert_eq!(game.active_movement_dice_count(), 1);
    assert_eq!(game.drop_quest_item().unwrap(), "Royal Chest 1");
    assert!(game.unit(dwarf).unwrap().carried_quest_item.is_none());
    assert_eq!(game.props[game.quest_items[0].prop_index].pos, Pos::new(11, 7));
    assert!(game.props[game.quest_items[0].prop_index].visible);
}

#[test]
fn carried_quest_chest_stops_occupying_the_floor_until_dropped() {
    let mut game = chest_game();
    let hero = game.hero_order[0];
    unit_mut(&mut game, hero).pos = Pos::new(10, 7);
    assert!(game.is_furniture_square(Pos::new(10, 8)));

    game.take_quest_item().unwrap();
    assert!(!game.is_furniture_square(Pos::new(10, 8)));
    assert!(!game.is_furniture_square(Pos::new(10, 7)));

    game.drop_quest_item().unwrap();
    assert!(game.is_furniture_square(Pos::new(10, 7)));
}

#[test]
fn the_chest_whose_name_comes_first_is_taken_from_among_those_in_reach() {
    let mut game = chest_game();
    let hero = game.hero_order[0];
    unit_mut(&mut game, hero).pos = Pos::new(10, 9);
    assert_eq!(game.take_quest_item().unwrap(), "Royal Chest 1");
    let carried = &game.props[game.quest_items[0].prop_index];
    assert_eq!(carried.pos, Pos::new(10, 9));
    assert_eq!(carried.carried_by, Some(hero));
    assert_eq!(game.quest_items[0].holder, Some(hero));
    assert_eq!(game.log.back().unwrap(), "Barbarian picked up Royal Chest 1.");
}

#[test]
fn quest_item_refusals_name_what_is_missing() {
    let mut game = chest_game();
    let hero = game.hero_order[0];
    assert_eq!(game.take_quest_item().unwrap_err(), RuleError::NoQuestItem);
    assert_eq!(game.drop_quest_item().unwrap_err(), RuleError::NotCarryingQuestItem);
    assert_eq!(
        game.transfer_quest_item_to_adjacent_hero().unwrap_err(),
        RuleError::NotCarryingQuestItem
    );
    unit_mut(&mut game, hero).pos = Pos::new(10, 7);
    game.take_quest_item().unwrap();
    assert_eq!(game.take_quest_item().unwrap_err(), RuleError::AlreadyCarryingQuestItem);
    assert_eq!(
        game.transfer_quest_item_to_adjacent_hero().unwrap_err(),
        RuleError::NoQuestItemRecipient
    );
    game.phase = GamePhase::ZargonTurn;
    assert_eq!(game.take_quest_item().unwrap_err(), RuleError::NotHeroTurn);
    game.phase = GamePhase::HeroTurn { order_index: 0 };
    unit_mut(&mut game, hero).sleeping = true;
    assert_eq!(game.drop_quest_item().unwrap_err(), RuleError::Incapacitated);
}

#[test]
fn a_chest_taken_on_the_stairway_is_returned_at_once() {
    let mut game = chest_game();
    let hero = game.hero_order[0];
    game.props[0].pos = Pos::new(1, 1);
    unit_mut(&mut game, hero).pos = Pos::new(0, 1);
    assert_eq!(game.take_quest_item().unwrap(), "Royal Chest 1");
    assert!(game.quest_items[0].delivered);
    assert_eq!(game.quest_items[0].holder, None);
    assert!(!game.props[0].visible);
    assert_eq!(game.props[0].carried_by, None);
    assert!(game.unit(hero).unwrap().carried_quest_item.is_none());
    assert_eq!(
        game.log.back().unwrap(),
        "Barbarian returned Royal Chest 1 to the stairway."
    );
}

#[test]
fn a_chest_is_passed_to_the_neighbour_with_the_least_id() {
    let mut game = chest_game();
    let barbarian = game.hero_order[0];
    unit_mut(&mut game, barbarian).pos = Pos::new(10, 7);
    unit_mut(&mut game, 3).pos = Pos::new(9, 7);
    unit_mut(&mut game, 4).pos = Pos::new(11, 7);
    game.take_quest_item().unwrap();
    assert_eq!(game.transfer_quest_item_to_adjacent_hero().unwrap(), 3);
    assert_eq!(game.props[0].pos, Pos::new(9, 7));
    assert_eq!(game.quest_items[0].holder, Some(3));
    assert_eq!(game.log.back().unwrap(), "Barbarian passed Royal Chest 1 to Elf.");
}

#[test]
fn every_hero_takes_a_turn_before_the_game_master() {
    let mut game = four_heroes(ObjectiveDef::ReachStairs);
    for next in 1..4 {
        game.end_hero_turn().unwrap();
        assert_eq!(game.phase, GamePhase::HeroTurn { order_index: next });
    }
    game.end_hero_turn().unwrap();
    assert_eq!(game.phase, GamePhase::ZargonTurn);
    assert_eq!(
        game.log.back().unwrap(),
        "The computer game master begins its turn."
    );
    assert_eq!(game.end_hero_turn().unwrap_err(), RuleError::NotHeroTurn);
}

#[test]
fn a_hero_who_acted_is_counted_once_for_the_round() {
    let mut game = four_heroes(ObjectiveDef::ReachStairs);
    game.hero_turn.action_used = true;
    game.heroes_acted_this_round.push(1);
    game.end_hero_turn().unwrap();
    assert_eq!(game.heroes_acted_this_round, vec![1]);
    game.hero_turn.action_used = true;
    game.end_hero_turn().unwrap();
    assert_eq!(game.heroes_acted_this_round, vec![1, 2]);
    assert_eq!(game.log.back().unwrap(), "Elf's turn.");
}

#[test]
fn stone_and_tempest_make_heroes_sit_out_their_turns() {
    let mut game = four_heroes(ObjectiveDef::ReachStairs);
    unit_mut(&mut game, 2).petrified_turns = 2;
    unit_mut(&mut game, 3).skip_turns = 1;
    game.end_hero_turn().unwrap();
    assert_eq!(game.phase, GamePhase::HeroTurn { order_index: 3 });
    assert_eq!(game.unit(2).unwrap().petrified_turns, 1);
    assert_eq!(game.unit(3).unwrap().skip_turns, 0);
    let lines: Vec<&String> = game.log.iter().rev().take(3).collect();
    assert_eq!(lines[0], "Wizard's turn.");
    assert_eq!(lines[1], "Elf is trapped by Tempest and misses the turn.");
    assert_eq!(lines[2], "Dwarf is stone and misses the turn (1 remaining).");

    game.phase = GamePhase::HeroTurn { order_index: 0 };
    unit_mut(&mut game, 2).petrified_turns = 1;
    game.end_hero_turn().unwrap();
    assert_eq!(game.phase, GamePhase::HeroTurn { order_index: 2 });
    assert_eq!(game.unit(2).unwrap().petrified_turns, 0);
    let previous: Vec<&String> = game.log.iter().rev().take(2).collect();
    assert_eq!(
        previous[1],
        "Dwarf spends a fifth turn as stone, then returns to normal."
    );
}

#[test]
fn courage_leaves_a_hero_who_starts_a_turn_with_no_monster_in_sight() {
    let mut game = four_heroes(ObjectiveDef::ReachStairs);
    unit_mut(&mut game, 10).alive = false;
    unit_mut(&mut game, 2).courage = true;
    game.end_hero_turn().unwrap();
    assert!(!game.unit(2).unwrap().courage);
    assert_eq!(game.log.back().unwrap(), "Dwarf's turn.");
    let previous: Vec<&String> = game.log.iter().rev().take(2).collect();
    assert_eq!(
        previous[1],
        "Courage left Dwarf when no Monster remained in sight."
    );
}

#[test]
fn courage_stays_while_a_monster_is_in_sight() {
    let mut game = four_heroes(ObjectiveDef::ReachStairs);
    unit_mut(&mut game, 10).pos = Pos::new(3, 5);
    unit_mut(&mut game, 2).courage = true;
    game.end_hero_turn().unwrap();
    assert!(game.unit(2).unwrap().courage);
}

#[test]
fn an_escorted_ally_moves_after_its_controllers_turn() {
    let mut game = four_heroes(ObjectiveDef::ReachStairs);
    let mut ally = hero(20, HeroKind::Barbarian, Pos::new(8, 8));
    ally.name = "Sir Ragnar".to_owned();
    game.units.push(ally);
    game.escorted_ally = Some((20, 1));
    game.end_hero_turn().unwrap();
    assert_eq!(
        game.phase,
        GamePhase::AllyTurn {
            ally: 20,
            controller_order_index: 0
        }
    );
    assert_eq!(game.log.back().unwrap(), "Sir Ragnar's escorted movement turn.");
    game.end_hero_turn().unwrap();
    assert_eq!(game.phase, GamePhase::HeroTurn { order_index: 1 });
}

#[test]
fn a_hero_cannot_end_its_move_on_an_occupied_square() {
    let mut game = four_heroes(ObjectiveDef::ReachStairs);
    unit_mut(&mut game, 1).pos = Pos::new(3, 2);
    game.hero_turn.movement_roll = Some(4);
    assert_eq!(game.end_hero_turn().unwrap_err(), RuleError::MustFinishOccupiedMove);
    assert_eq!(game.phase, GamePhase::HeroTurn { order_index: 0 });
}

#[test]
fn pass_through_rock_ending_inside_stone_seals_the_hero_and_drops_the_chest() {
    let mut game = chest_game();
    let hero = game.hero_order[0];
    unit_mut(&mut game, hero).pos = Pos::new(10, 7);
    game.take_quest_item().unwrap();
    let index = heroquest::engine::Game::cell_index(Pos::new(10, 7));
    game.cells[index].passable = false;
    unit_mut(&mut game, hero).pass_through_rock = true;
    game.hero_turn.movement_roll = Some(3);
    game.end_hero_turn().unwrap();
    let sealed = game.unit(hero).unwrap();
    assert!(!sealed.alive);
    assert_eq!(sealed.body, 0);
    assert!(!sealed.pass_through_rock);
    assert!(sealed.carried_quest_item.is_none());
    assert_eq!(game.props[0].pos, Pos::new(10, 7));
    assert_eq!(game.quest_items[0].holder, None);
    assert_eq!(game.phase, GamePhase::HeroTurn { order_index: 1 });
}

#[test]
fn the_quest_is_lost_when_the_turn_ends_with_every_hero_dead() {
    let mut game = four_heroes(ObjectiveDef::ReachStairs);
    for id in 1..=4 {
        unit_mut(&mut game, id).alive = false;
    }
    game.end_hero_turn().unwrap();
    assert_eq!(game.phase, GamePhase::Lost);
}

#[test]
fn status_line_reports_the_turn_body_movement_and_latest_news() {
    let mut game = four_heroes(ObjectiveDef::ReachStairs);
    unit_mut(&mut game, 1).body = 5;
    game.hero_turn.movement_left = 7;
    assert_eq!(
        game.status_line(),
        "The Trial — Barbarian | Body 5/8 | Move 7 | The heroes begin The Trial."
    );
    unit_mut(&mut game, 1).body = -2;
    assert_eq!(
        game.status_line(),
        "The Trial — Barbarian | Body -2/8 | Move 7 | The heroes begin The Trial."
    );
    game.phase = GamePhase::ZargonTurn;
    assert_eq!(
        game.status_line(),
        "The Trial — Computer game master | The heroes begin The Trial."
    );
    game.phase = GamePhase::Won;
    game.log.clear();
    assert_eq!(game.status_line(), "The Trial — Quest complete! | ");
    game.phase = GamePhase::Lost;
    assert_eq!(game.status_line(), "The Trial — The heroes have fallen | ");
    game.phase = GamePhase::Retreated;
    assert_eq!(game.status_line(), "The Trial — Quest ended without completion | ");
}

#[test]
fn decimal_numbers_are_written_without_leading_zeros() {
    assert_eq!(heroquest::status::decimal_string(0), "0");
    assert_eq!(heroquest::status::decimal_string(240), "240");
    assert_eq!(heroquest::status::signed_string(-15), "-15");
}

#[test]
fn the_doors_a_hero_may_open_are_the_closed_ones_on_its_square() {
    let mut game = four_heroes(ObjectiveDef::ReachStairs);
    game.doors = vec![
        closed_door(Pos::new(2, 2), Pos::new(2, 3)),
        closed_door(Pos::new(5, 5), Pos::new(5, 6)),
        Door {
            open: true,
            ..closed_door(Pos::new(1, 2), Pos::new(2, 2))
        },
        Door {
            secret: true,
            discovered: false,
            ..closed_door(Pos::new(2, 1), Pos::new(2, 2))
        },
        closed_door(Pos::new(3, 2), Pos::new(2, 2)),
    ];
    assert_eq!(game.adjacent_closed_door_indices().unwrap(), vec![0, 4]);
    unit_mut(&mut game, 1).pos = Pos::new(9, 9);
    assert_eq!(game.adjacent_closed_door_indices().unwrap_err(), RuleError::NoDoor);
}

#[test]
fn trap_search_uncovers_hidden_traps_in_the_room() {
    let mut game = four_heroes(ObjectiveDef::ReachStairs);
    unit_mut(&mut game, 10).alive = false;
    game.traps.push(Trap {
        kind: TrapKind::Pit,
        pos: Pos::new(6, 6),
        discovered: false,
        sprung: false,
        disarmed: false,
        trigger_on_entry: true,
        disarmable: true,
    });
    let found = game.search_traps().unwrap();
    assert_eq!(found, vec![Pos::new(6, 6)]);
    assert!(game.traps[0].discovered);
    assert!(game.hero_turn.action_used);
    assert_eq!(game.search_traps().unwrap_err(), RuleError::AlreadyActed);
}

#[test]
fn putting_a_chest_straight_back_down_leaves_it_as_it_was() {
    let mut game = chest_game();
    let hero = game.hero_order[0];
    unit_mut(&mut game, hero).pos = Pos::new(10, 8);
    let before_item = game.quest_items[0].clone();
    let before_hero = unit(&game, hero).clone();
    game.take_quest_item().unwrap();
    game.drop_quest_item().unwrap();
    assert_eq!(game.quest_items[0], before_item);
    assert_eq!(unit(&game, hero).carried_quest_item, before_hero.carried_quest_item);
    assert_eq!(unit(&game, hero).pos, before_hero.pos);
    assert_eq!(game.props[0].pos, Pos::new(10, 8));
    assert!(game.props[0].visible);
    assert_eq!(game.props[0].carried_by, None);
}

#[test]
fn checking_the_end_of_the_quest_twice_changes_nothing() {
    let mut game = four_heroes(ObjectiveDef::ReachStairs);
    for id in 1..=4 {
        unit_mut(&mut game, id).alive = false;
    }
    game.check_terminal();
    assert_eq!(game.phase, GamePhase::Lost);
    let lines = game.log.len();
    game.check_terminal();
    assert_eq!(game.phase, GamePhase::Lost);
    assert_eq!(game.log.len(), lines);
}

#[test]
fn the_ring_of_return_is_usable_only_by_an_equipped_hero_who_owns_it() {
    let mut game = four_heroes(ObjectiveDef::ReachStairs);
    assert!(!game.can_use_ring_of_return());
    unit_mut(&mut game, 1)
        .inventory
        .artifacts
        .push(heroquest::cards::Artifact::RingOfReturn);
    assert!(game.can_use_ring_of_return());
    unit_mut(&mut game, 1).equipment_available = false;
    assert!(!game.can_use_ring_of_return());
}

#[test]
fn a_hero_on_the_stairway_escapes_an_escape_quest() {
    let mut game = four_heroes(ObjectiveDef::EscapeIndependently);
    assert!(!game.escape_hero_on_stairs(1));
    unit_mut(&mut game, 1).pos = Pos::new(1, 1);
    assert!(game.escape_hero_on_stairs(1));
    assert!(unit(&game, 1).escaped);
    assert!(game.hero_turn.action_used);
    assert_eq!(game.hero_turn.movement_left, 0);
    assert_eq!(
        game.log.back().unwrap(),
        "Barbarian reached the stairway and escaped the dungeon."
    );
    assert!(!game.escape_hero_on_stairs(1));

    let mut plain = four_heroes(ObjectiveDef::ReachStairs);
    unit_mut(&mut plain, 1).pos = Pos::new(1, 1);
    assert!(!plain.escape_hero_on_stairs(1));
}

#[test]
fn secret_door_search_uncovers_hidden_doors_without_opening_them() {
    let mut game = four_heroes(ObjectiveDef::ReachStairs);
    unit_mut(&mut game, 10).alive = false;
    game.doors = vec![Door {
        secret: true,
        discovered: false,
        searchable: true,
        ..closed_door(Pos::new(6, 6), Pos::new(6, 7))
    }];
    let found = game.search_secret_doors().unwrap();
    assert_eq!(found, vec![(Pos::new(6, 6), Pos::new(6, 7))]);
    assert!(game.doors[0].discovered);
    assert!(!game.doors[0].open);
}

fn found_trap(pos: Pos) -> Trap {
    Trap {
        kind: TrapKind::Spear,
        pos,
        discovered: true,
        sprung: false,
        disarmed: false,
        trigger_on_entry: true,
        disarmable: true,
    }
}

#[test]
fn the_dwarf_plans_to_disarm_the_first_trap_found_beside_it() {
    let mut game = four_heroes(ObjectiveDef::ReachStairs);
    game.phase = GamePhase::HeroTurn { order_index: 1 };
    game.traps.push(found_trap(Pos::new(3, 3)));
    assert_eq!(game.active_disarm_plan().unwrap_err(), RuleError::MovementNotRolled);
    game.hero_turn.movement_roll = Some(5);
    game.hero_turn.movement_left = 5;
    let plan = game.active_disarm_plan().unwrap();
    assert_eq!(plan.hero, 2);
    assert_eq!(plan.trap_index, 0);
    assert_eq!(plan.from, Pos::new(3, 2));
    assert_eq!(plan.trap, Pos::new(3, 3));
    assert_eq!(plan.direction, heroquest::model::Direction::South);
    assert!(plan.dwarf);
    game.hero_turn.moved_steps = 1;
    assert_eq!(game.active_disarm_plan().unwrap_err(), RuleError::DisarmBeforeMoving);
}

#[test]
fn other_heroes_need_a_tool_kit_to_disarm() {
    let mut game = four_heroes(ObjectiveDef::ReachStairs);
    game.traps.push(found_trap(Pos::new(2, 3)));
    game.hero_turn.movement_roll = Some(5);
    game.hero_turn.movement_left = 5;
    unit_mut(&mut game, 1).inventory.tool_kits = 0;
    assert_eq!(game.active_disarm_plan().unwrap_err(), RuleError::ToolKitRequired);
    unit_mut(&mut game, 1).inventory.tool_kits = 1;
    assert_eq!(game.active_disarm_plan().unwrap().trap, Pos::new(2, 3));
    game.traps[0].sprung = true;
    assert_eq!(game.active_disarm_plan().unwrap_err(), RuleError::NoDisarmableTrap);
}

#[test]
fn a_hero_with_two_moves_left_may_plan_to_jump_a_found_trap() {
    let mut game = four_heroes(ObjectiveDef::ReachStairs);
    game.traps.push(found_trap(Pos::new(2, 3)));
    game.hero_turn.movement_roll = Some(5);
    game.hero_turn.movement_left = 2;
    let south = heroquest::model::Direction::South;
    let plan = game.active_jump_plan(south).unwrap();
    assert_eq!(plan.trap, Pos::new(2, 3));
    assert_eq!(plan.landing, Pos::new(2, 4));
    assert_eq!(plan.trap_index, 0);
    assert_eq!(
        game.active_jump_plan(heroquest::model::Direction::North).unwrap_err(),
        RuleError::NoJumpableTrap
    );
    unit_mut(&mut game, 2).pos = Pos::new(2, 4);
    assert_eq!(game.active_jump_plan(south).unwrap_err(), RuleError::NoJumpableTrap);
    game.hero_turn.movement_left = 1;
    assert_eq!(game.active_jump_plan(south).unwrap_err(), RuleError::NoMovement);
}
