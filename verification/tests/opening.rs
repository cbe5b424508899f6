use heroquest::engine::{Game, CELL_COUNT};
use heroquest::game::{Cell, Door, Inventory, QuestEvent, QuestTrigger, RuleError, Unit, UnitId};
use heroquest::model::{CombatFace, Faction, FigureKind, HeroKind, MonsterKind, Pos, Stats};
use heroquest::quest::{ObjectiveDef, QuestEffectDef};

fn open_board() -> Vec<Cell> {
    vec![
        Cell {
            passable: true,
            region: 1,
            revealed: true,
        };
        CELL_COUNT
    ]
}

fn figure(id: UnitId, name: &str, figure: FigureKind, faction: Faction, pos: Pos, stats: Stats) -> Unit {
    let inventory = match figure {
        FigureKind::Hero(kind) => Inventory::for_hero(kind),
        FigureKind::Monster(_) => Inventory::default(),
    };
    Unit {
        id,
        name: name.to_owned(),
        figure,
        physical_figure: Some(figure),
        faction,
        model_variant: None,
        pos,
        stats,
        body: stats.body as i16,
        alive: true,
        in_pit: false,
        inventory,
        carried_quest_item: None,
        dormant: false,
        invulnerable_until_acts: false,
        equipment_available: true,
        spellcasting_available: true,
        escaped: false,
        chaos_spells: Vec::new(),
        discarded_chaos_spells: Vec::new(),
        hero_spells: Vec::new(),
        discarded_hero_spells: Vec::new(),
        spell_ring_spell: None,
        spell_ring_casts_left: 0,
        escape_target: None,
        immune_to_fire_spells: false,
        fearful: false,
        sleeping: false,
        clouded: false,
        hero_sleep_caster: None,
        skip_turns: 0,
        petrified_turns: 0,
        diagonal_attack: false,
        hidden_until_activated: false,
        immune_except_spirit_blade: false,
        champion: false,
        commanded: false,
        swift_wind: false,
        courage: false,
        rock_skin: false,
        pass_through_rock: false,
        veil_of_mist: false,
        potion_defense_bonus: 0,
    }
}

fn hero(id: UnitId, kind: HeroKind, pos: Pos) -> Unit {
    let (name, attack, defend, body, mind) = match kind {
        HeroKind::Barbarian => ("Barbarian", 3, 2, 8, 2),
        HeroKind::Dwarf => ("Dwarf", 2, 2, 7, 3),
        HeroKind::Elf => ("Elf", 2, 2, 6, 4),
        HeroKind::Wizard => ("Wizard", 1, 2, 4, 6),
    };
    figure(
        id,
        name,
        FigureKind::Hero(kind),
        Faction::Hero,
        pos,
        Stats {
            movement: 2,
            attack,
            defend,
            body,
            mind,
        },
    )
}

fn monster(id: UnitId, kind: MonsterKind, name: &str, pos: Pos) -> Unit {
    figure(
        id,
        name,
        FigureKind::Monster(kind),
        Faction::Monster,
        pos,
        Stats {
            movement: 8,
            attack: 3,
            defend: 2,
            body: 1,
            mind: 2,
        },
    )
}

fn closed_door(a: Pos, b: Pos) -> Door {
    Door {
        a,
        b,
        open: false,
        secret: false,
        discovered: true,
        searchable: false,
        false_door: false,
    }
}

fn build(
    cells: Vec<Cell>,
    doors: Vec<Door>,
    units: Vec<Unit>,
    hero_order: Vec<UnitId>,
    stairs: Vec<Pos>,
    objective: ObjectiveDef,
) -> Game {
    Game::from_layout(
        "The Trial".to_owned(),
        "A test of courage.".to_owned(),
        cells,
        doors,
        units,
        Vec::new(),
        Vec::new(),
        hero_order,
        stairs,
        objective,
        Vec::new(),
        MonsterKind::Orc,
        7,
    )
    .expect("a well-formed layout")
}

/// Four heroes in a row along the top corridor and a named monster.
fn four_heroes(objective: ObjectiveDef) -> Game {
    let units = vec![
        hero(1, HeroKind::Barbarian, Pos::new(2, 2)),
        hero(2, HeroKind::Dwarf, Pos::new(3, 2)),
        hero(3, HeroKind::Elf, Pos::new(4, 2)),
        hero(4, HeroKind::Wizard, Pos::new(5, 2)),
        monster(10, MonsterKind::Orc, "Crypt Warden", Pos::new(12, 10)),
    ];
    build(
        open_board(),
        Vec::new(),
        units,
        vec![1, 2, 3, 4],
        vec![Pos::new(0, 0), Pos::new(1, 0), Pos::new(0, 1), Pos::new(1, 1)],
        objective,
    )
}

fn unit<'a>(game: &'a Game, id: UnitId) -> &'a Unit {
    game.units.iter().find(|unit| unit.id == id).unwrap()
}

fn unit_mut<'a>(game: &'a mut Game, id: UnitId) -> &'a mut Unit {
    game.units.iter_mut().find(|unit| unit.id == id).unwrap()
}



/// A corridor west of column 16 and, east of it, an unseen room behind a
/// shut door; the Barbarian stands at the door with the Crypt Warden
/// behind it.
fn at_the_door() -> Game {
    let mut game = four_heroes(ObjectiveDef::ReachStairs);
    for index in 0..CELL_COUNT {
        let x = index % 26;
        game.cells[index] = Cell {
            passable: true,
            region: if x >= 16 { 2 } else { 0 },
            revealed: x < 16,
        };
    }
    game.doors.push(closed_door(Pos::new(15, 2), Pos::new(16, 2)));
    unit_mut(&mut game, 1).pos = Pos::new(15, 2);
    unit_mut(&mut game, 10).pos = Pos::new(16, 2);
    unit_mut(&mut game, 10).body = 2;
    game
}

#[test]
fn line_of_sight_is_blocked_by_closed_doors_and_opened_permanently() {
    let mut game = at_the_door();
    assert!(!game.can_see(Pos::new(15, 2), Pos::new(16, 2)));
    game.open_adjacent_door().unwrap();
    assert!(game.can_see(Pos::new(15, 2), Pos::new(16, 2)));
}

#[test]
fn player_selects_the_exact_adjacent_door_to_open() {
    let mut game = at_the_door();
    game.doors.push(closed_door(Pos::new(15, 2), Pos::new(15, 3)));
    let choices = game.adjacent_closed_door_indices().unwrap();
    assert_eq!(choices.len(), 2);
    let south = choices
        .into_iter()
        .find(|&index| game.doors[index].connects(Pos::new(15, 2), Pos::new(15, 3)))
        .unwrap();
    game.open_selected_adjacent_door(south).unwrap();

    assert!(game.doors[south].open);
    assert!(game
        .doors
        .iter()
        .any(|door| !door.open && door.connects(Pos::new(15, 2), Pos::new(16, 2))));
    assert_eq!(game.log.back().unwrap(), "Barbarian opened a door.");
}

#[test]
fn hero_and_monster_block_different_combat_faces() {
    let mut game = at_the_door();
    unit_mut(&mut game, 10).stats.defend = 1;
    game.open_adjacent_door().unwrap();
    let plan = game.active_attack_plan().unwrap();
    let outcome = game
        .resolve_attack(
            plan,
            &[CombatFace::Skull, CombatFace::Skull, CombatFace::WhiteShield],
            &[CombatFace::WhiteShield],
        )
        .unwrap();
    assert_eq!(
        outcome.damage, 2,
        "a monster only blocks with black shields"
    );
    assert!(outcome.defender_died);
}

#[test]
fn opening_a_door_shows_the_room_beyond_and_fires_its_notes_once() {
    let mut game = at_the_door();
    game.quest_events.push(QuestEvent {
        id: "HALL".to_owned(),
        trigger: QuestTrigger::RevealRoom { region: 2 },
        effect: QuestEffectDef::Message,
        message: None,
        resolved: false,
    });
    game.quest_events.push(QuestEvent {
        id: "HINGE".to_owned(),
        trigger: QuestTrigger::OpenDoor {
            a: Pos::new(16, 2),
            b: Pos::new(15, 2),
        },
        effect: QuestEffectDef::SplitGold { amount: 10 },
        message: Some("Coins spill from the door frame.".to_owned()),
        resolved: false,
    });
    let gold = unit(&game, 2).inventory.gold;
    assert!(!game.cells[Game::cell_index(Pos::new(20, 10))].revealed);
    assert_eq!(
        game.open_adjacent_door().unwrap(),
        (Pos::new(15, 2), Pos::new(16, 2))
    );
    assert!(game.cells[Game::cell_index(Pos::new(20, 10))].revealed);
    assert!(game.quest_events.iter().all(|event| event.resolved));
    assert_eq!(unit(&game, 2).inventory.gold, gold + 3);
    let lines: Vec<&String> = game.log.iter().rev().take(3).collect();
    assert_eq!(lines[0], "Barbarian opened a door.");
    assert_eq!(lines[1], "Coins spill from the door frame.");
    assert_eq!(lines[2], "Quest event HALL was revealed.");
    assert_eq!(game.open_adjacent_door().unwrap_err(), RuleError::NoDoor);
}

#[test]
fn a_room_alarm_flings_every_door_open_and_forbids_its_treasure() {
    let mut game = at_the_door();
    game.doors.push(closed_door(Pos::new(3, 3), Pos::new(3, 4)));
    game.quest_events.push(QuestEvent {
        id: "GONG".to_owned(),
        trigger: QuestTrigger::RevealRoom { region: 2 },
        effect: QuestEffectDef::Alarm {
            ally: "Dwarf".to_owned(),
            forbid_treasure: true,
        },
        message: Some("A gong sounds!".to_owned()),
        resolved: false,
    });
    game.open_adjacent_door().unwrap();
    assert!(game.doors.iter().all(|door| door.open && door.discovered));
    assert!(game.cells.iter().all(|cell| cell.revealed));
    assert_eq!(game.forbidden_treasure_regions, vec![2]);
    assert_eq!(game.escorted_ally, Some((2, 1)));
}

#[test]
fn false_and_unfound_doors_cannot_be_opened() {
    let mut game = at_the_door();
    game.doors[0].false_door = true;
    assert_eq!(
        game.open_selected_adjacent_door(0).unwrap_err(),
        RuleError::FalseDoor
    );
    game.doors[0].false_door = false;
    game.doors[0].secret = true;
    game.doors[0].discovered = false;
    assert_eq!(
        game.open_selected_adjacent_door(0).unwrap_err(),
        RuleError::NoDoor
    );
    assert_eq!(game.open_adjacent_door().unwrap_err(), RuleError::NoDoor);
    assert!(!game.doors[0].open);
}

#[test]
fn secret_door_search_reveals_but_does_not_open_the_door() {
    let mut game = four_heroes(ObjectiveDef::ReachStairs);
    game.doors.push(Door {
        a: Pos::new(14, 2),
        b: Pos::new(14, 3),
        open: false,
        secret: true,
        discovered: false,
        searchable: true,
        false_door: false,
    });
    unit_mut(&mut game, 1).pos = Pos::new(14, 2);
    let found = game.search_secret_doors().unwrap();
    assert_eq!(found, vec![(Pos::new(14, 2), Pos::new(14, 3))]);
    let door = game.has_door(Pos::new(14, 2), Pos::new(14, 3)).unwrap();
    assert!(door.discovered);
    assert!(!door.open);
    game.open_adjacent_door().unwrap();
    assert!(game
        .has_door(Pos::new(14, 2), Pos::new(14, 3))
        .unwrap()
        .open);
}

#[test]
fn barak_tor_false_doors_can_never_be_opened() {
    let mut game = four_heroes(ObjectiveDef::ReachStairs);
    let mut false_door = closed_door(Pos::new(18, 0), Pos::new(18, 1));
    false_door.false_door = true;
    game.doors.push(false_door);
    let hero = game.active_hero_id().unwrap();
    unit_mut(&mut game, hero).pos = Pos::new(18, 0);
    assert_eq!(game.open_adjacent_door().unwrap_err(), RuleError::FalseDoor);
    let door = game.has_door(Pos::new(18, 0), Pos::new(18, 1)).unwrap();
    assert!(door.false_door);
    assert!(!door.open);
}
