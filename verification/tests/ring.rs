use heroquest::cards::Artifact;
use heroquest::engine::{Game, CELL_COUNT};
use heroquest::game::{Cell, Door, Inventory, RuleError, Unit, UnitId};
use heroquest::model::{Faction, FigureKind, HeroKind, MonsterKind, Pos, Stats};
use heroquest::quest::ObjectiveDef;

fn open_board() -> Vec<Cell> {
    vec![
        Cell {
            passable: true,
            region: 1,
            revealed: true,
        };
        CELL_COUNT
    ]
}

fn figure(id: UnitId, name: &str, figure: FigureKind, faction: Faction, pos: Pos, stats: Stats) -> Unit {
    let inventory = match figure {
        FigureKind::Hero(kind) => Inventory::for_hero(kind),
        FigureKind::Monster(_) => Inventory::default(),
    };
    Unit {
        id,
        name: name.to_owned(),
        figure,
        physical_figure: Some(figure),
        faction,
        model_variant: None,
        pos,
        stats,
        body: stats.body as i16,
        alive: true,
        in_pit: false,
        inventory,
        carried_quest_item: None,
        dormant: false,
        invulnerable_until_acts: false,
        equipment_available: true,
        spellcasting_available: true,
        escaped: false,
        chaos_spells: Vec::new(),
        discarded_chaos_spells: Vec::new(),
        hero_spells: Vec::new(),
        discarded_hero_spells: Vec::new(),
        spell_ring_spell: None,
        spell_ring_casts_left: 0,
        escape_target: None,
        immune_to_fire_spells: false,
        fearful: false,
        sleeping: false,
        clouded: false,
        hero_sleep_caster: None,
        skip_turns: 0,
        petrified_turns: 0,
        diagonal_attack: false,
        hidden_until_activated: false,
        immune_except_spirit_blade: false,
        champion: false,
        commanded: false,
        swift_wind: false,
        courage: false,
        rock_skin: false,
        pass_through_rock: false,
        veil_of_mist: false,
        potion_defense_bonus: 0,
    }
}

fn hero(id: UnitId, kind: HeroKind, pos: Pos) -> Unit {
    let (name, attack, defend, body, mind) = match kind {
        HeroKind::Barbarian => ("Barbarian", 3, 2, 8, 2),
        HeroKind::Dwarf => ("Dwarf", 2, 2, 7, 3),
        HeroKind::Elf => ("Elf", 2, 2, 6, 4),
        HeroKind::Wizard => ("Wizard", 1, 2, 4, 6),
    };
    figure(
        id,
        name,
        FigureKind::Hero(kind),
        Faction::Hero,
        pos,
        Stats {
            movement: 2,
            attack,
            defend,
            body,
            mind,
        },
    )
}

fn monster(id: UnitId, kind: MonsterKind, name: &str, pos: Pos) -> Unit {
    figure(
        id,
        name,
        FigureKind::Monster(kind),
        Faction::Monster,
        pos,
        Stats {
            movement: 8,
            attack: 3,
            defend: 2,
            body: 1,
            mind: 2,
        },
    )
}

fn closed_door(a: Pos, b: Pos) -> Door {
    Door {
        a,
        b,
        open: false,
        secret: false,
        discovered: true,
        searchable: false,
        false_door: false,
    }
}

fn build(
    cells: Vec<Cell>,
    doors: Vec<Door>,
    units: Vec<Unit>,
    hero_order: Vec<UnitId>,
    stairs: Vec<Pos>,
    objective: ObjectiveDef,
) -> Game {
    Game::from_layout(
        "The Trial".to_owned(),
        "A test of courage.".to_owned(),
        cells,
        doors,
        units,
        Vec::new(),
        Vec::new(),
        hero_order,
        stairs,
        objective,
        Vec::new(),
        MonsterKind::Orc,
        7,
    )
    .expect("a well-formed layout")
}

/// Four heroes in a row along the top corridor and a named monster.
fn four_heroes(objective: ObjectiveDef) -> Game {
    let units = vec![
        hero(1, HeroKind::Barbarian, Pos::new(2, 2)),
        hero(2, HeroKind::Dwarf, Pos::new(3, 2)),
        hero(3, HeroKind::Elf, Pos::new(4, 2)),
        hero(4, HeroKind::Wizard, Pos::new(5, 2)),
        monster(10, MonsterKind::Orc, "Crypt Warden", Pos::new(12, 10)),
    ];
    build(
        open_board(),
        Vec::new(),
        units,
        vec![1, 2, 3, 4],
        vec![Pos::new(0, 0), Pos::new(1, 0), Pos::new(0, 1), Pos::new(1, 1)],
        objective,
    )
}

fn unit<'a>(game: &'a Game, id: UnitId) -> &'a Unit {
    game.units.iter().find(|unit| unit.id == id).unwrap()
}

fn unit_mut<'a>(game: &'a mut Game, id: UnitId) -> &'a mut Unit {
    game.units.iter_mut().find(|unit| unit.id == id).unwrap()
}



#[test]
fn the_ring_of_return_carries_every_hero_in_sight_home_and_is_spent() {
    let mut game = four_heroes(ObjectiveDef::EscapeIndependently);
    game.hero_start_positions = vec![
        Pos::new(0, 0),
        Pos::new(1, 0),
        Pos::new(0, 1),
        Pos::new(1, 1),
    ];
    unit_mut(&mut game, 1).inventory.artifacts.push(Artifact::RingOfReturn);
    unit_mut(&mut game, 1).pos = Pos::new(10, 10);
    unit_mut(&mut game, 2).pos = Pos::new(10, 11);
    unit_mut(&mut game, 3).alive = false;
    unit_mut(&mut game, 4).escaped = true;
    assert!(game.can_use_ring_of_return());

    let returned = game.use_ring_of_return().unwrap();
    assert_eq!(returned, vec![1, 2]);
    assert_eq!(unit(&game, 1).pos, Pos::new(0, 0));
    assert_eq!(unit(&game, 2).pos, Pos::new(1, 0));
    assert!(unit(&game, 1).escaped);
    assert!(unit(&game, 2).escaped);
    assert!(!unit(&game, 1).inventory.artifacts.contains(&Artifact::RingOfReturn));
    assert_eq!(game.hero_turn.movement_left, 0);
    assert!(game.log.iter().any(|line| line
        == "The Ring of Return carried 2 visible Heroes back to the Quest entrance."));
    assert!(!game.can_use_ring_of_return());
    assert_eq!(
        game.use_ring_of_return().unwrap_err(),
        RuleError::NotHeroTurn,
        "every hero left standing has escaped, so the quest is over"
    );
}

#[test]
fn the_ring_of_return_needs_the_ring_in_hand() {
    let mut game = four_heroes(ObjectiveDef::ReachStairs);
    game.hero_start_positions = vec![Pos::new(0, 0); 4];
    assert_eq!(
        game.use_ring_of_return().unwrap_err(),
        RuleError::NoRingOfReturn
    );
    unit_mut(&mut game, 1).inventory.artifacts.push(Artifact::RingOfReturn);
    unit_mut(&mut game, 1).equipment_available = false;
    assert_eq!(
        game.use_ring_of_return().unwrap_err(),
        RuleError::NoRingOfReturn
    );
    unit_mut(&mut game, 1).equipment_available = true;
    unit_mut(&mut game, 1).pos = Pos::new(20, 15);
    for id in 2..=4 {
        unit_mut(&mut game, id).alive = false;
    }
    assert_eq!(game.use_ring_of_return().unwrap(), vec![1]);
    assert!(!unit(&game, 1).escaped);
    assert!(game.log.iter().any(|line| line
        == "The Ring of Return carried 1 visible Hero back to the Quest entrance."));
}
