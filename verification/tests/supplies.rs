use heroquest::cards::Artifact;
use heroquest::engine::{Game, CELL_COUNT};
use heroquest::game::{
    Cell, Door, GamePhase, HealingPotionUse, Inventory, PotionKind, RuleError, Unit, UnitId,
};
use heroquest::model::{Faction, FigureKind, HeroKind, MonsterKind, Pos, Stats};
use heroquest::quest::ObjectiveDef;

fn open_board() -> Vec<Cell> {
    vec![
        Cell {
            passable: true,
            region: 1,
            revealed: true,
        };
        CELL_COUNT
    ]
}

fn figure(id: UnitId, name: &str, figure: FigureKind, faction: Faction, pos: Pos, stats: Stats) -> Unit {
    let inventory = match figure {
        FigureKind::Hero(kind) => Inventory::for_hero(kind),
        FigureKind::Monster(_) => Inventory::default(),
    };
    Unit {
        id,
        name: name.to_owned(),
        figure,
        physical_figure: Some(figure),
        faction,
        model_variant: None,
        pos,
        stats,
        body: stats.body as i16,
        alive: true,
        in_pit: false,
        inventory,
        carried_quest_item: None,
        dormant: false,
        invulnerable_until_acts: false,
        equipment_available: true,
        spellcasting_available: true,
        escaped: false,
        chaos_spells: Vec::new(),
        discarded_chaos_spells: Vec::new(),
        hero_spells: Vec::new(),
        discarded_hero_spells: Vec::new(),
        spell_ring_spell: None,
        spell_ring_casts_left: 0,
        escape_target: None,
        immune_to_fire_spells: false,
        fearful: false,
        sleeping: false,
        clouded: false,
        hero_sleep_caster: None,
        skip_turns: 0,
        petrified_turns: 0,
        diagonal_attack: false,
        hidden_until_activated: false,
        immune_except_spirit_blade: false,
        champion: false,
        commanded: false,
        swift_wind: false,
        courage: false,
        rock_skin: false,
        pass_through_rock: false,
        veil_of_mist: false,
        potion_defense_bonus: 0,
    }
}

fn hero(id: UnitId, kind: HeroKind, pos: Pos) -> Unit {
    let (name, attack, defend, body, mind) = match kind {
        HeroKind::Barbarian => ("Barbarian", 3, 2, 8, 2),
        HeroKind::Dwarf => ("Dwarf", 2, 2, 7, 3),
        HeroKind::Elf => ("Elf", 2, 2, 6, 4),
        HeroKind::Wizard => ("Wizard", 1, 2, 4, 6),
    };
    figure(
        id,
        name,
        FigureKind::Hero(kind),
        Faction::Hero,
        pos,
        Stats {
            movement: 2,
            attack,
            defend,
            body,
            mind,
        },
    )
}

fn monster(id: UnitId, kind: MonsterKind, name: &str, pos: Pos) -> Unit {
    figure(
        id,
        name,
        FigureKind::Monster(kind),
        Faction::Monster,
        pos,
        Stats {
            movement: 8,
            attack: 3,
            defend: 2,
            body: 1,
            mind: 2,
        },
    )
}

fn closed_door(a: Pos, b: Pos) -> Door {
    Door {
        a,
        b,
        open: false,
        secret: false,
        discovered: true,
        searchable: false,
        false_door: false,
    }
}

fn build(
    cells: Vec<Cell>,
    doors: Vec<Door>,
    units: Vec<Unit>,
    hero_order: Vec<UnitId>,
    stairs: Vec<Pos>,
    objective: ObjectiveDef,
) -> Game {
    Game::from_layout(
        "The Trial".to_owned(),
        "A test of courage.".to_owned(),
        cells,
        doors,
        units,
        Vec::new(),
        Vec::new(),
        hero_order,
        stairs,
        objective,
        Vec::new(),
        MonsterKind::Orc,
        7,
    )
    .expect("a well-formed layout")
}

/// Four heroes in a row along the top corridor and a named monster.
fn four_heroes(objective: ObjectiveDef) -> Game {
    let units = vec![
        hero(1, HeroKind::Barbarian, Pos::new(2, 2)),
        hero(2, HeroKind::Dwarf, Pos::new(3, 2)),
        hero(3, HeroKind::Elf, Pos::new(4, 2)),
        hero(4, HeroKind::Wizard, Pos::new(5, 2)),
        monster(10, MonsterKind::Orc, "Crypt Warden", Pos::new(12, 10)),
    ];
    build(
        open_board(),
        Vec::new(),
        units,
        vec![1, 2, 3, 4],
        vec![Pos::new(0, 0), Pos::new(1, 0), Pos::new(0, 1), Pos::new(1, 1)],
        objective,
    )
}

fn unit<'a>(game: &'a Game, id: UnitId) -> &'a Unit {
    game.units.iter().find(|unit| unit.id == id).unwrap()
}

fn unit_mut<'a>(game: &'a mut Game, id: UnitId) -> &'a mut Unit {
    game.units.iter_mut().find(|unit| unit.id == id).unwrap()
}

#[test]
fn active_hero_gives_an_exact_potion_card_and_gold_amount_to_another_hero() {
    let mut game = four_heroes(ObjectiveDef::ReachStairs);
    let giver = game.active_hero_id().unwrap();
    let recipient = game.hero_order[1];
    let giver_inventory = &mut unit_mut(&mut game, giver).inventory;
    giver_inventory.potion_of_healing = 1;
    giver_inventory.healing_potion_strengths.push(2);
    giver_inventory.gold = 275;

    game.give_active_potion(recipient, PotionKind::Healing).unwrap();
    game.give_active_gold(recipient, 125).unwrap();

    let giver_inventory = &game.unit(giver).unwrap().inventory;
    assert_eq!(giver_inventory.potion_of_healing, 0);
    assert_eq!(giver_inventory.gold, 150);
    let recipient_inventory = &game.unit(recipient).unwrap().inventory;
    assert_eq!(recipient_inventory.potion_of_healing, 1);
    assert_eq!(recipient_inventory.healing_potion_strengths, vec![2]);
    assert_eq!(recipient_inventory.gold, 125);

    game.phase = GamePhase::ZargonTurn;
    assert_eq!(
        game.give_active_gold(recipient, 1).unwrap_err(),
        RuleError::NotHeroTurn
    );
}

#[test]
fn gifts_are_refused_for_the_wrong_receiver_amount_or_potion() {
    let mut game = four_heroes(ObjectiveDef::ReachStairs);
    unit_mut(&mut game, 1).inventory.gold = 50;
    assert_eq!(game.living_other_heroes(), vec![2, 3, 4]);
    assert_eq!(
        game.give_active_gold(1, 10).unwrap_err(),
        RuleError::NoGiftRecipient
    );
    unit_mut(&mut game, 3).alive = false;
    assert_eq!(game.living_other_heroes(), vec![2, 4]);
    assert_eq!(
        game.give_active_gold(3, 10).unwrap_err(),
        RuleError::NoGiftRecipient
    );
    assert_eq!(
        game.give_active_gold(2, 0).unwrap_err(),
        RuleError::InvalidGoldTransfer
    );
    assert_eq!(
        game.give_active_gold(2, 51).unwrap_err(),
        RuleError::InvalidGoldTransfer
    );
    assert_eq!(
        game.give_active_potion(2, PotionKind::Strength).unwrap_err(),
        RuleError::NoPotionToGive
    );
    unit_mut(&mut game, 1).equipment_available = false;
    assert_eq!(
        game.give_active_gold(2, 10).unwrap_err(),
        RuleError::EquipmentUnavailable
    );
    unit_mut(&mut game, 1).equipment_available = true;
    unit_mut(&mut game, 1).sleeping = true;
    assert_eq!(
        game.give_active_gold(2, 10).unwrap_err(),
        RuleError::Incapacitated
    );
}

#[test]
fn a_full_purse_keeps_its_limit_when_gold_is_given() {
    let mut game = four_heroes(ObjectiveDef::ReachStairs);
    unit_mut(&mut game, 1).inventory.gold = 100;
    unit_mut(&mut game, 2).inventory.gold = u16::MAX - 30;
    game.give_active_gold(2, 100).unwrap();
    assert_eq!(unit(&game, 1).inventory.gold, 0);
    assert_eq!(unit(&game, 2).inventory.gold, u16::MAX);
}

#[test]
fn healing_potion_restores_its_recorded_strength_up_to_the_printed_body() {
    let mut game = four_heroes(ObjectiveDef::ReachStairs);
    let hero = unit_mut(&mut game, 1);
    hero.body = 3;
    hero.inventory.potion_of_healing = 2;
    hero.inventory.healing_potion_strengths = vec![0, 4];
    assert_eq!(
        game.begin_active_healing_potion().unwrap(),
        HealingPotionUse::Restored { hero: 1, body: 4 }
    );
    assert_eq!(unit(&game, 1).body, 7);
    assert_eq!(unit(&game, 1).inventory.potion_of_healing, 1);
    assert_eq!(
        game.begin_active_healing_potion().unwrap(),
        HealingPotionUse::RollRedDie { hero: 1 }
    );
    assert_eq!(game.pending_healing_potion_roll, Some(1));
    assert_eq!(
        game.resolve_healing_potion_roll(2, 3).unwrap_err(),
        RuleError::StaleHealingPotionRoll
    );
    assert_eq!(
        game.resolve_healing_potion_roll(1, 7).unwrap_err(),
        RuleError::InvalidDice
    );
    assert_eq!(game.resolve_healing_potion_roll(1, 5).unwrap(), 1);
    assert_eq!(unit(&game, 1).body, 8);
    assert_eq!(game.pending_healing_potion_roll, None);
    assert_eq!(
        game.begin_active_healing_potion().unwrap_err(),
        RuleError::FullBody
    );
    unit_mut(&mut game, 1).body = 2;
    assert_eq!(
        game.begin_active_healing_potion().unwrap_err(),
        RuleError::NoHealingPotion
    );
}

#[test]
fn the_convenience_healing_potion_rolls_its_own_die() {
    let mut game = four_heroes(ObjectiveDef::ReachStairs);
    let hero = unit_mut(&mut game, 1);
    hero.body = 1;
    hero.inventory.potion_of_healing = 1;
    let restored = game.use_healing_potion().unwrap();
    assert!((1..=6).contains(&restored));
    assert_eq!(unit(&game, 1).body, 1 + restored as i16);
    assert_eq!(game.pending_healing_potion_roll, None);
}

#[test]
fn purple_liquid_turns_the_drinker_to_stone_for_five_turns() {
    let mut game = four_heroes(ObjectiveDef::ReachStairs);
    assert_eq!(
        game.use_petrification_potion().unwrap_err(),
        RuleError::NoPetrificationPotion
    );
    unit_mut(&mut game, 1).inventory.petrification_potion = 1;
    game.use_petrification_potion().unwrap();
    assert_eq!(unit(&game, 1).petrified_turns, 5);
    assert_eq!(unit(&game, 1).inventory.petrification_potion, 0);
    assert_eq!(unit(&game, 1).effective_defense_dice(), 0);
    assert!(game.hero_turn.action_used);
    assert_eq!(game.hero_turn.movement_left, 0);
    assert_eq!(
        game.use_petrification_potion().unwrap_err(),
        RuleError::Incapacitated
    );
}

#[test]
fn defense_potion_adds_two_dice_to_the_next_defense() {
    let mut game = four_heroes(ObjectiveDef::ReachStairs);
    assert_eq!(
        game.drink_active_potion_of_defense().unwrap_err(),
        RuleError::NoPotionOfDefense
    );
    unit_mut(&mut game, 2).inventory.potion_of_defense = 1;
    game.drink_potion_of_defense_for(2).unwrap();
    assert_eq!(unit(&game, 2).potion_defense_bonus, 2);
    assert_eq!(unit(&game, 2).effective_defense_dice(), 4);
    assert_eq!(
        game.drink_potion_of_defense_for(10).unwrap_err(),
        RuleError::NoPotionOfDefense
    );
}

#[test]
fn heroic_brew_and_strength_potion_prepare_the_next_attack() {
    let mut game = four_heroes(ObjectiveDef::DefeatAll);
    let hero = unit_mut(&mut game, 1);
    hero.pos = Pos::new(10, 10);
    hero.inventory.heroic_brew = 1;
    hero.inventory.potion_of_strength = 1;
    assert_eq!(game.drink_heroic_brew().unwrap_err(), RuleError::NoTarget);
    let monster = unit_mut(&mut game, 10);
    monster.pos = Pos::new(11, 10);
    monster.body = 9;
    game.drink_heroic_brew().unwrap();
    assert!(game.hero_turn.heroic_brew_ready);
    assert_eq!(
        game.drink_heroic_brew().unwrap_err(),
        RuleError::NoHeroicBrew
    );
    game.drink_potion_of_strength().unwrap();
    assert_eq!(game.hero_turn.potion_strength_bonus, 2);
    let first = game.active_attack_plan().unwrap();
    assert_eq!(first.attack_dice, 5);
    assert_eq!(
        game.drink_potion_of_strength().unwrap_err(),
        RuleError::NoPotionOfStrength
    );
}

#[test]
fn castle_of_mystery_mine_gold_blocks_combat_and_vanishes_at_quest_end() {
    let mut game = four_heroes(ObjectiveDef::DefeatAllOrEscapeIndependently);
    let mine = Pos::new(14, 4);
    game.cells[Game::cell_index(mine)].region = 9;
    game.mine_region = Some(9);
    game.mine_gold_amount = 5_000;
    let hero = game.hero_order[0];
    assert!(!game.can_take_fools_gold());
    assert_eq!(game.take_fools_gold().unwrap_err(), RuleError::NotAtMine);
    unit_mut(&mut game, hero).pos = mine;
    unit_mut(&mut game, 10).pos = Pos::new(15, 4);
    assert!(game.can_take_fools_gold());
    assert_eq!(game.take_fools_gold().unwrap(), 5_000);
    assert_eq!(game.unit(hero).unwrap().inventory.gold, 0);
    assert_eq!(game.unit(hero).unwrap().inventory.fools_gold, 5_000);
    assert_eq!(game.unit(hero).unwrap().effective_defense_dice(), 0);
    assert_eq!(
        game.active_attack_plan().unwrap_err(),
        RuleError::CarryingFoolsGold
    );
    assert_eq!(
        game.take_fools_gold().unwrap_err(),
        RuleError::AlreadyCarryingFoolsGold
    );
    assert_eq!(game.drop_fools_gold().unwrap(), 5_000);
    assert_eq!(game.unit(hero).unwrap().inventory.fools_gold, 0);
    assert_eq!(
        game.drop_fools_gold().unwrap_err(),
        RuleError::NotCarryingFoolsGold
    );
    game.take_fools_gold().unwrap();

    for monster in game
        .units
        .iter_mut()
        .filter(|unit| unit.faction == Faction::Monster)
    {
        monster.alive = false;
        monster.body = 0;
    }
    game.check_terminal();
    assert_eq!(game.phase, GamePhase::Won);
    assert_eq!(game.unit(hero).unwrap().inventory.fools_gold, 0);
    assert_eq!(game.unit(hero).unwrap().inventory.gold, 0);
}

#[test]
fn voluntary_retreat_requires_every_survivor_on_stairs_and_awards_nothing() {
    let mut game = four_heroes(ObjectiveDef::ReachStairs);
    let stair = game.stairs[0];
    let heroes = game.hero_order.clone();
    for &hero in &heroes {
        let unit = unit_mut(&mut game, hero);
        unit.pos = stair;
        unit.inventory.gold += 37;
    }
    let party_gold_before = heroes
        .iter()
        .map(|&hero| u32::from(game.unit(hero).unwrap().inventory.gold))
        .sum::<u32>();

    let missing = heroes[1];
    unit_mut(&mut game, missing).pos = Pos::new(20, 10);
    assert!(!game.can_voluntarily_retreat());
    assert_eq!(
        game.voluntarily_retreat().unwrap_err().message(),
        "every surviving Hero must return to the stairway before ending the quest"
    );

    unit_mut(&mut game, missing).pos = stair;
    assert!(game.can_voluntarily_retreat());
    game.voluntarily_retreat().unwrap();
    assert_eq!(game.phase, GamePhase::Retreated);
    assert_eq!(
        heroes
            .iter()
            .map(|&hero| u32::from(game.unit(hero).unwrap().inventory.gold))
            .sum::<u32>(),
        party_gold_before
    );
    assert!(game
        .log
        .back()
        .unwrap()
        .contains("no completion or final reward"));
}

#[test]
fn owned_potions_are_listed_in_card_order() {
    let mut game = four_heroes(ObjectiveDef::ReachStairs);
    assert!(game.active_owned_potion_kinds().is_empty());
    let hero = unit_mut(&mut game, 1);
    hero.inventory.petrification_potion = 1;
    hero.inventory.heroic_brew = 2;
    hero.inventory.potion_of_healing = 1;
    assert_eq!(
        game.active_owned_potion_kinds(),
        vec![
            PotionKind::HeroicBrew,
            PotionKind::Healing,
            PotionKind::Petrification
        ]
    );
}

#[test]
fn the_elixir_of_life_lists_the_fallen_heroes_only_for_its_owner() {
    let mut game = four_heroes(ObjectiveDef::ReachStairs);
    unit_mut(&mut game, 3).alive = false;
    assert!(game.elixir_of_life_targets().is_empty());
    unit_mut(&mut game, 1)
        .inventory
        .artifacts
        .push(Artifact::ElixirOfLife);
    assert_eq!(game.elixir_of_life_targets(), vec![3]);
    unit_mut(&mut game, 4).escaped = true;
    unit_mut(&mut game, 4).alive = false;
    assert_eq!(game.elixir_of_life_targets(), vec![3]);
}

#[test]
fn gifts_and_potions_log_who_did_what() {
    let mut game = four_heroes(ObjectiveDef::ReachStairs);
    let giver = game.active_hero_id().unwrap();
    let recipient = game.hero_order[1];
    let giver_inventory = &mut unit_mut(&mut game, giver).inventory;
    giver_inventory.potion_of_healing = 1;
    giver_inventory.healing_potion_strengths.push(2);
    giver_inventory.potion_of_defense = 1;
    giver_inventory.gold = 275;

    game.give_active_potion(recipient, PotionKind::Healing).unwrap();
    assert_eq!(
        game.log.back().unwrap(),
        "Barbarian gave Potion of Healing to Dwarf."
    );
    game.give_active_gold(recipient, 125).unwrap();
    assert_eq!(
        game.log.back().unwrap(),
        "Barbarian gave 125 gold coins to Dwarf."
    );
    game.drink_potion_of_defense_for(giver).unwrap();
    assert_eq!(
        game.log.back().unwrap(),
        "Barbarian drank a Potion of Defense; the next defense gains two combat dice."
    );
}
