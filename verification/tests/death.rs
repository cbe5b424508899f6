use heroquest::engine::{Game, CELL_COUNT};
use heroquest::cards::{Artifact, HeroSpell};
use heroquest::equipment::{Armor, Weapon};
use heroquest::game::{
    Cell, Door, GamePhase, HealingPotionUse, HeroDeathChoice, Inventory, PendingHeroDeath,
    PendingPossessionPickup, RuleError, Unit, UnitId,
};
use heroquest::model::{Direction, Faction, FigureKind, HeroKind, MonsterKind, Pos, Stats};
use heroquest::quest::ObjectiveDef;

fn open_board() -> Vec<Cell> {
    vec![
        Cell {
            passable: true,
            region: 1,
            revealed: true,
        };
        CELL_COUNT
    ]
}

fn figure(id: UnitId, name: &str, figure: FigureKind, faction: Faction, pos: Pos, stats: Stats) -> Unit {
    let inventory = match figure {
        FigureKind::Hero(kind) => Inventory::for_hero(kind),
        FigureKind::Monster(_) => Inventory::default(),
    };
    Unit {
        id,
        name: name.to_owned(),
        figure,
        physical_figure: Some(figure),
        faction,
        model_variant: None,
        pos,
        stats,
        body: stats.body as i16,
        alive: true,
        in_pit: false,
        inventory,
        carried_quest_item: None,
        dormant: false,
        invulnerable_until_acts: false,
        equipment_available: true,
        spellcasting_available: true,
        escaped: false,
        chaos_spells: Vec::new(),
        discarded_chaos_spells: Vec::new(),
        hero_spells: Vec::new(),
        discarded_hero_spells: Vec::new(),
        spell_ring_spell: None,
        spell_ring_casts_left: 0,
        escape_target: None,
        immune_to_fire_spells: false,
        fearful: false,
        sleeping: false,
        clouded: false,
        hero_sleep_caster: None,
        skip_turns: 0,
        petrified_turns: 0,
        diagonal_attack: false,
        hidden_until_activated: false,
        immune_except_spirit_blade: false,
        champion: false,
        commanded: false,
        swift_wind: false,
        courage: false,
        rock_skin: false,
        pass_through_rock: false,
        veil_of_mist: false,
        potion_defense_bonus: 0,
    }
}

fn hero(id: UnitId, kind: HeroKind, pos: Pos) -> Unit {
    let (name, attack, defend, body, mind) = match kind {
        HeroKind::Barbarian => ("Barbarian", 3, 2, 8, 2),
        HeroKind::Dwarf => ("Dwarf", 2, 2, 7, 3),
        HeroKind::Elf => ("Elf", 2, 2, 6, 4),
        HeroKind::Wizard => ("Wizard", 1, 2, 4, 6),
    };
    figure(
        id,
        name,
        FigureKind::Hero(kind),
        Faction::Hero,
        pos,
        Stats {
            movement: 2,
            attack,
            defend,
            body,
            mind,
        },
    )
}

fn monster(id: UnitId, kind: MonsterKind, name: &str, pos: Pos) -> Unit {
    figure(
        id,
        name,
        FigureKind::Monster(kind),
        Faction::Monster,
        pos,
        Stats {
            movement: 8,
            attack: 3,
            defend: 2,
            body: 1,
            mind: 2,
        },
    )
}

fn closed_door(a: Pos, b: Pos) -> Door {
    Door {
        a,
        b,
        open: false,
        secret: false,
        discovered: true,
        searchable: false,
        false_door: false,
    }
}

fn build(
    cells: Vec<Cell>,
    doors: Vec<Door>,
    units: Vec<Unit>,
    hero_order: Vec<UnitId>,
    stairs: Vec<Pos>,
    objective: ObjectiveDef,
) -> Game {
    Game::from_layout(
        "The Trial".to_owned(),
        "A test of courage.".to_owned(),
        cells,
        doors,
        units,
        Vec::new(),
        Vec::new(),
        hero_order,
        stairs,
        objective,
        Vec::new(),
        MonsterKind::Orc,
        7,
    )
    .expect("a well-formed layout")
}

/// Four heroes in a row along the top corridor and a named monster.
fn four_heroes(objective: ObjectiveDef) -> Game {
    let units = vec![
        hero(1, HeroKind::Barbarian, Pos::new(2, 2)),
        hero(2, HeroKind::Dwarf, Pos::new(3, 2)),
        hero(3, HeroKind::Elf, Pos::new(4, 2)),
        hero(4, HeroKind::Wizard, Pos::new(5, 2)),
        monster(10, MonsterKind::Orc, "Crypt Warden", Pos::new(12, 10)),
    ];
    build(
        open_board(),
        Vec::new(),
        units,
        vec![1, 2, 3, 4],
        vec![Pos::new(0, 0), Pos::new(1, 0), Pos::new(0, 1), Pos::new(1, 1)],
        objective,
    )
}

fn unit<'a>(game: &'a Game, id: UnitId) -> &'a Unit {
    game.units.iter().find(|unit| unit.id == id).unwrap()
}

fn unit_mut<'a>(game: &'a mut Game, id: UnitId) -> &'a mut Unit {
    game.units.iter_mut().find(|unit| unit.id == id).unwrap()
}



#[test]
fn unused_self_healing_spell_saves_a_spellcaster_but_an_used_action_does_not() {
    let mut saved = four_heroes(ObjectiveDef::ReachStairs);
    let wizard = saved.hero_order[3];
    saved.phase = GamePhase::HeroTurn { order_index: 3 };
    let unit = unit_mut(&mut saved, wizard);
    unit.body = 1;
    unit.hero_spells = vec![HeroSpell::HealBody];
    unit.spellcasting_available = true;
    saved.damage_without_defense(wizard, 1);
    assert!(saved
        .pending_hero_death_choices()
        .contains(&HeroDeathChoice::HealBody));
    saved
        .choose_pending_hero_death(HeroDeathChoice::HealBody)
        .unwrap();
    assert_eq!(saved.unit(wizard).unwrap().body, 4);
    assert!(saved.unit(wizard).unwrap().hero_spells.is_empty());
    assert!(saved.hero_turn.action_used);

    let mut acted = four_heroes(ObjectiveDef::ReachStairs);
    let wizard = acted.hero_order[3];
    acted.phase = GamePhase::HeroTurn { order_index: 3 };
    acted.hero_turn.action_used = true;
    let unit = unit_mut(&mut acted, wizard);
    unit.body = 1;
    unit.hero_spells = vec![HeroSpell::WaterOfHealing];
    unit.spellcasting_available = true;
    acted.damage_without_defense(wizard, 1);
    assert!(!acted.unit(wizard).unwrap().alive);
    assert!(acted.pending_hero_death.is_none());
}

#[test]
fn present_hero_receives_every_transferable_possession_from_the_fallen() {
    let mut game = four_heroes(ObjectiveDef::ReachStairs);
    let fallen = game.hero_order[0];
    let recipient = game.hero_order[1];
    let fallen_pos = game.unit(fallen).unwrap().pos;
    let recipient_pos = fallen_pos.offset(Direction::South).unwrap();
    game.cells[Game::cell_index(recipient_pos)].passable = true;
    let region = game.cell(fallen_pos).unwrap().region;
    game.cells[Game::cell_index(recipient_pos)].region = region;
    unit_mut(&mut game, recipient).pos = recipient_pos;
    let unit = unit_mut(&mut game, fallen);
    unit.body = 1;
    unit.inventory.gold = 123;
    unit.inventory.potion_of_strength = 1;
    unit.inventory.artifacts.push(Artifact::TalismanOfLore);
    unit.inventory.weapons.push(Weapon::Longsword);

    game.damage_without_defense(fallen, 1);
    let pickup = game.pending_possession_pickup.clone().unwrap();
    assert!(pickup.eligible_heroes.contains(&recipient));
    game.choose_possession_recipient(recipient).unwrap();

    let inventory = &game.unit(recipient).unwrap().inventory;
    assert_eq!(inventory.gold, 123);
    assert_eq!(inventory.potion_of_strength, 1);
    assert!(inventory.artifacts.contains(&Artifact::TalismanOfLore));
    assert!(inventory.weapons.contains(&Weapon::Longsword));
    assert_eq!(game.unit(fallen).unwrap().inventory, Inventory::default());
}

#[test]
fn monster_claims_and_removes_possessions_when_no_other_hero_is_present() {
    let mut game = four_heroes(ObjectiveDef::ReachStairs);
    let fallen = game.hero_order[0];
    let pos = game.unit(fallen).unwrap().pos;
    let others: Vec<UnitId> = game.hero_order[1..].to_vec();
    for hero in others {
        unit_mut(&mut game, hero).escaped = true;
    }
    let monster = game
        .units
        .iter_mut()
        .find(|unit| unit.faction == Faction::Monster)
        .unwrap();
    monster.pos = pos;
    monster.dormant = false;
    monster.hidden_until_activated = false;
    let unit = unit_mut(&mut game, fallen);
    unit.body = 1;
    unit.inventory.gold = 400;
    unit.inventory.armor.push(Armor::Helmet);
    unit.inventory.artifacts.push(Artifact::SpiritBlade);

    game.damage_without_defense(fallen, 1);

    assert!(!game.unit(fallen).unwrap().alive);
    assert_eq!(game.unit(fallen).unwrap().inventory, Inventory::default());
    assert!(game.pending_possession_pickup.is_none());
    assert_eq!(game.monster_stolen_artifacts, [Artifact::SpiritBlade]);
    assert!(game
        .log
        .iter()
        .any(|line| line.contains("claimed the fallen Hero's possessions")));
}

#[test]
fn a_hero_at_zero_body_waits_for_its_choice_and_a_potion_can_save_it() {
    let mut game = four_heroes(ObjectiveDef::ReachStairs);
    let barbarian = game.hero_order[0];
    let unit = unit_mut(&mut game, barbarian);
    unit.body = 2;
    unit.inventory.potion_of_healing = 1;
    unit.inventory.healing_potion_strengths = vec![4];
    game.damage_without_defense(barbarian, 5);
    assert_eq!(game.unit(barbarian).unwrap().body, 0);
    assert!(game.unit(barbarian).unwrap().alive);
    assert_eq!(
        game.pending_hero_death,
        Some(PendingHeroDeath {
            hero: barbarian,
            potion_roll_pending: false
        })
    );
    assert_eq!(
        game.pending_hero_death_choices(),
        vec![HeroDeathChoice::HealingPotion, HeroDeathChoice::AcceptDeath]
    );
    assert_eq!(
        game.log.back().unwrap(),
        "Barbarian reached zero Body Points. Choose an available Potion of Healing or unused healing spell now."
    );
    assert_eq!(
        game.end_hero_turn().unwrap_err(),
        RuleError::HeroDeathDecisionPending
    );
    assert_eq!(
        game.choose_pending_hero_death(HeroDeathChoice::HealBody)
            .unwrap_err(),
        RuleError::InvalidHeroDeathChoice
    );
    let used = game
        .choose_pending_hero_death(HeroDeathChoice::HealingPotion)
        .unwrap();
    assert!(matches!(used, Some(HealingPotionUse::Restored { .. })));
    assert!(game.pending_hero_death.is_none());
    assert!(game.unit(barbarian).unwrap().body > 0);
    assert_eq!(game.unit(barbarian).unwrap().inventory.potion_of_healing, 0);
}

#[test]
fn accepting_death_leaves_the_possessions_to_the_heroes_in_the_room() {
    let mut game = four_heroes(ObjectiveDef::ReachStairs);
    let barbarian = game.hero_order[0];
    unit_mut(&mut game, barbarian).body = 1;
    unit_mut(&mut game, barbarian).inventory.potion_of_healing = 1;
    game.damage_without_defense(barbarian, 1);
    game.choose_pending_hero_death(HeroDeathChoice::AcceptDeath)
        .unwrap();
    let fallen = game.unit(barbarian).unwrap();
    assert!(!fallen.alive);
    assert_eq!(fallen.body, 0);
    assert_eq!(
        game.pending_possession_pickup,
        Some(PendingPossessionPickup {
            dead_hero: barbarian,
            eligible_heroes: vec![2, 3, 4]
        })
    );
    let shown = game.last_combat_visual.unwrap();
    assert_eq!(shown.attacker, barbarian);
    assert!(shown.defender_died);
    assert_eq!(
        game.log.back().unwrap(),
        "Barbarian has fallen and is removed for the rest of the quest."
    );
    assert_eq!(
        game.choose_possession_recipient(10).unwrap_err(),
        RuleError::InvalidPossessionRecipient
    );
    game.choose_possession_recipient(3).unwrap();
    assert_eq!(game.unit(3).unwrap().inventory.potion_of_healing, 1);
    assert!(game.pending_possession_pickup.is_none());
    assert_eq!(
        game.log.back().unwrap(),
        "Elf picked up Barbarian's weapons, armor, artifacts, gold, and potions."
    );
    assert_eq!(
        game.choose_possession_recipient(3).unwrap_err(),
        RuleError::InvalidPossessionRecipient
    );
}

#[test]
fn a_monster_at_zero_body_falls_at_once_and_stone_takes_no_damage() {
    let mut game = four_heroes(ObjectiveDef::ReachStairs);
    game.damage_without_defense(10, 3);
    assert!(!game.unit(10).unwrap().alive);
    assert_eq!(game.unit(10).unwrap().body, 0);

    unit_mut(&mut game, 2).petrified_turns = 3;
    game.damage_without_defense(2, 9);
    assert_eq!(game.unit(2).unwrap().body, 7);
    assert!(game.unit(2).unwrap().alive);

    unit_mut(&mut game, 3).rock_skin = true;
    game.damage_without_defense(3, 2);
    assert_eq!(game.unit(3).unwrap().body, 4);
    assert!(!game.unit(3).unwrap().rock_skin);
}

#[test]
fn possessions_add_up_without_overflowing_their_counts() {
    let mut game = four_heroes(ObjectiveDef::ReachStairs);
    unit_mut(&mut game, 1).alive = false;
    unit_mut(&mut game, 1).inventory.gold = 60000;
    unit_mut(&mut game, 1).inventory.healing_potion_strengths = vec![3];
    unit_mut(&mut game, 2).inventory.gold = 9000;
    unit_mut(&mut game, 2).inventory.healing_potion_strengths = vec![1];
    game.pending_possession_pickup = Some(PendingPossessionPickup {
        dead_hero: 1,
        eligible_heroes: vec![2],
    });
    game.choose_possession_recipient(2).unwrap();
    assert_eq!(game.unit(2).unwrap().inventory.gold, u16::MAX);
    assert_eq!(game.unit(2).unwrap().inventory.healing_potion_strengths, vec![1, 3]);
    assert_eq!(game.unit(1).unwrap().inventory, Inventory::default());
}

#[test]
fn only_an_awake_caster_with_a_free_action_may_cast_its_cards() {
    let mut game = four_heroes(ObjectiveDef::ReachStairs);
    game.phase = GamePhase::HeroTurn { order_index: 3 };
    unit_mut(&mut game, 4).hero_spells = vec![HeroSpell::HealBody, HeroSpell::Sleep];
    assert_eq!(
        game.active_castable_hero_spells(),
        vec![HeroSpell::HealBody, HeroSpell::Sleep]
    );
    game.hero_turn.action_used = true;
    assert!(game.active_castable_hero_spells().is_empty());
    unit_mut(&mut game, 4)
        .inventory
        .artifacts
        .push(Artifact::WandOfMagic);
    game.hero_turn.wand_first_spell = Some(HeroSpell::Sleep);
    assert_eq!(game.active_castable_hero_spells(), vec![HeroSpell::HealBody]);
    game.hero_turn.action_used = false;
    unit_mut(&mut game, 4).sleeping = true;
    assert!(game.active_castable_hero_spells().is_empty());
}

#[test]
fn healing_and_sleep_reach_only_the_figures_they_can_help_or_hold() {
    let mut game = four_heroes(ObjectiveDef::ReachStairs);
    game.phase = GamePhase::HeroTurn { order_index: 3 };
    unit_mut(&mut game, 4).hero_spells = vec![HeroSpell::HealBody, HeroSpell::Sleep, HeroSpell::Genie];
    unit_mut(&mut game, 2).body = 3;
    unit_mut(&mut game, 3).body = 3;
    assert_eq!(
        game.valid_hero_spell_targets(HeroSpell::HealBody),
        vec![heroquest::game::HeroSpellTarget::Unit(3)]
    );
    unit_mut(&mut game, 10).pos = Pos::new(8, 2);
    assert_eq!(
        game.valid_hero_spell_targets(HeroSpell::Sleep),
        vec![heroquest::game::HeroSpellTarget::Unit(10)]
    );
    unit_mut(&mut game, 10).figure = FigureKind::Monster(MonsterKind::Zombie);
    assert!(game.valid_hero_spell_targets(HeroSpell::Sleep).is_empty());
    game.doors = vec![closed_door(Pos::new(6, 6), Pos::new(6, 7))];
    assert_eq!(
        game.valid_hero_spell_targets(HeroSpell::Genie),
        vec![
            heroquest::game::HeroSpellTarget::Unit(10),
            heroquest::game::HeroSpellTarget::Door(0)
        ]
    );
    assert!(game.valid_hero_spell_targets(HeroSpell::Tempest).is_empty());
}

#[test]
fn a_chaos_spell_holding_the_hero_must_be_resisted_with_its_mind() {
    let mut game = four_heroes(ObjectiveDef::ReachStairs);
    assert_eq!(game.pending_hero_spell_resistance(), None);
    unit_mut(&mut game, 1).fearful = true;
    unit_mut(&mut game, 1).sleeping = true;
    assert_eq!(
        game.pending_hero_spell_resistance(),
        Some((1, heroquest::cards::ChaosSpell::Sleep, 2))
    );
    game.hero_turn
        .resolved_chaos_resistances
        .push(heroquest::cards::ChaosSpell::Sleep);
    assert_eq!(
        game.pending_hero_spell_resistance(),
        Some((1, heroquest::cards::ChaosSpell::Fear, 2))
    );
}

#[test]
fn a_spell_ring_is_filled_only_before_the_hero_moves_or_acts() {
    let mut game = four_heroes(ObjectiveDef::ReachStairs);
    game.phase = GamePhase::HeroTurn { order_index: 2 };
    unit_mut(&mut game, 3).hero_spells = vec![HeroSpell::SwiftWind, HeroSpell::Courage];
    assert!(game.spell_ring_storable_spells().is_empty());
    unit_mut(&mut game, 3)
        .inventory
        .artifacts
        .push(Artifact::SpellRing);
    assert_eq!(
        game.spell_ring_storable_spells(),
        vec![HeroSpell::SwiftWind, HeroSpell::Courage]
    );
    game.hero_turn.moved_steps = 1;
    assert!(game.spell_ring_storable_spells().is_empty());
}

#[test]
fn a_spell_stored_in_the_ring_may_be_cast_twice() {
    let mut game = four_heroes(ObjectiveDef::ReachStairs);
    game.phase = GamePhase::HeroTurn { order_index: 2 };
    unit_mut(&mut game, 3).hero_spells = vec![HeroSpell::SwiftWind];
    assert_eq!(game.active_hero_spells(), &[HeroSpell::SwiftWind]);
    assert_eq!(
        game.store_active_spell_in_ring(HeroSpell::SwiftWind).unwrap_err(),
        RuleError::SpellRingUnavailable
    );
    unit_mut(&mut game, 3)
        .inventory
        .artifacts
        .push(Artifact::SpellRing);
    assert_eq!(
        game.store_active_spell_in_ring(HeroSpell::Sleep).unwrap_err(),
        RuleError::InvalidSpellRingSpell
    );
    game.store_active_spell_in_ring(HeroSpell::SwiftWind).unwrap();
    assert_eq!(game.unit(3).unwrap().spell_ring_spell, Some(HeroSpell::SwiftWind));
    assert_eq!(game.unit(3).unwrap().spell_ring_casts_left, 2);
    assert_eq!(
        game.log.back().unwrap(),
        "Elf stored Swift Wind in the Spell Ring; it may be cast twice this Quest."
    );
    game.phase = GamePhase::ZargonTurn;
    assert!(game.active_hero_spells().is_empty());
}

#[test]
fn pending_rolls_and_forced_attacks_are_reported_and_handed_out_once() {
    let mut game = four_heroes(ObjectiveDef::ReachStairs);
    assert_eq!(game.pending_trap_roll(), None);
    assert_eq!(game.pending_teleport_subject(), None);
    assert_eq!(game.pending_collapsing_ceiling_subject(), None);
    game.pending_collapsing_ceiling_roll = Some(2);
    assert_eq!(game.pending_collapsing_ceiling_subject(), Some(2));
    let plan = heroquest::game::AttackPlan {
        attacker: 10,
        defender: 1,
        source: heroquest::game::AttackSource::Natural,
        attack_dice: 3,
        defend_dice: 9,
    };
    game.pending_forced_attack = Some(plan);
    assert_eq!(game.take_pending_forced_attack(), Some(plan));
    assert_eq!(game.take_pending_forced_attack(), None);
}

#[test]
fn refreshed_defence_counts_the_defenders_dice_as_it_now_stands() {
    let mut game = four_heroes(ObjectiveDef::ReachStairs);
    let plan = heroquest::game::AttackPlan {
        attacker: 10,
        defender: 1,
        source: heroquest::game::AttackSource::Natural,
        attack_dice: 3,
        defend_dice: 9,
    };
    let fresh = game.refresh_attack_defense_dice(plan).unwrap();
    let dice = fresh.defend_dice;
    assert_eq!(fresh.attack_dice, 3);
    unit_mut(&mut game, 1).in_pit = true;
    let in_pit = game.refresh_attack_defense_dice(plan).unwrap();
    assert_eq!(in_pit.defend_dice, std::cmp::max(dice - 1, 1));
    let stale = heroquest::game::AttackPlan { defender: 99, ..plan };
    assert_eq!(
        game.refresh_attack_defense_dice(stale).unwrap_err(),
        RuleError::StaleAttack
    );
}

#[test]
fn zero_body_interrupts_play_and_uses_the_heroes_physical_healing_die() {
    let mut game = four_heroes(ObjectiveDef::ReachStairs);
    let hero = game.active_hero_id().unwrap();
    let unit = unit_mut(&mut game, hero);
    unit.body = 1;
    unit.inventory.potion_of_healing = 1;
    unit.inventory.healing_potion_strengths.push(0);

    game.damage_without_defense(hero, 1);
    assert_eq!(game.unit(hero).unwrap().body, 0);
    assert!(game.unit(hero).unwrap().alive);
    assert_eq!(game.pending_hero_death.unwrap().hero, hero);
    assert!(game
        .pending_hero_death_choices()
        .contains(&HeroDeathChoice::HealingPotion));

    assert_eq!(
        game.choose_pending_hero_death(HeroDeathChoice::HealingPotion)
            .unwrap(),
        Some(HealingPotionUse::RollRedDie { hero })
    );
    assert!(game.pending_hero_death.unwrap().potion_roll_pending);
    assert_eq!(game.resolve_healing_potion_roll(hero, 3).unwrap(), 3);
    assert_eq!(game.unit(hero).unwrap().body, 3);
    assert!(game.unit(hero).unwrap().alive);
    assert!(game.pending_hero_death.is_none());
}
