use heroquest::engine::{Game, CELL_COUNT};
use heroquest::cards::HeroSpell;
use heroquest::game::{
    Cell, CombatOutcome, Door, GamePhase, HeroSpellCast, HeroSpellDiceKind, HeroSpellRoll, HeroSpellTarget,
    Inventory, RuleError, Unit, UnitId,
};
use heroquest::model::{CombatFace, Faction, FigureKind, HeroKind, MonsterKind, Pos, Stats};
use heroquest::quest::ObjectiveDef;

fn open_board() -> Vec<Cell> {
    vec![
        Cell {
            passable: true,
            region: 1,
            revealed: true,
        };
        CELL_COUNT
    ]
}

fn figure(id: UnitId, name: &str, figure: FigureKind, faction: Faction, pos: Pos, stats: Stats) -> Unit {
    let inventory = match figure {
        FigureKind::Hero(kind) => Inventory::for_hero(kind),
        FigureKind::Monster(_) => Inventory::default(),
    };
    Unit {
        id,
        name: name.to_owned(),
        figure,
        physical_figure: Some(figure),
        faction,
        model_variant: None,
        pos,
        stats,
        body: stats.body as i16,
        alive: true,
        in_pit: false,
        inventory,
        carried_quest_item: None,
        dormant: false,
        invulnerable_until_acts: false,
        equipment_available: true,
        spellcasting_available: true,
        escaped: false,
        chaos_spells: Vec::new(),
        discarded_chaos_spells: Vec::new(),
        hero_spells: Vec::new(),
        discarded_hero_spells: Vec::new(),
        spell_ring_spell: None,
        spell_ring_casts_left: 0,
        escape_target: None,
        immune_to_fire_spells: false,
        fearful: false,
        sleeping: false,
        clouded: false,
        hero_sleep_caster: None,
        skip_turns: 0,
        petrified_turns: 0,
        diagonal_attack: false,
        hidden_until_activated: false,
        immune_except_spirit_blade: false,
        champion: false,
        commanded: false,
        swift_wind: false,
        courage: false,
        rock_skin: false,
        pass_through_rock: false,
        veil_of_mist: false,
        potion_defense_bonus: 0,
    }
}

fn hero(id: UnitId, kind: HeroKind, pos: Pos) -> Unit {
    let (name, attack, defend, body, mind) = match kind {
        HeroKind::Barbarian => ("Barbarian", 3, 2, 8, 2),
        HeroKind::Dwarf => ("Dwarf", 2, 2, 7, 3),
        HeroKind::Elf => ("Elf", 2, 2, 6, 4),
        HeroKind::Wizard => ("Wizard", 1, 2, 4, 6),
    };
    figure(
        id,
        name,
        FigureKind::Hero(kind),
        Faction::Hero,
        pos,
        Stats {
            movement: 2,
            attack,
            defend,
            body,
            mind,
        },
    )
}

fn monster(id: UnitId, kind: MonsterKind, name: &str, pos: Pos) -> Unit {
    figure(
        id,
        name,
        FigureKind::Monster(kind),
        Faction::Monster,
        pos,
        Stats {
            movement: 8,
            attack: 3,
            defend: 2,
            body: 1,
            mind: 2,
        },
    )
}

fn closed_door(a: Pos, b: Pos) -> Door {
    Door {
        a,
        b,
        open: false,
        secret: false,
        discovered: true,
        searchable: false,
        false_door: false,
    }
}

fn build(
    cells: Vec<Cell>,
    doors: Vec<Door>,
    units: Vec<Unit>,
    hero_order: Vec<UnitId>,
    stairs: Vec<Pos>,
    objective: ObjectiveDef,
) -> Game {
    Game::from_layout(
        "The Trial".to_owned(),
        "A test of courage.".to_owned(),
        cells,
        doors,
        units,
        Vec::new(),
        Vec::new(),
        hero_order,
        stairs,
        objective,
        Vec::new(),
        MonsterKind::Orc,
        7,
    )
    .expect("a well-formed layout")
}

/// Four heroes in a row along the top corridor and a named monster.
fn four_heroes(objective: ObjectiveDef) -> Game {
    let units = vec![
        hero(1, HeroKind::Barbarian, Pos::new(2, 2)),
        hero(2, HeroKind::Dwarf, Pos::new(3, 2)),
        hero(3, HeroKind::Elf, Pos::new(4, 2)),
        hero(4, HeroKind::Wizard, Pos::new(5, 2)),
        monster(10, MonsterKind::Orc, "Crypt Warden", Pos::new(12, 10)),
    ];
    build(
        open_board(),
        Vec::new(),
        units,
        vec![1, 2, 3, 4],
        vec![Pos::new(0, 0), Pos::new(1, 0), Pos::new(0, 1), Pos::new(1, 1)],
        objective,
    )
}

fn unit<'a>(game: &'a Game, id: UnitId) -> &'a Unit {
    game.units.iter().find(|unit| unit.id == id).unwrap()
}

fn unit_mut<'a>(game: &'a mut Game, id: UnitId) -> &'a mut Unit {
    game.units.iter_mut().find(|unit| unit.id == id).unwrap()
}

/// The Wizard's turn, with `spells` in hand.
fn wizard_casting(spells: Vec<HeroSpell>) -> Game {
    let mut game = four_heroes(ObjectiveDef::ReachStairs);
    game.phase = GamePhase::HeroTurn { order_index: 3 };
    unit_mut(&mut game, 4).hero_spells = spells;
    game
}

#[test]
fn heal_body_restores_up_to_four_body_points_and_discards_the_card() {
    let mut game = wizard_casting(vec![HeroSpell::HealBody, HeroSpell::Sleep]);
    unit_mut(&mut game, 3).body = 3;
    assert_eq!(
        game.cast_active_hero_spell(HeroSpell::HealBody, HeroSpellTarget::Unit(3)),
        Ok(HeroSpellCast::Resolved)
    );
    assert_eq!(unit(&game, 3).body, 6);
    assert_eq!(unit(&game, 4).hero_spells, vec![HeroSpell::Sleep]);
    assert_eq!(unit(&game, 4).discarded_hero_spells, vec![HeroSpell::HealBody]);
    assert!(game.hero_turn.action_used);
    assert_eq!(
        game.log.back().unwrap(),
        "Wizard cast Heal Body on Elf, restoring 3 Body Points."
    );
    assert_eq!(
        game.cast_active_hero_spell(HeroSpell::Sleep, HeroSpellTarget::Unit(10)),
        Err(RuleError::AlreadyActed)
    );
}

#[test]
fn sleep_waits_for_as_many_red_dice_as_the_target_has_mind() {
    let mut game = wizard_casting(vec![HeroSpell::Sleep]);
    unit_mut(&mut game, 10).pos = Pos::new(8, 2);
    let roll = HeroSpellRoll {
        caster: 4,
        target: 10,
        spell: HeroSpell::Sleep,
        dice_count: 2,
        kind: HeroSpellDiceKind::Red,
    };
    assert_eq!(
        game.cast_active_hero_spell(HeroSpell::Sleep, HeroSpellTarget::Unit(10)),
        Ok(HeroSpellCast::Roll(roll))
    );
    assert!(unit(&game, 10).sleeping);
    assert_eq!(unit(&game, 10).hero_sleep_caster, Some(4));
    assert_eq!(game.pending_hero_spell_roll, Some(roll));
    assert!(unit(&game, 4).hero_spells.is_empty());
    assert_eq!(
        game.log.back().unwrap(),
        "Wizard cast Sleep on Crypt Warden; 2 physical red dice must resolve the spell."
    );
    assert_eq!(
        game.cast_active_hero_spell(HeroSpell::Sleep, HeroSpellTarget::Unit(10)),
        Err(RuleError::HeroSpellRollPending)
    );
}

#[test]
fn genie_flings_a_shut_door_open() {
    let mut game = wizard_casting(vec![HeroSpell::Genie]);
    game.doors = vec![closed_door(Pos::new(6, 6), Pos::new(6, 7))];
    assert_eq!(
        game.cast_active_hero_spell(HeroSpell::Genie, HeroSpellTarget::Door(0)),
        Ok(HeroSpellCast::Resolved)
    );
    assert!(game.doors[0].open);
    assert_eq!(unit(&game, 4).discarded_hero_spells, vec![HeroSpell::Genie]);
    assert_eq!(
        game.log.back().unwrap(),
        "Wizard cast Genie; the door at 7,7 - 7,8 flew open."
    );
}

#[test]
fn a_spell_not_in_hand_or_at_a_figure_it_cannot_help_is_refused() {
    let mut game = wizard_casting(vec![HeroSpell::HealBody]);
    let before_spells = unit(&game, 4).hero_spells.clone();
    assert_eq!(
        game.cast_active_hero_spell(HeroSpell::Tempest, HeroSpellTarget::Unit(10)),
        Err(RuleError::NoHeroSpell)
    );
    assert_eq!(
        game.cast_active_hero_spell(HeroSpell::HealBody, HeroSpellTarget::Unit(3)),
        Err(RuleError::InvalidHeroSpellTarget)
    );
    assert_eq!(unit(&game, 4).hero_spells, before_spells);
    assert!(!game.hero_turn.action_used);
    unit_mut(&mut game, 4).spellcasting_available = false;
    assert_eq!(
        game.cast_active_hero_spell(HeroSpell::HealBody, HeroSpellTarget::Unit(3)),
        Err(RuleError::SpellcastingUnavailable)
    );
}

#[test]
fn a_spell_cast_after_moving_ends_the_movement() {
    let mut game = wizard_casting(vec![HeroSpell::Courage]);
    game.hero_turn.moved_steps = 1;
    game.hero_turn.movement_left = 3;
    unit_mut(&mut game, 10).pos = Pos::new(4, 5);
    assert_eq!(
        game.cast_active_hero_spell(HeroSpell::Courage, HeroSpellTarget::Unit(3)),
        Ok(HeroSpellCast::Resolved)
    );
    assert!(unit(&game, 3).courage);
    assert_eq!(game.hero_turn.movement_left, 0);
}

#[test]
fn sleep_holds_its_target_unless_a_six_is_thrown() {
    let mut game = wizard_casting(vec![HeroSpell::Sleep]);
    unit_mut(&mut game, 10).pos = Pos::new(8, 2);
    let roll = match game.cast_active_hero_spell(HeroSpell::Sleep, HeroSpellTarget::Unit(10)) {
        Ok(HeroSpellCast::Roll(roll)) => roll,
        other => panic!("unexpected cast {:?}", other),
    };
    assert_eq!(game.resolve_hero_spell_red_roll(roll, &[1]), Err(RuleError::InvalidDice));
    assert_eq!(game.resolve_hero_spell_red_roll(roll, &[1, 2]), Ok(()));
    assert!(unit(&game, 10).sleeping);
    assert_eq!(game.pending_hero_spell_roll, None);
    assert_eq!(game.log.back().unwrap(), "Wizard's Sleep spell sent Crypt Warden.");
    assert_eq!(game.resolve_hero_spell_red_roll(roll, &[1, 2]), Err(RuleError::StaleHeroSpellRoll));
}

#[test]
fn a_six_breaks_a_heros_sleep_at_once() {
    let mut game = wizard_casting(vec![HeroSpell::Sleep]);
    unit_mut(&mut game, 10).pos = Pos::new(8, 2);
    let roll = match game.cast_active_hero_spell(HeroSpell::Sleep, HeroSpellTarget::Unit(10)) {
        Ok(HeroSpellCast::Roll(roll)) => roll,
        other => panic!("unexpected cast {:?}", other),
    };
    assert_eq!(game.resolve_hero_spell_red_roll(roll, &[6, 2]), Ok(()));
    assert!(!unit(&game, 10).sleeping);
    assert_eq!(unit(&game, 10).hero_sleep_caster, None);
    assert_eq!(game.log.back().unwrap(), "Wizard's Sleep spell was broken immediately by Crypt Warden.");
}

#[test]
fn ball_of_flame_costs_two_body_points_less_one_per_five_or_six() {
    let mut game = wizard_casting(vec![HeroSpell::BallOfFlame]);
    unit_mut(&mut game, 10).pos = Pos::new(8, 2);
    unit_mut(&mut game, 10).body = 3;
    unit_mut(&mut game, 10).stats.body = 3;
    let roll = match game.cast_active_hero_spell(HeroSpell::BallOfFlame, HeroSpellTarget::Unit(10)) {
        Ok(HeroSpellCast::Roll(roll)) => roll,
        other => panic!("unexpected cast {:?}", other),
    };
    assert_eq!(roll.dice_count, 2);
    assert_eq!(game.resolve_hero_spell_red_roll(roll, &[5, 1]), Ok(()));
    assert_eq!(unit(&game, 10).body, 2);
    assert!(game.log.iter().any(|line| line == "Crypt Warden rolled 1 Ball of Flame saves and suffered 1 Body Points."));
}

#[test]
fn the_genies_skulls_beyond_black_shields_wound_its_target() {
    let mut game = wizard_casting(vec![HeroSpell::Genie]);
    unit_mut(&mut game, 10).pos = Pos::new(8, 2);
    unit_mut(&mut game, 10).body = 3;
    unit_mut(&mut game, 10).stats.body = 3;
    let roll = match game.cast_active_hero_spell(HeroSpell::Genie, HeroSpellTarget::Unit(10)) {
        Ok(HeroSpellCast::Roll(roll)) => roll,
        other => panic!("unexpected cast {:?}", other),
    };
    assert_eq!(roll.kind, HeroSpellDiceKind::Combat { attack_dice: 5, defend_dice: 2 });
    let attack = [
        CombatFace::Skull,
        CombatFace::Skull,
        CombatFace::Skull,
        CombatFace::WhiteShield,
        CombatFace::BlackShield,
    ];
    let defend = [CombatFace::BlackShield, CombatFace::WhiteShield];
    assert_eq!(
        game.resolve_hero_spell_combat_roll(roll, &attack[..4], &defend),
        Err(RuleError::InvalidDice)
    );
    assert_eq!(
        game.resolve_hero_spell_combat_roll(roll, &attack, &defend),
        Ok(CombatOutcome { skulls: 3, blocks: 1, damage: 2, defender_died: false })
    );
    assert_eq!(unit(&game, 10).body, 1);
    assert_eq!(game.pending_hero_spell_roll, None);
}
