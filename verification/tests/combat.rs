use heroquest::cards::Artifact;
use heroquest::engine::{Game, CELL_COUNT};
use heroquest::equipment::Weapon;
use heroquest::game::{
    AttackPlan, AttackSource, Cell, CombatOutcome, Door, GamePhase, Inventory, QuestEvent,
    QuestTrigger, RuleError, Unit, UnitId,
};
use heroquest::model::{CombatFace, Faction, FigureKind, HeroKind, MonsterKind, Pos, Stats};
use heroquest::quest::{MonsterModelVariant, ObjectiveDef, QuestEffectDef};

fn open_board() -> Vec<Cell> {
    vec![
        Cell {
            passable: true,
            region: 1,
            revealed: true,
        };
        CELL_COUNT
    ]
}

fn figure(id: UnitId, name: &str, figure: FigureKind, faction: Faction, pos: Pos, stats: Stats) -> Unit {
    let inventory = match figure {
        FigureKind::Hero(kind) => Inventory::for_hero(kind),
        FigureKind::Monster(_) => Inventory::default(),
    };
    Unit {
        id,
        name: name.to_owned(),
        figure,
        physical_figure: Some(figure),
        faction,
        model_variant: None,
        pos,
        stats,
        body: stats.body as i16,
        alive: true,
        in_pit: false,
        inventory,
        carried_quest_item: None,
        dormant: false,
        invulnerable_until_acts: false,
        equipment_available: true,
        spellcasting_available: true,
        escaped: false,
        chaos_spells: Vec::new(),
        discarded_chaos_spells: Vec::new(),
        hero_spells: Vec::new(),
        discarded_hero_spells: Vec::new(),
        spell_ring_spell: None,
        spell_ring_casts_left: 0,
        escape_target: None,
        immune_to_fire_spells: false,
        fearful: false,
        sleeping: false,
        clouded: false,
        hero_sleep_caster: None,
        skip_turns: 0,
        petrified_turns: 0,
        diagonal_attack: false,
        hidden_until_activated: false,
        immune_except_spirit_blade: false,
        champion: false,
        commanded: false,
        swift_wind: false,
        courage: false,
        rock_skin: false,
        pass_through_rock: false,
        veil_of_mist: false,
        potion_defense_bonus: 0,
    }
}

fn hero(id: UnitId, kind: HeroKind, pos: Pos) -> Unit {
    let (name, attack, defend, body, mind) = match kind {
        HeroKind::Barbarian => ("Barbarian", 3, 2, 8, 2),
        HeroKind::Dwarf => ("Dwarf", 2, 2, 7, 3),
        HeroKind::Elf => ("Elf", 2, 2, 6, 4),
        HeroKind::Wizard => ("Wizard", 1, 2, 4, 6),
    };
    figure(
        id,
        name,
        FigureKind::Hero(kind),
        Faction::Hero,
        pos,
        Stats {
            movement: 2,
            attack,
            defend,
            body,
            mind,
        },
    )
}

fn monster(id: UnitId, kind: MonsterKind, name: &str, pos: Pos) -> Unit {
    figure(
        id,
        name,
        FigureKind::Monster(kind),
        Faction::Monster,
        pos,
        Stats {
            movement: 8,
            attack: 3,
            defend: 2,
            body: 1,
            mind: 2,
        },
    )
}

fn closed_door(a: Pos, b: Pos) -> Door {
    Door {
        a,
        b,
        open: false,
        secret: false,
        discovered: true,
        searchable: false,
        false_door: false,
    }
}

fn build(
    cells: Vec<Cell>,
    doors: Vec<Door>,
    units: Vec<Unit>,
    hero_order: Vec<UnitId>,
    stairs: Vec<Pos>,
    objective: ObjectiveDef,
) -> Game {
    Game::from_layout(
        "The Trial".to_owned(),
        "A test of courage.".to_owned(),
        cells,
        doors,
        units,
        Vec::new(),
        Vec::new(),
        hero_order,
        stairs,
        objective,
        Vec::new(),
        MonsterKind::Orc,
        7,
    )
    .expect("a well-formed layout")
}

/// Four heroes in a row along the top corridor and a named monster.
fn four_heroes(objective: ObjectiveDef) -> Game {
    let units = vec![
        hero(1, HeroKind::Barbarian, Pos::new(2, 2)),
        hero(2, HeroKind::Dwarf, Pos::new(3, 2)),
        hero(3, HeroKind::Elf, Pos::new(4, 2)),
        hero(4, HeroKind::Wizard, Pos::new(5, 2)),
        monster(10, MonsterKind::Orc, "Crypt Warden", Pos::new(12, 10)),
    ];
    build(
        open_board(),
        Vec::new(),
        units,
        vec![1, 2, 3, 4],
        vec![Pos::new(0, 0), Pos::new(1, 0), Pos::new(0, 1), Pos::new(1, 1)],
        objective,
    )
}

fn unit<'a>(game: &'a Game, id: UnitId) -> &'a Unit {
    game.units.iter().find(|unit| unit.id == id).unwrap()
}

fn unit_mut<'a>(game: &'a mut Game, id: UnitId) -> &'a mut Unit {
    game.units.iter_mut().find(|unit| unit.id == id).unwrap()
}


fn strike(attacker: UnitId, defender: UnitId, source: AttackSource, attack: u8, defend: u8) -> AttackPlan {
    AttackPlan {
        attacker,
        defender,
        source,
        attack_dice: attack,
        defend_dice: defend,
    }
}

/// The Barbarian stands next to the Crypt Warden, which has `body` Body Points.
fn face_to_face(objective: ObjectiveDef, body: i16) -> Game {
    let mut game = four_heroes(objective);
    unit_mut(&mut game, 1).pos = Pos::new(11, 10);
    unit_mut(&mut game, 10).body = body;
    game
}

#[test]
fn defense_potion_refreshes_the_staged_plan_and_expires_after_that_defense() {
    let mut game = four_heroes(ObjectiveDef::ReachStairs);
    let hero = game.active_hero_id().unwrap();
    let monster = game
        .units
        .iter()
        .find(|unit| unit.faction == Faction::Monster)
        .unwrap()
        .id;
    unit_mut(&mut game, hero).pos = Pos::new(10, 10);
    unit_mut(&mut game, hero).inventory.potion_of_defense = 1;
    let monster_unit = unit_mut(&mut game, monster);
    monster_unit.pos = Pos::new(11, 10);
    monster_unit.dormant = false;
    monster_unit.hidden_until_activated = false;
    let base_defense = game.unit(hero).unwrap().effective_defense_dice();
    let stale = AttackPlan {
        attacker: monster,
        defender: hero,
        source: AttackSource::Natural,
        attack_dice: 1,
        defend_dice: base_defense,
    };

    game.drink_potion_of_defense_for(hero).unwrap();
    let refreshed = game.refresh_attack_defense_dice(stale).unwrap();
    assert_eq!(refreshed.defend_dice, base_defense + 2);
    game.resolve_attack(
        refreshed,
        &[CombatFace::WhiteShield],
        &vec![CombatFace::WhiteShield; refreshed.defend_dice as usize],
    )
    .unwrap();
    assert_eq!(game.unit(hero).unwrap().potion_defense_bonus, 0);
    assert_eq!(
        game.unit(hero).unwrap().effective_defense_dice(),
        base_defense
    );
}

#[test]
fn skulls_beyond_the_defenders_shields_wound_it_and_the_blow_is_logged() {
    let mut game = face_to_face(ObjectiveDef::ReachStairs, 4);
    let plan = strike(1, 10, AttackSource::Weapon(Weapon::Broadsword), 3, 2);
    let outcome = game
        .resolve_attack(
            plan,
            &[CombatFace::Skull, CombatFace::Skull, CombatFace::WhiteShield],
            &[CombatFace::BlackShield, CombatFace::WhiteShield],
        )
        .unwrap();
    assert_eq!(
        outcome,
        CombatOutcome {
            skulls: 2,
            blocks: 1,
            damage: 1,
            defender_died: false,
        }
    );
    assert_eq!(unit(&game, 10).body, 3);
    assert!(game.hero_turn.action_used);
    assert_eq!(
        game.log.back().unwrap(),
        "Barbarian attacked Crypt Warden: 2 skulls, 1 blocks, 1 damage."
    );
    let shown = game.last_combat_visual.unwrap();
    assert_eq!(shown.damage, 1);
    assert!(!shown.defender_died);
}

#[test]
fn dice_that_do_not_match_the_plan_and_a_second_action_are_refused() {
    let mut game = face_to_face(ObjectiveDef::ReachStairs, 4);
    let plan = strike(1, 10, AttackSource::Weapon(Weapon::Broadsword), 3, 2);
    assert_eq!(
        game.resolve_attack(plan, &[CombatFace::Skull], &[]).unwrap_err(),
        RuleError::InvalidDice
    );
    let three = [CombatFace::WhiteShield; 3];
    let two = [CombatFace::WhiteShield; 2];
    game.resolve_attack(plan, &three, &two).unwrap();
    assert_eq!(
        game.resolve_attack(plan, &three, &two).unwrap_err(),
        RuleError::StaleAttack
    );
    let missing = strike(1, 99, AttackSource::Natural, 3, 2);
    assert_eq!(
        game.resolve_attack(missing, &three, &two).unwrap_err(),
        RuleError::StaleAttack
    );
}

#[test]
fn a_felled_monster_pays_its_bounty_and_sets_off_its_quest_notes() {
    let mut game = face_to_face(
        ObjectiveDef::DefeatNamed {
            name: "Crypt Warden".to_owned(),
            award_champion_title: false,
        },
        1,
    );
    game.monster_bounties.push((MonsterKind::Orc, 15));
    game.quest_events.push(QuestEvent {
        id: "WARDEN".to_owned(),
        trigger: QuestTrigger::DefeatNamed {
            name: "Crypt Warden".to_owned(),
        },
        effect: QuestEffectDef::ArtifactToKiller {
            artifact: Artifact::OrcsBane,
        },
        message: Some("The Warden's blade is yours.".to_owned()),
        resolved: false,
    });
    let gold = unit(&game, 1).inventory.gold;
    let plan = strike(1, 10, AttackSource::Weapon(Weapon::Broadsword), 1, 0);
    let outcome = game.resolve_attack(plan, &[CombatFace::Skull], &[]).unwrap();
    assert!(outcome.defender_died);
    assert!(!unit(&game, 10).alive);
    assert_eq!(unit(&game, 1).inventory.gold, gold + 15);
    assert!(unit(&game, 1).inventory.artifacts.contains(&Artifact::OrcsBane));
    assert!(game.quest_events[0].resolved);
    assert!(game
        .log
        .iter()
        .any(|line| line == "Barbarian earned the Emperor's 15-gold bounty for defeating a Orc."));
    assert!(game
        .log
        .iter()
        .any(|line| line == "Barbarian attacked Crypt Warden: 1 skulls, 0 blocks, 1 damage — defeated."));
    assert!(game.log.iter().any(|line| line == "The Warden's blade is yours."));
    assert_eq!(game.phase, GamePhase::Won);
}

#[test]
fn a_thrown_dagger_is_lost_and_orcs_bane_grants_one_follow_up() {
    let mut game = face_to_face(ObjectiveDef::ReachStairs, 4);
    unit_mut(&mut game, 1).inventory.weapons = vec![Weapon::Dagger, Weapon::Broadsword];
    unit_mut(&mut game, 1).inventory.equipped_weapon = Some(Weapon::Dagger);
    unit_mut(&mut game, 1).pos = Pos::new(9, 10);
    let plan = strike(1, 10, AttackSource::ThrownDagger, 1, 0);
    game.resolve_attack(plan, &[CombatFace::Skull], &[]).unwrap();
    assert_eq!(unit(&game, 1).inventory.weapons, vec![Weapon::Broadsword]);
    assert_eq!(
        unit(&game, 1).inventory.equipped_weapon,
        Some(Weapon::Broadsword)
    );
    assert!(game
        .log
        .iter()
        .any(|line| line == "Barbarian's thrown Dagger is lost."));

    let mut game = face_to_face(ObjectiveDef::ReachStairs, 4);
    unit_mut(&mut game, 1).inventory.artifacts.push(Artifact::OrcsBane);
    let plan = strike(1, 10, AttackSource::OrcsBane, 2, 0);
    game.resolve_attack(plan, &[CombatFace::Skull, CombatFace::WhiteShield], &[])
        .unwrap();
    assert!(game.hero_turn.orcs_bane_follow_up);
    assert_eq!(unit(&game, 1).inventory.equipped_weapon, Some(Weapon::Shortsword));
    assert_eq!(
        game.log.back().unwrap(),
        "Barbarian attacked Crypt Warden: 1 skulls, 0 blocks, 1 damage."
    );
    game.resolve_attack(plan, &[CombatFace::Skull, CombatFace::WhiteShield], &[])
        .unwrap();
    assert!(!game.hero_turn.orcs_bane_follow_up);
    assert_eq!(unit(&game, 10).body, 2);
}

#[test]
fn a_petrified_defender_takes_no_damage() {
    let mut game = face_to_face(ObjectiveDef::ReachStairs, 4);
    unit_mut(&mut game, 10).petrified_turns = 2;
    let plan = strike(1, 10, AttackSource::Weapon(Weapon::Broadsword), 2, 0);
    let outcome = game
        .resolve_attack(plan, &[CombatFace::Skull, CombatFace::Skull], &[])
        .unwrap();
    assert_eq!(outcome.skulls, 2);
    assert_eq!(outcome.damage, 0);
    assert_eq!(unit(&game, 10).body, 4);
}

#[test]
fn the_automatic_attack_throws_the_planned_dice_and_resolves_them() {
    let mut game = face_to_face(ObjectiveDef::ReachStairs, 8);
    let plan = game.active_attack_plan().unwrap();
    let outcome = game.attack_active_random().unwrap();
    assert!(outcome.skulls <= plan.attack_dice);
    assert!(outcome.blocks <= plan.defend_dice);
    assert_eq!(outcome.damage, outcome.skulls.saturating_sub(outcome.blocks));
    assert_eq!(unit(&game, 10).body, 8 - outcome.damage as i16);
    assert!(game.hero_turn.action_used);
    assert!(game
        .log
        .back()
        .unwrap()
        .starts_with("Barbarian attacked Crypt Warden: "));

    let mut alone = four_heroes(ObjectiveDef::ReachStairs);
    let refusal = alone.active_attack_plan().unwrap_err();
    assert_eq!(alone.attack_active_random().unwrap_err(), refusal);
}

#[test]
fn a_thrown_dagger_is_selected_explicitly_and_removed_after_the_roll() {
    let mut game = four_heroes(ObjectiveDef::ReachStairs);
    let hero = game.active_hero_id().unwrap();
    let target = game
        .units
        .iter()
        .find(|unit| unit.name == "Crypt Warden")
        .unwrap()
        .id;
    game.cells.iter_mut().for_each(|cell| cell.revealed = true);
    game.doors.iter_mut().for_each(|door| door.open = true);
    game.units
        .iter_mut()
        .filter(|unit| unit.faction == Faction::Monster && unit.id != target)
        .for_each(|unit| unit.alive = false);
    let hero_unit = unit_mut(&mut game, hero);
    hero_unit.pos = Pos::new(10, 10);
    hero_unit.inventory.weapons = vec![Weapon::Dagger, Weapon::Broadsword];
    hero_unit.inventory.equipped_weapon = Some(Weapon::Dagger);
    let target_unit = unit_mut(&mut game, target);
    target_unit.pos = Pos::new(12, 10);
    target_unit.body = 5;
    target_unit.dormant = false;
    target_unit.hidden_until_activated = false;
    game.allocate_pending_visible_figures();

    let plan = game
        .active_attack_options()
        .unwrap()
        .into_iter()
        .find(|plan| plan.source == AttackSource::ThrownDagger)
        .unwrap();
    game.resolve_attack(
        plan,
        &[CombatFace::Skull],
        &vec![CombatFace::WhiteShield; plan.defend_dice as usize],
    )
    .unwrap();
    assert!(!game
        .unit(hero)
        .unwrap()
        .inventory
        .weapons
        .contains(&Weapon::Dagger));
    assert_eq!(
        game.unit(hero).unwrap().inventory.equipped_weapon,
        Some(Weapon::Broadsword)
    );
}

#[test]
fn heroic_brew_and_strength_potion_modify_exactly_the_next_attack_action() {
    let mut game = four_heroes(ObjectiveDef::ReachStairs);
    game.units
        .push(monster(11, MonsterKind::Goblin, "Goblin", Pos::new(14, 14)));
    game.cells.iter_mut().for_each(|cell| cell.revealed = true);
    let hero = game.active_hero_id().unwrap();
    let unit = unit_mut(&mut game, hero);
    unit.pos = Pos::new(10, 10);
    unit.inventory.heroic_brew = 1;
    unit.inventory.potion_of_strength = 1;
    let monsters = game
        .units
        .iter()
        .filter(|unit| unit.faction == Faction::Monster)
        .take(2)
        .map(|unit| unit.id)
        .collect::<Vec<_>>();
    game.units
        .iter_mut()
        .filter(|unit| unit.faction == Faction::Monster)
        .for_each(|unit| unit.alive = monsters.contains(&unit.id));
    for (monster, pos) in [
        (monsters[0], Pos::new(11, 10)),
        (monsters[1], Pos::new(10, 11)),
    ] {
        let unit = unit_mut(&mut game, monster);
        unit.pos = pos;
        unit.body = 9;
        unit.dormant = false;
        unit.hidden_until_activated = false;
    }
    game.allocate_pending_visible_figures();

    game.drink_heroic_brew().unwrap();
    game.drink_potion_of_strength().unwrap();
    let first = game.active_attack_plan().unwrap();
    assert_eq!(first.attack_dice, 5);
    game.resolve_attack(
        first,
        &vec![CombatFace::WhiteShield; first.attack_dice as usize],
        &vec![CombatFace::WhiteShield; first.defend_dice as usize],
    )
    .unwrap();
    assert!(game.hero_turn.heroic_brew_follow_up);
    assert_eq!(game.hero_turn.potion_strength_bonus, 0);

    let second = game.active_attack_plan().unwrap();
    assert_eq!(second.attack_dice, 3);
    game.resolve_attack(
        second,
        &vec![CombatFace::WhiteShield; second.attack_dice as usize],
        &vec![CombatFace::WhiteShield; second.defend_dice as usize],
    )
    .unwrap();
    assert!(!game.hero_turn.heroic_brew_follow_up);
    assert_eq!(
        game.active_attack_plan().unwrap_err(),
        RuleError::AlreadyActed
    );
}

#[test]
fn a_revealed_monster_without_a_piece_takes_a_fallen_monsters_piece() {
    let mut game = four_heroes(ObjectiveDef::ReachStairs);
    let mut newcomer = monster(11, MonsterKind::Goblin, "Goblin", Pos::new(14, 14));
    newcomer.physical_figure = None;
    game.units.push(newcomer);
    unit_mut(&mut game, 10).alive = false;
    game.allocate_pending_visible_figures();
    assert_eq!(
        unit(&game, 11).physical_figure,
        Some(FigureKind::Monster(MonsterKind::Orc))
    );
    assert_eq!(unit(&game, 10).physical_figure, None);

    let mut game = four_heroes(ObjectiveDef::ReachStairs);
    let mut newcomer = monster(11, MonsterKind::Goblin, "Goblin", Pos::new(14, 14));
    newcomer.physical_figure = None;
    game.units.push(newcomer);
    game.allocate_pending_visible_figures();
    assert_eq!(
        unit(&game, 11).physical_figure,
        Some(FigureKind::Monster(MonsterKind::Goblin))
    );
    assert_eq!(
        unit(&game, 11).model_variant,
        Some(MonsterModelVariant::GoblinSword)
    );
}
