//! Card decks: artifacts, the heroes' elemental spells, Zargon's Chaos
//! spells and the treasure deck.
use vstd::prelude::*;

verus! {

#[derive(Clone, Copy, Debug, PartialEq, Eq, Structural, Hash)]
pub enum Artifact {
    BorinsArmor,
    ElixirOfLife,
    OrcsBane,
    RingOfReturn,
    SpellRing,
    SpiritBlade,
    TalismanOfLore,
    WandOfMagic,
    WizardsCloak,
    WizardsStaff,
}

#[derive(Clone, Copy, Debug, PartialEq, Eq, Structural, Hash)]
pub enum HeroSpell {
    BallOfFlame,
    Courage,
    FireOfWrath,
    Genie,
    HealBody,
    PassThroughRock,
    RockSkin,
    Sleep,
    SwiftWind,
    Tempest,
    VeilOfMist,
    WaterOfHealing,
}

#[derive(Clone, Copy, Debug, PartialEq, Eq, Structural, Hash)]
pub enum ChaosSpell {
    BallOfFlame,
    CloudOfChaos,
    Command,
    Escape,
    Fear,
    Firestorm,
    LightningBolt,
    Rust,
    Sleep,
    SummonOrcs,
    SummonUndead,
    Tempest,
}

#[derive(Clone, Copy, Debug, PartialEq, Eq, Structural, Hash)]
pub enum TreasureCard {
    Gem35,
    GoldCoins15,
    Jewels25,
    Jewels50,
    HeroicBrew,
    PotionOfDefense,
    PotionOfHealing,
    PotionOfStrength,
    ArrowHazard,
    PitHazard,
    WanderingMonster,
}

/// The gold printed on a treasure card, for the cards that carry gold.
pub open spec fn spec_card_gold(card: TreasureCard) -> Option<u16> {
    match card {
        TreasureCard::Gem35 => Some(35u16),
        TreasureCard::GoldCoins15 => Some(15u16),
        TreasureCard::Jewels25 => Some(25u16),
        TreasureCard::Jewels50 => Some(50u16),
        _ => None,
    }
}

impl TreasureCard {
    pub fn gold(self) -> (gold: Option<u16>)
        ensures
            gold == spec_card_gold(self),
    {
        match self {
            TreasureCard::Gem35 => Some(35),
            TreasureCard::GoldCoins15 => Some(15),
            TreasureCard::Jewels25 => Some(25),
            TreasureCard::Jewels50 => Some(50),
            _ => None,
        }
    }
}

/// The name printed on a spell card.
pub open spec fn spec_spell_name(spell: HeroSpell) -> Seq<char> {
    match spell {
        HeroSpell::BallOfFlame => "Ball of Flame"@,
        HeroSpell::Courage => "Courage"@,
        HeroSpell::FireOfWrath => "Fire of Wrath"@,
        HeroSpell::Genie => "Genie"@,
        HeroSpell::HealBody => "Heal Body"@,
        HeroSpell::PassThroughRock => "Pass Through Rock"@,
        HeroSpell::RockSkin => "Rock Skin"@,
        HeroSpell::Sleep => "Sleep"@,
        HeroSpell::SwiftWind => "Swift Wind"@,
        HeroSpell::Tempest => "Tempest"@,
        HeroSpell::VeilOfMist => "Veil of Mist"@,
        HeroSpell::WaterOfHealing => "Water of Healing"@,
    }
}

impl HeroSpell {
    pub fn name(self) -> (name: &'static str)
        ensures
            name@ == spec_spell_name(self),
    {
        match self {
            HeroSpell::BallOfFlame => "Ball of Flame",
            HeroSpell::Courage => "Courage",
            HeroSpell::FireOfWrath => "Fire of Wrath",
            HeroSpell::Genie => "Genie",
            HeroSpell::HealBody => "Heal Body",
            HeroSpell::PassThroughRock => "Pass Through Rock",
            HeroSpell::RockSkin => "Rock Skin",
            HeroSpell::Sleep => "Sleep",
            HeroSpell::SwiftWind => "Swift Wind",
            HeroSpell::Tempest => "Tempest",
            HeroSpell::VeilOfMist => "Veil of Mist",
            HeroSpell::WaterOfHealing => "Water of Healing",
        }
    }
}

} // verus!
