//! Quest-book notes: the effects a quest attaches to searches, rooms and
//! defeats, and the named sculpts some quests call for.
use vstd::prelude::*;

use crate::cards::Artifact;
use crate::equipment::{Armor, Weapon};
use crate::model::{HeroKind, Pos};

verus! {

/// The individual sculpts of the boxed Orc and Goblin pieces.
#[derive(Clone, Copy, Debug, PartialEq, Eq, Structural, Hash)]
pub enum MonsterModelVariant {
    OrcSword,
    OrcFlail,
    OrcCleaver,
    OrcNotchedSword,
    OrcStaff,
    GoblinSword,
    GoblinAxe,
    GoblinScimitar,
}

/// How a quest is won.
#[derive(Clone, Debug, PartialEq, Eq)]
pub enum ObjectiveDef {
    DefeatNamed { name: String, award_champion_title: bool },
    DefeatNamedAndReturn { name: String, reward_gold_per_hero: u16 },
    DefeatAllAndReturn,
    DefeatAll,
    ReachStairs,
    RescueNamedAndReturn { name: String, reward_gold: u16 },
    ReturnQuestItems { count: u8, reward_gold: u16 },
    FindArtifactAndReturn { artifact: Artifact },
    ResolveEventAndReturn { event: String, reward_gold_per_hero: u16 },
    EscapeIndependently,
    DefeatAllOrEscapeIndependently,
}

/// What a quest note does when its trigger fires.
#[derive(Debug)]
pub enum QuestEffectDef {
    Empty,
    Message,
    Gold { amount: u16 },
    PotionOfHealing { count: u8 },
    HealingPotion { count: u8, restore: u8 },
    PetrificationPotion { count: u8 },
    Artifact { artifact: Artifact },
    ArtifactToHero { hero: HeroKind, artifact: Artifact },
    ArtifactToKiller { artifact: Artifact },
    ActivateNamed { name: String },
    AwakenGuardianUnlessTrapDisarmed { name: String, pos: Pos },
    RevealSecretDoor { a: Pos, b: Pos },
    ForbidFurtherTreasure,
    RevealStoredEquipment,
    Weapon { weapon: Weapon },
    Armor { armor: Armor },
    SplitGold { amount: u16 },
    DamageUnlessTrapDisarmed { pos: Pos, amount: u8 },
    Bundle { effects: Vec<QuestEffectDef> },
    Alarm { ally: String, forbid_treasure: bool },
}

} // verus!
