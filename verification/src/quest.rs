//! Quest data model.
//!
//! `Quest` mirrors the upstream payload that the fetch client and the ingest
//! endpoint hand over (keyed task maps are carried as entry lists, in their
//! wire order).  `StoredQuest` is the record derived from it for the known-set
//! store: identity, display name, reward classification and expiry.
//! `QuestSummary` is the mathematical image of a stored record; every contract
//! in the pipeline speaks of sequences of summaries.

use vstd::prelude::*;

verus! {

#[derive(Debug, PartialEq, Eq)]
pub struct QuestApplication {
    pub id: String,
    pub name: String,
    pub link: String,
}

#[derive(Debug, PartialEq, Eq)]
pub struct QuestAssets {
    pub hero: String,
    pub hero_video: Option<String>,
    pub quest_bar_hero: String,
    pub quest_bar_hero_video: Option<String>,
    pub game_tile: Option<String>,
    pub logotype: Option<String>,
}

#[derive(Debug, PartialEq, Eq)]
pub struct QuestColors {
    pub primary: String,
    pub secondary: String,
}

#[derive(Debug, PartialEq, Eq)]
pub struct QuestMessages {
    pub quest_name: String,
    pub game_title: String,
    pub game_publisher: String,
}

#[derive(Debug, PartialEq, Eq)]
pub struct QuestTask {
    pub event_name: String,
    pub target: u32,
    pub external_ids: Vec<String>,
}

/// One entry of the first-generation task table, keyed by task name.
#[derive(Debug, PartialEq, Eq)]
pub struct QuestTaskEntry {
    pub task_type: String,
    pub task: QuestTask,
}

#[derive(Debug, PartialEq, Eq)]
pub struct QuestTaskConfig {
    pub kind: u32,
    pub join_operator: String,
    pub tasks: Vec<QuestTaskEntry>,
}

#[derive(Debug, PartialEq, Eq)]
pub struct QuestTaskV2 {
    pub kind: String,
    pub target: u32,
    pub external_ids: Vec<String>,
}

/// One entry of the second-generation task table, keyed by task type.
#[derive(Debug, PartialEq, Eq)]
pub struct QuestTaskEntryV2 {
    pub task_type: String,
    pub task: QuestTaskV2,
}

#[derive(Debug, PartialEq, Eq)]
pub struct QuestTaskConfigV2 {
    pub tasks: Vec<QuestTaskEntryV2>,
    pub join_operator: String,
}

#[derive(Debug, PartialEq, Eq)]
pub struct QuestRewardMessages {
    pub name: String,
    pub name_with_article: String,
}

#[derive(Debug, PartialEq, Eq)]
pub struct QuestReward {
    pub kind: u32,
    pub sku_id: String,
    pub asset: Option<String>,
    pub messages: QuestRewardMessages,
    pub orb_quantity: Option<u32>,
}

#[derive(Debug, PartialEq, Eq)]
pub struct QuestRewardsConfig {
    pub assignment_method: u32,
    pub rewards: Vec<QuestReward>,
    pub rewards_expire_at: Option<String>,
    pub platforms: Vec<u32>,
}

#[derive(Debug, PartialEq, Eq)]
pub struct QuestCtaConfig {
    pub link: String,
    pub button_label: String,
}

#[derive(Debug, PartialEq, Eq)]
pub struct QuestUserStatus {
    pub user_id: String,
    pub quest_id: String,
    pub enrolled_at: String,
    pub completed_at: Option<String>,
    pub claimed_at: Option<String>,
}

#[derive(Debug, PartialEq, Eq)]
pub struct QuestConfig {
    pub id: String,
    pub config_version: u32,
    pub starts_at: String,
    pub expires_at: String,
    pub features: Vec<u32>,
    pub application: QuestApplication,
    pub assets: QuestAssets,
    pub colors: QuestColors,
    pub messages: QuestMessages,
    pub task_config: Option<QuestTaskConfig>,
    pub task_config_v2: Option<QuestTaskConfigV2>,
    pub rewards_config: QuestRewardsConfig,
    pub cta_config: Option<QuestCtaConfig>,
}

#[derive(Debug, PartialEq, Eq)]
pub struct Quest {
    pub id: String,
    pub config: QuestConfig,
    pub user_status: Option<QuestUserStatus>,
}

/// The record kept in the known-quest store, derived from a `Quest`.
#[derive(Debug, PartialEq, Eq)]
pub struct StoredQuest {
    pub id: String,
    pub name: String,
    pub reward: String,
    pub reward_type: String,
    pub expires_at: String,
    pub game_name: String,
}

/// The mathematical image of a stored record: all six fields as character
/// sequences.  Sequences of summaries are what the pipeline contracts are
/// stated over.
#[verifier::ext_equal]
pub struct QuestSummary {
    pub id: Seq<char>,
    pub name: Seq<char>,
    pub reward: Seq<char>,
    pub reward_type: Seq<char>,
    pub expires_at: Seq<char>,
    pub game_name: Seq<char>,
}

impl DeepView for StoredQuest {
    type V = QuestSummary;

    open spec fn deep_view(&self) -> QuestSummary {
        QuestSummary {
            id: self.id@,
            name: self.name@,
            reward: self.reward@,
            reward_type: self.reward_type@,
            expires_at: self.expires_at@,
            game_name: self.game_name@,
        }
    }
}

impl Clone for StoredQuest {
    fn clone(&self) -> (res: Self)
        ensures
            res == *self,
    {
        StoredQuest {
            id: self.id.clone(),
            name: self.name.clone(),
            reward: self.reward.clone(),
            reward_type: self.reward_type.clone(),
            expires_at: self.expires_at.clone(),
            game_name: self.game_name.clone(),
        }
    }
}

/// The reward-type label of a numeric reward kind.
pub open spec fn spec_reward_kind_label(kind: u32) -> Seq<char> {
    if kind == 4 {
        "orbs"@
    } else if kind == 3 {
        "decor"@
    } else if kind == 1 {
        "code"@
    } else if kind == 2 {
        "ingame"@
    } else {
        "other"@
    }
}

/// The reward-type label of a rewards configuration: the label of its first
/// reward, or `"other"` when it offers none.
pub open spec fn spec_reward_type(cfg: QuestRewardsConfig) -> Seq<char> {
    if cfg.rewards@.len() == 0 {
        "other"@
    } else {
        spec_reward_kind_label(cfg.rewards@[0].kind)
    }
}

/// The display name of the first reward, or a fixed placeholder when the
/// configuration offers none.
pub open spec fn spec_reward_name(cfg: QuestRewardsConfig) -> Seq<char> {
    if cfg.rewards@.len() == 0 {
        "Unknown Reward"@
    } else {
        cfg.rewards@[0].messages.name@
    }
}

/// The summary a quest reduces to when it enters the store.
pub open spec fn summary_of(q: Quest) -> QuestSummary {
    QuestSummary {
        id: q.config.id@,
        name: q.config.messages.quest_name@,
        reward: spec_reward_name(q.config.rewards_config),
        reward_type: spec_reward_type(q.config.rewards_config),
        expires_at: q.config.expires_at@,
        game_name: q.config.messages.game_title@,
    }
}

/// The summaries of a quest batch, in batch order.
pub open spec fn summaries(qs: Seq<Quest>) -> Seq<QuestSummary> {
    qs.map_values(|q: Quest| summary_of(q))
}

/// Classifies a rewards configuration into one of the reward-type labels
/// `orbs`, `decor`, `code`, `ingame` or `other`.
pub fn determine_reward_type(cfg: &QuestRewardsConfig) -> (r: String)
    ensures
        r@ == spec_reward_type(*cfg),
{
    if cfg.rewards.len() == 0 {
        return String::from_str("other");
    }
    let kind = cfg.rewards[0].kind;
    if kind == 4 {
        String::from_str("orbs")
    } else if kind == 3 {
        String::from_str("decor")
    } else if kind == 1 {
        String::from_str("code")
    } else if kind == 2 {
        String::from_str("ingame")
    } else {
        String::from_str("other")
    }
}

/// The display name of the first configured reward.
pub fn get_reward_name(cfg: &QuestRewardsConfig) -> (r: String)
    ensures
        r@ == spec_reward_name(*cfg),
{
    if cfg.rewards.len() == 0 {
        String::from_str("Unknown Reward")
    } else {
        cfg.rewards[0].messages.name.clone()
    }
}

impl StoredQuest {
    /// Derives the store record of a quest: identity, display name, reward
    /// classification, expiry and game title.
    pub fn from_quest(quest: &Quest) -> (r: StoredQuest)
        ensures
            r.deep_view() == summary_of(*quest),
    {
        let reward_type = determine_reward_type(&quest.config.rewards_config);
        let reward = get_reward_name(&quest.config.rewards_config);
        let r = StoredQuest {
            id: quest.config.id.clone(),
            name: quest.config.messages.quest_name.clone(),
            reward,
            reward_type,
            expires_at: quest.config.expires_at.clone(),
            game_name: quest.config.messages.game_title.clone(),
        };
        proof {
            assert(r.deep_view() =~= summary_of(*quest));
        }
        r
    }
}

} // verus!
