use quest_notifier::dedupe::{dedupe_by_key, filter_quests, find_new_quests};
use quest_notifier::quest::{
    determine_reward_type, get_reward_name, Quest, QuestApplication, QuestAssets, QuestColors,
    QuestConfig, QuestMessages, QuestReward, QuestRewardMessages, QuestRewardsConfig,
    StoredQuest,
};

fn mk_quest(id: &str, name: &str, reward_kind: u32, reward_name: &str) -> Quest {
    Quest {
        id: id.to_string(),
        config: QuestConfig {
            id: id.to_string(),
            config_version: 1,
            starts_at: "2024-01-01T00:00:00+00:00".to_string(),
            expires_at: "2024-02-01T00:00:00+00:00".to_string(),
            features: vec![3, 9],
            application: QuestApplication {
                id: "app-1".to_string(),
                name: "Example Game".to_string(),
                link: "https://game.example".to_string(),
            },
            assets: QuestAssets {
                hero: "hero.png".to_string(),
                hero_video: None,
                quest_bar_hero: "bar.png".to_string(),
                quest_bar_hero_video: None,
                game_tile: None,
                logotype: None,
            },
            colors: QuestColors {
                primary: "#5865F2".to_string(),
                secondary: "#000000".to_string(),
            },
            messages: QuestMessages {
                quest_name: name.to_string(),
                game_title: "Example Game".to_string(),
                game_publisher: "Example Publisher".to_string(),
            },
            task_config: None,
            task_config_v2: None,
            rewards_config: QuestRewardsConfig {
                assignment_method: 1,
                rewards: vec![QuestReward {
                    kind: reward_kind,
                    sku_id: "sku-1".to_string(),
                    asset: None,
                    messages: QuestRewardMessages {
                        name: reward_name.to_string(),
                        name_with_article: format!("a {reward_name}"),
                    },
                    orb_quantity: None,
                }],
                rewards_expire_at: None,
                platforms: vec![0],
            },
            cta_config: None,
        },
        user_status: None,
    }
}

fn mk_stored(id: &str, reward_type: &str) -> StoredQuest {
    StoredQuest {
        id: id.to_string(),
        name: format!("quest {id}"),
        reward: "Reward".to_string(),
        reward_type: reward_type.to_string(),
        expires_at: "2024-02-01T00:00:00+00:00".to_string(),
        game_name: "Example Game".to_string(),
    }
}

#[test]
fn filter_orbs_passes_only_orbs() {
    let quests = vec![
        mk_quest("Q1", "Orb Quest", 4, "1000 Orbs"),
        mk_quest("Q2", "Decor Quest", 3, "Fancy Decoration"),
        mk_quest("Q3", "Other Quest", 7, "Mystery"),
    ];
    let out = filter_quests(&quests, "orbs");
    assert_eq!(out.len(), 1);
    assert_eq!(out[0].id, "Q1");
    assert_eq!(out[0].reward_type, "orbs");
}

#[test]
fn filter_decor_passes_only_decor() {
    let quests = vec![
        mk_quest("Q1", "Orb Quest", 4, "1000 Orbs"),
        mk_quest("Q2", "Decor Quest", 3, "Fancy Decoration"),
    ];
    let out = filter_quests(&quests, "decor");
    assert_eq!(out.len(), 1);
    assert_eq!(out[0].id, "Q2");
}

#[test]
fn filter_all_passes_everything() {
    let quests = vec![
        mk_quest("Q1", "Orb Quest", 4, "1000 Orbs"),
        mk_quest("Q2", "Decor Quest", 3, "Fancy Decoration"),
        mk_quest("Q3", "Other Quest", 7, "Mystery"),
    ];
    let out = filter_quests(&quests, "all");
    assert_eq!(out.len(), 3);
}

#[test]
fn filter_unrecognized_yields_nothing() {
    let quests = vec![
        mk_quest("Q1", "Orb Quest", 4, "1000 Orbs"),
        mk_quest("Q2", "Decor Quest", 3, "Fancy Decoration"),
    ];
    let out = filter_quests(&quests, "bogus");
    assert!(out.is_empty());
}

#[test]
fn find_new_keeps_exactly_the_unknown_in_order() {
    let candidates = vec![mk_stored("A", "orbs"), mk_stored("B", "orbs"), mk_stored("C", "orbs")];
    let known = vec![mk_stored("B", "orbs")];
    let out = find_new_quests(&candidates, &known);
    assert_eq!(out.len(), 2);
    assert_eq!(out[0].id, "A");
    assert_eq!(out[1].id, "C");
}

#[test]
fn find_new_with_empty_known_returns_all() {
    let candidates = vec![mk_stored("A", "orbs"), mk_stored("B", "decor")];
    let known: Vec<StoredQuest> = Vec::new();
    let out = find_new_quests(&candidates, &known);
    assert_eq!(out.len(), 2);
}

#[test]
fn find_new_with_everything_known_returns_nothing() {
    let candidates = vec![mk_stored("A", "orbs"), mk_stored("B", "decor")];
    let out = find_new_quests(&candidates, &candidates);
    assert!(out.is_empty());
}

#[test]
fn dedupe_first_seen_wins() {
    let first = StoredQuest { name: "first".to_string(), ..mk_stored("A", "orbs") };
    let second = StoredQuest { name: "second".to_string(), ..mk_stored("A", "orbs") };
    let out = dedupe_by_key(&vec![first, second]);
    assert_eq!(out.len(), 1);
    assert_eq!(out[0].name, "first");
}

#[test]
fn dedupe_preserves_first_occurrence_order() {
    let items = vec![
        mk_stored("B", "orbs"),
        mk_stored("A", "orbs"),
        mk_stored("B", "orbs"),
        mk_stored("C", "orbs"),
    ];
    let out = dedupe_by_key(&items);
    let ids: Vec<&str> = out.iter().map(|q| q.id.as_str()).collect();
    assert_eq!(ids, vec!["B", "A", "C"]);
}

#[test]
fn dedupe_twice_is_idempotent() {
    let items = vec![
        mk_stored("A", "orbs"),
        mk_stored("B", "decor"),
        mk_stored("A", "orbs"),
    ];
    let once = dedupe_by_key(&items);
    let twice = dedupe_by_key(&once);
    assert_eq!(once, twice);
}

#[test]
fn reward_type_classification() {
    let cfg = |kind: u32| mk_quest("Q", "q", kind, "r").config.rewards_config;
    assert_eq!(determine_reward_type(&cfg(4)), "orbs");
    assert_eq!(determine_reward_type(&cfg(3)), "decor");
    assert_eq!(determine_reward_type(&cfg(1)), "code");
    assert_eq!(determine_reward_type(&cfg(2)), "ingame");
    assert_eq!(determine_reward_type(&cfg(99)), "other");
}

#[test]
fn reward_type_without_rewards_is_other() {
    let mut cfg = mk_quest("Q", "q", 4, "r").config.rewards_config;
    cfg.rewards.clear();
    assert_eq!(determine_reward_type(&cfg), "other");
    assert_eq!(get_reward_name(&cfg), "Unknown Reward");
}

#[test]
fn stored_quest_derivation() {
    let q = mk_quest("Q9", "A Quest", 4, "500 Orbs");
    let sq = StoredQuest::from_quest(&q);
    assert_eq!(sq.id, "Q9");
    assert_eq!(sq.name, "A Quest");
    assert_eq!(sq.reward, "500 Orbs");
    assert_eq!(sq.reward_type, "orbs");
    assert_eq!(sq.expires_at, "2024-02-01T00:00:00+00:00");
    assert_eq!(sq.game_name, "Example Game");
}
