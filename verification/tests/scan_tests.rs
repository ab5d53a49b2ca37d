use quest_notifier::quest::{
    Quest, QuestApplication, QuestAssets, QuestColors, QuestConfig, QuestMessages, QuestReward,
    QuestRewardMessages, QuestRewardsConfig, StoredQuest,
};
use quest_notifier::scan::{
    apply_region, pacing_delay, pacing_delay_secs, plan_locale, resolve_payloads,
    suppress_cross_region,
};
use quest_notifier::store::{commit_records, init_storage, load_stored_quests};

fn scan_quest(id: &str, reward_kind: u32) -> Quest {
    Quest {
        id: id.to_string(),
        config: QuestConfig {
            id: id.to_string(),
            config_version: 1,
            starts_at: "2024-01-01T00:00:00+00:00".to_string(),
            expires_at: "2024-02-01T00:00:00+00:00".to_string(),
            features: vec![],
            application: QuestApplication {
                id: "app".to_string(),
                name: "Game".to_string(),
                link: "https://game.example".to_string(),
            },
            assets: QuestAssets {
                hero: "hero.png".to_string(),
                hero_video: None,
                quest_bar_hero: "bar.png".to_string(),
                quest_bar_hero_video: None,
                game_tile: None,
                logotype: None,
            },
            colors: QuestColors {
                primary: "#5865F2".to_string(),
                secondary: "#000000".to_string(),
            },
            messages: QuestMessages {
                quest_name: format!("quest {id}"),
                game_title: "Game".to_string(),
                game_publisher: "Publisher".to_string(),
            },
            task_config: None,
            task_config_v2: None,
            rewards_config: QuestRewardsConfig {
                assignment_method: 1,
                rewards: vec![QuestReward {
                    kind: reward_kind,
                    sku_id: "sku".to_string(),
                    asset: None,
                    messages: QuestRewardMessages {
                        name: "Reward".to_string(),
                        name_with_article: "a Reward".to_string(),
                    },
                    orb_quantity: None,
                }],
                rewards_expire_at: None,
                platforms: vec![0],
            },
            cta_config: None,
        },
        user_status: None,
    }
}

fn scan_stored(id: &str) -> StoredQuest {
    StoredQuest {
        id: id.to_string(),
        name: format!("quest {id}"),
        reward: "Reward".to_string(),
        reward_type: "orbs".to_string(),
        expires_at: "2024-02-01T00:00:00+00:00".to_string(),
        game_name: "Game".to_string(),
    }
}

#[test]
fn apply_region_rekeys_ids() {
    let records = vec![scan_stored("Q1"), scan_stored("Q2")];
    let keyed = apply_region(&records, "en-US");
    assert_eq!(keyed.len(), 2);
    assert_eq!(keyed[0].id, "en-US:Q1");
    assert_eq!(keyed[1].id, "en-US:Q2");
    assert_eq!(keyed[0].name, "quest Q1");
}

#[test]
fn suppression_drops_known_base_under_other_region() {
    let known = vec![scan_stored("us:Q1")];
    let candidates = vec![scan_stored("eu:Q1")];
    let out = suppress_cross_region(&candidates, &known);
    assert!(out.is_empty());
}

#[test]
fn suppression_keeps_unknown_bases() {
    let known = vec![scan_stored("us:Q1")];
    let candidates = vec![scan_stored("eu:Q2")];
    let out = suppress_cross_region(&candidates, &known);
    assert_eq!(out.len(), 1);
    assert_eq!(out[0].id, "eu:Q2");
}

#[test]
fn plan_locale_reports_new_quest() {
    let fetched = vec![scan_quest("Q1", 4)];
    let known: Vec<StoredQuest> = Vec::new();
    let plan = plan_locale(&fetched, &known, "en-US", "all", false);
    assert_eq!(plan.candidates.len(), 1);
    assert_eq!(plan.candidates[0].id, "en-US:Q1");
    assert_eq!(plan.new_records.len(), 1);
    assert_eq!(plan.new_records[0].id, "en-US:Q1");
    assert_eq!(plan.notify_indices, vec![0]);
}

#[test]
fn plan_locale_skips_known_quest() {
    let fetched = vec![scan_quest("Q1", 4)];
    let known = vec![scan_stored("en-US:Q1")];
    let plan = plan_locale(&fetched, &known, "en-US", "all", false);
    assert_eq!(plan.candidates.len(), 1);
    assert!(plan.new_records.is_empty());
    assert!(plan.notify_indices.is_empty());
}

#[test]
fn plan_locale_suppresses_cross_locale_duplicate() {
    // known under one locale tag, fetched under another: not new again
    let fetched = vec![scan_quest("Q1", 4)];
    let known = vec![scan_stored("en-US:Q1")];
    let plan = plan_locale(&fetched, &known, "de-DE", "all", false);
    assert_eq!(plan.candidates[0].id, "de-DE:Q1");
    assert!(plan.new_records.is_empty());
    assert!(plan.notify_indices.is_empty());
}

#[test]
fn plan_locale_applies_reward_filter() {
    let fetched = vec![scan_quest("Q1", 4), scan_quest("Q2", 3)];
    let known: Vec<StoredQuest> = Vec::new();
    let plan = plan_locale(&fetched, &known, "en-US", "orbs", false);
    assert_eq!(plan.candidates.len(), 1);
    assert_eq!(plan.new_records.len(), 1);
    assert_eq!(plan.new_records[0].id, "en-US:Q1");
}

#[test]
fn seed_only_cycle_notifies_nothing_but_seeds_store() {
    let fetched: Vec<Quest> = (0..10).map(|i| scan_quest(&format!("Q{i}"), 4)).collect();
    let mut store = init_storage("memory", "");
    let known = load_stored_quests(&store);
    assert!(known.is_empty());

    // empty store and initial_send_all=false: the cycle runs seed-only
    let seed_only = known.is_empty() && !false;
    let plan = plan_locale(&fetched, &known, "en-US", "all", seed_only);
    assert!(plan.new_records.is_empty());
    assert!(plan.notify_indices.is_empty());
    assert_eq!(plan.candidates.len(), 10);

    // the end-of-cycle merge still seeds the accumulated candidates
    commit_records(&mut store, &plan.candidates).unwrap();
    let after = load_stored_quests(&store);
    assert_eq!(after.len(), 10);
    assert!(after.iter().any(|q| q.id == "en-US:Q0"));
    assert!(after.iter().any(|q| q.id == "en-US:Q9"));
}

#[test]
fn resolve_payloads_matches_by_base_id() {
    let news = vec![scan_stored("en-US:Q2")];
    let fetched = vec![scan_quest("Q1", 4), scan_quest("Q2", 4), scan_quest("Q3", 4)];
    let idx = resolve_payloads(&news, &fetched);
    assert_eq!(idx, vec![1]);
}

#[test]
fn resolve_payloads_empty_news_owes_nothing() {
    let news: Vec<StoredQuest> = Vec::new();
    let fetched = vec![scan_quest("Q1", 4)];
    let idx = resolve_payloads(&news, &fetched);
    assert!(idx.is_empty());
}

#[test]
fn pacing_delay_secs_exact() {
    assert_eq!(pacing_delay_secs(0), 60);
    assert_eq!(pacing_delay_secs(10), 70);
    assert_eq!(pacing_delay_secs(11), 60);
    assert_eq!(pacing_delay_secs(255), 60 + (255 % 11) as u64);
}

#[test]
fn pacing_delay_within_bounds() {
    for _ in 0..32 {
        let d = pacing_delay();
        assert!((60..=70).contains(&d));
    }
}
