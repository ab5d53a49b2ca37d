use quest_notifier::ingest::{
    check_bearer_token, commit_ingest, plan_ingest, IngestResponse,
};
use quest_notifier::quest::{
    Quest, QuestApplication, QuestAssets, QuestColors, QuestConfig, QuestMessages, QuestReward,
    QuestRewardMessages, QuestRewardsConfig, StoredQuest,
};
use quest_notifier::store::{init_storage, load_stored_quests};

fn ingest_quest(id: &str) -> Quest {
    Quest {
        id: id.to_string(),
        config: QuestConfig {
            id: id.to_string(),
            config_version: 1,
            starts_at: "2024-01-01T00:00:00+00:00".to_string(),
            expires_at: "2024-02-01T00:00:00+00:00".to_string(),
            features: vec![],
            application: QuestApplication {
                id: "app".to_string(),
                name: "Game".to_string(),
                link: "https://game.example".to_string(),
            },
            assets: QuestAssets {
                hero: "hero.png".to_string(),
                hero_video: None,
                quest_bar_hero: "bar.png".to_string(),
                quest_bar_hero_video: None,
                game_tile: None,
                logotype: None,
            },
            colors: QuestColors {
                primary: "#5865F2".to_string(),
                secondary: "#000000".to_string(),
            },
            messages: QuestMessages {
                quest_name: format!("quest {id}"),
                game_title: "Game".to_string(),
                game_publisher: "Publisher".to_string(),
            },
            task_config: None,
            task_config_v2: None,
            rewards_config: QuestRewardsConfig {
                assignment_method: 1,
                rewards: vec![QuestReward {
                    kind: 4,
                    sku_id: "sku".to_string(),
                    asset: None,
                    messages: QuestRewardMessages {
                        name: "Reward".to_string(),
                        name_with_article: "a Reward".to_string(),
                    },
                    orb_quantity: None,
                }],
                rewards_expire_at: None,
                platforms: vec![0],
            },
            cta_config: None,
        },
        user_status: None,
    }
}

#[test]
fn auth_without_secret_accepts_anything() {
    assert!(check_bearer_token(&None, &None));
    assert!(check_bearer_token(&None, &Some("whatever".to_string())));
}

#[test]
fn auth_missing_header_is_rejected() {
    assert!(!check_bearer_token(&Some("s3cr3t".to_string()), &None));
}

#[test]
fn auth_wrong_scheme_is_rejected() {
    let expected = Some("s3cr3t".to_string());
    assert!(!check_bearer_token(&expected, &Some("Basic s3cr3t".to_string())));
    assert!(!check_bearer_token(&expected, &Some("s3cr3t".to_string())));
}

#[test]
fn auth_wrong_token_is_rejected() {
    let expected = Some("s3cr3t".to_string());
    assert!(!check_bearer_token(&expected, &Some("Bearer nope".to_string())));
    assert!(!check_bearer_token(&expected, &Some("Bearer ".to_string())));
}

#[test]
fn auth_exact_token_is_accepted() {
    let expected = Some("s3cr3t".to_string());
    assert!(check_bearer_token(&expected, &Some("Bearer s3cr3t".to_string())));
}

#[test]
fn plan_ingest_rekeys_and_reports_new() {
    let known: Vec<StoredQuest> = Vec::new();
    let quests = vec![ingest_quest("Q1"), ingest_quest("Q2")];
    let plan = plan_ingest(&known, "us", &quests);
    assert_eq!(plan.new_records.len(), 2);
    assert_eq!(plan.new_records[0].id, "us:Q1");
    assert_eq!(plan.new_records[1].id, "us:Q2");
    assert_eq!(plan.notify_indices, vec![0, 1]);
}

#[test]
fn reingest_same_payload_accepts_nothing() {
    let mut store = init_storage("memory", "");
    let quests = vec![ingest_quest("Q1"), ingest_quest("Q2")];

    let known = load_stored_quests(&store);
    let plan1 = plan_ingest(&known, "us", &quests);
    let resp1 = commit_ingest(&mut store, &plan1.new_records).unwrap();
    assert_eq!(resp1, IngestResponse { accepted: 2, deduped: 2 });

    let known = load_stored_quests(&store);
    let plan2 = plan_ingest(&known, "us", &quests);
    assert!(plan2.new_records.is_empty());
    assert!(plan2.notify_indices.is_empty());
    let resp2 = commit_ingest(&mut store, &plan2.new_records).unwrap();
    assert_eq!(resp2, IngestResponse { accepted: 0, deduped: 0 });
    assert_eq!(load_stored_quests(&store).len(), 2);
}

#[test]
fn racing_regions_notify_exactly_once() {
    // two agents race on the same underlying quest under different regions;
    // the store lock serializes them, and only the first dispatches
    let mut store = init_storage("memory", "");
    let quests = vec![ingest_quest("Q1")];

    let known = load_stored_quests(&store);
    let plan_us = plan_ingest(&known, "us", &quests);
    assert_eq!(plan_us.notify_indices, vec![0]);
    commit_ingest(&mut store, &plan_us.new_records).unwrap();

    let known = load_stored_quests(&store);
    let plan_eu = plan_ingest(&known, "eu", &quests);
    assert!(plan_eu.new_records.is_empty());
    assert!(plan_eu.notify_indices.is_empty());
    let resp = commit_ingest(&mut store, &plan_eu.new_records).unwrap();
    assert_eq!(resp, IngestResponse { accepted: 0, deduped: 0 });
}

#[test]
fn cross_region_suppression_blocks_notification_not_just_merge() {
    let known = vec![StoredQuest {
        id: "us:Q1".to_string(),
        name: "quest Q1".to_string(),
        reward: "Reward".to_string(),
        reward_type: "orbs".to_string(),
        expires_at: "2024-02-01T00:00:00+00:00".to_string(),
        game_name: "Game".to_string(),
    }];
    let quests = vec![ingest_quest("Q1")];
    let plan = plan_ingest(&known, "eu", &quests);
    assert!(plan.new_records.is_empty());
    assert!(plan.notify_indices.is_empty());
}

#[test]
fn commit_ingest_fails_on_unknown_backend() {
    let mut store = init_storage("redis", "");
    let records = vec![StoredQuest {
        id: "us:Q1".to_string(),
        name: "q".to_string(),
        reward: "r".to_string(),
        reward_type: "orbs".to_string(),
        expires_at: "e".to_string(),
        game_name: "g".to_string(),
    }];
    let err = commit_ingest(&mut store, &records).unwrap_err();
    assert_eq!(err.message(), "unknown storage type: redis");
}
