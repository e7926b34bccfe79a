use itch_fetch::catalog::{Game, OwnedKey, Upload, User};
use itch_fetch::filter::filter_keys;
use itch_fetch::selector::select_upload;

fn user(username: &str, display_name: Option<&str>) -> User {
    User {
        id: 1,
        username: username.to_string(),
        display_name: display_name.map(|s| s.to_string()),
        url: "https://example.test/u".to_string(),
        cover_url: None,
    }
}

fn key(id: u64, title: &str, username: &str, display_name: Option<&str>) -> OwnedKey {
    OwnedKey {
        id,
        game_id: id + 100,
        purchase_id: None,
        downloads: 0,
        created_at: "2024-01-01".to_string(),
        updated_at: "2024-01-02".to_string(),
        game: Game {
            id: id + 100,
            title: title.to_string(),
            short_text: None,
            url: "https://example.test/g".to_string(),
            game_type: "default".to_string(),
            classification: "game".to_string(),
            created_at: "2023-01-01".to_string(),
            published_at: None,
            cover_url: None,
            still_cover_url: None,
            min_price: None,
            user: user(username, display_name),
        },
    }
}

fn upload(id: u64, filename: &str) -> Upload {
    Upload {
        id,
        filename: filename.to_string(),
        size: 10,
        upload_type: "default".to_string(),
        game_id: 1,
    }
}

#[test]
fn title_query_is_case_insensitive() {
    let keys = vec![key(1, "A Foobar Game", "alice", None)];
    let out = filter_keys(keys, &None, &Some("FOO".to_string()));
    assert_eq!(out.len(), 1);
    assert_eq!(out[0].game.title, "A Foobar Game");
}

#[test]
fn author_query_matches_username_or_display_name() {
    let keys = vec![
        key(1, "One", "alice", None),
        key(2, "Two", "bob", Some("The Alice Collective")),
        key(3, "Three", "carol", None),
    ];
    let out = filter_keys(keys, &Some("ALICE".to_string()), &None);
    assert_eq!(out.len(), 2);
    assert_eq!(out[0].id, 1);
    assert_eq!(out[1].id, 2);
}

#[test]
fn both_queries_must_match() {
    let keys = vec![
        key(1, "Space Quest", "alice", None),
        key(2, "Space Quest", "bob", None),
        key(3, "Desert Quest", "alice", None),
    ];
    let out = filter_keys(keys, &Some("alice".to_string()), &Some("space".to_string()));
    assert_eq!(out.len(), 1);
    assert_eq!(out[0].id, 1);
}

#[test]
fn no_query_returns_input_unchanged() {
    let keys = vec![
        key(3, "C", "x", None),
        key(1, "A", "y", None),
        key(2, "B", "z", None),
    ];
    let out = filter_keys(keys, &None, &None);
    let ids: Vec<u64> = out.iter().map(|k| k.id).collect();
    assert_eq!(ids, vec![3, 1, 2]);
}

#[test]
fn filter_is_stable_across_nonmatching_prefix() {
    let keys = vec![
        key(1, "zzz", "a", None),
        key(2, "zzz", "b", None),
        key(3, "match one", "c", None),
        key(4, "zzz", "d", None),
        key(5, "another match", "e", None),
    ];
    let out = filter_keys(keys, &None, &Some("match".to_string()));
    let ids: Vec<u64> = out.iter().map(|k| k.id).collect();
    assert_eq!(ids, vec![3, 5]);
}

#[test]
fn selector_prefers_zip_regardless_of_position() {
    let ups = vec![upload(1, "a.txt"), upload(2, "b.ZIP"), upload(3, "c.exe")];
    assert_eq!(select_upload(&ups), Some(1));
    let ups2 = vec![upload(3, "c.exe"), upload(2, "b.ZIP"), upload(1, "a.txt")];
    assert_eq!(select_upload(&ups2), Some(1));
}

#[test]
fn selector_falls_back_to_first_upload() {
    let ups = vec![upload(1, "a.txt")];
    assert_eq!(select_upload(&ups), Some(0));
    let ups2 = vec![upload(1, "a.txt"), upload(2, "b.exe")];
    assert_eq!(select_upload(&ups2), Some(0));
}

#[test]
fn selector_fails_on_empty_listing() {
    let ups: Vec<Upload> = vec![];
    assert_eq!(select_upload(&ups), None);
}
