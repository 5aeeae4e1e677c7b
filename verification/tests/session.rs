use tmc::data::StrMap;
use tmc::jmap::types::{JmapAccount, JmapSession};

fn session(text: &str) -> JmapSession {
    let v: serde_json::Value = serde_json::from_str(text).unwrap();
    let mut primary_accounts = StrMap::new();
    if let Some(m) = v.get("primaryAccounts").and_then(|x| x.as_object()) {
        for (k, id) in m {
            primary_accounts.insert(k.clone(), id.as_str().unwrap().to_string());
        }
    }
    let mut accounts = StrMap::new();
    for (k, a) in v["accounts"].as_object().unwrap() {
        accounts.insert(
            k.clone(),
            JmapAccount {
                name: a["name"].as_str().unwrap().to_string(),
                is_personal: a["isPersonal"].as_bool().unwrap(),
                is_read_only: false,
            },
        );
    }
    JmapSession {
        username: v["username"].as_str().unwrap().to_string(),
        api_url: v["apiUrl"].as_str().unwrap().to_string(),
        download_url: None,
        primary_accounts,
        accounts,
    }
}

#[test]
fn test_mail_account_id_primary() {
    let session = session(
        r#"{
        "username": "u@e.com",
        "apiUrl": "https://api.e.com/jmap",
        "primaryAccounts": {
            "urn:ietf:params:jmap:mail": "primary-id"
        },
        "accounts": {
            "primary-id": { "name": "Main", "isPersonal": true },
            "other-id": { "name": "Other", "isPersonal": false }
        }
    }"#,
    );
    assert_eq!(session.mail_account_id(), Some("primary-id"));
}

#[test]
fn test_mail_account_id_fallback_single() {
    let session = session(
        r#"{
        "username": "u@e.com",
        "apiUrl": "https://api.e.com/jmap",
        "accounts": {
            "only-one": { "name": "Solo", "isPersonal": true }
        }
    }"#,
    );
    assert_eq!(session.mail_account_id(), Some("only-one"));
}

#[test]
fn test_mail_account_id_none_multiple_no_primary() {
    let session = session(
        r#"{
        "username": "u@e.com",
        "apiUrl": "https://api.e.com/jmap",
        "accounts": {
            "acc-1": { "name": "A", "isPersonal": false },
            "acc-2": { "name": "B", "isPersonal": false }
        }
    }"#,
    );
    assert_eq!(session.mail_account_id(), None);
}

