use pizauth::config::{Account, Config};
use pizauth::server::state::{AuthenticatorState, TokenState, TokenStateVersion};
use std::time::Instant;
use url::Url;

fn account(name: &str, auth_uri: &str) -> Account {
    Account::new(
        name.to_owned(),
        auth_uri.to_owned(),
        "b".to_owned(),
        "c".to_owned(),
        "http://f.com".to_owned(),
        vec!["d".to_owned(), "e".to_owned()],
        "http://g.com".to_owned(),
    )
}

/// Account "x" with the authorisation endpoint `http://a.com`.
fn conf1() -> Config {
    Config::new(vec![account("x", "http://a.com")]).unwrap()
}

/// Account "x" with the authorisation endpoint `http://h.com`.
fn conf2() -> Config {
    Config::new(vec![account("x", "http://h.com")]).unwrap()
}

/// Accounts "x" and "y", both as "x" is in `conf1`.
fn conf3() -> Config {
    Config::new(vec![account("x", "http://a.com"), account("y", "http://a.com")]).unwrap()
}

/// Account "x" as in `conf2`, and "y" as "x" is in `conf1`.
fn conf4() -> Config {
    Config::new(vec![account("x", "http://h.com"), account("y", "http://a.com")]).unwrap()
}

fn pending(nonce: [u8; 8]) -> TokenState {
    TokenState::Pending {
        last_notification: None,
        state: nonce,
        url: Url::parse("http://a.com/").unwrap(),
    }
}

fn version_of(pstate: &mut AuthenticatorState, name: &str) -> u128 {
    let ct_lk = pstate.ct_lock();
    ct_lk.guard.tokenstate_version(name).version
}

#[test]
fn test_act_validation() {
    let conf = conf1();
    let mut pstate = AuthenticatorState::new(conf, 0);

    {
        let ct_lk = pstate.ct_lock();
        let act_id = ct_lk.validate_act_name("x").unwrap();
        assert!(matches!(ct_lk.tokenstate(&act_id), TokenState::Empty));
        assert!(matches!(
            ct_lk.guard.tokenstate_version("x"),
            TokenStateVersion {
                tokenstate: TokenState::Empty,
                version: 0
            }
        ));
    }

    let conf = conf2();
    pstate.update_conf(conf);
    {
        let ct_lk = pstate.ct_lock();
        assert!(matches!(
            ct_lk.guard.tokenstate_version("x"),
            TokenStateVersion {
                tokenstate: TokenState::Empty,
                version: 1
            }
        ));
    }

    let conf = conf2();
    pstate.update_conf(conf);
    {
        let ct_lk = pstate.ct_lock();
        assert!(matches!(
            ct_lk.guard.tokenstate_version("x"),
            TokenStateVersion {
                tokenstate: TokenState::Empty,
                version: 1
            }
        ));
    }

    let conf = conf3();
    pstate.update_conf(conf);
    {
        let ct_lk = pstate.ct_lock();
        assert!(matches!(
            ct_lk.guard.tokenstate_version("x"),
            TokenStateVersion {
                tokenstate: TokenState::Empty,
                version: 2
            }
        ));
        assert!(ct_lk.validate_act_name("x").is_some());
        assert!(ct_lk.validate_act_name("y").is_some());
        assert!(matches!(
            ct_lk.guard.tokenstate_version("y"),
            TokenStateVersion {
                tokenstate: TokenState::Empty,
                version: 0
            }
        ));
    }

    let conf = conf2();
    pstate.update_conf(conf);
    {
        let ct_lk = pstate.ct_lock();
        assert!(matches!(
            ct_lk.guard.tokenstate_version("x"),
            TokenStateVersion {
                tokenstate: TokenState::Empty,
                version: 3
            }
        ));
        assert!(ct_lk.validate_act_name("x").is_some());
        assert!(ct_lk.validate_act_name("y").is_none());
    }

    {
        let mut ct_lk = pstate.ct_lock();
        let act_id = ct_lk.validate_act_name("x").unwrap();
        let act_id = ct_lk.validate_act_id(act_id).unwrap();
        let act_id = ct_lk.tokenstate_replace(
            act_id,
            TokenState::Pending {
                last_notification: None,
                state: [0, 1, 2, 3, 4, 5, 6, 7],
                url: Url::parse("http://a.com/").unwrap(),
            },
        );
        assert!(matches!(
            ct_lk.guard.tokenstate_version("x"),
            TokenStateVersion {
                tokenstate: TokenState::Pending { .. },
                version: 4
            }
        ));
        assert!(ct_lk.validate_act_id(act_id).is_some());
    }

    let conf = conf2();
    pstate.update_conf(conf);
    {
        let ct_lk = pstate.ct_lock();
        assert!(matches!(
            ct_lk.guard.tokenstate_version("x"),
            TokenStateVersion {
                tokenstate: TokenState::Pending { .. },
                version: 4
            }
        ));
    }

    let conf = conf1();
    pstate.update_conf(conf);
    {
        let ct_lk = pstate.ct_lock();
        assert!(matches!(
            ct_lk.guard.tokenstate_version("x"),
            TokenStateVersion {
                tokenstate: TokenState::Empty,
                version: 5
            }
        ));
    }
}

#[test]
fn start_is_empty_at_version_zero() {
    let mut pstate = AuthenticatorState::new(conf1(), 8080);
    assert_eq!(pstate.http_port, 8080);
    let ct_lk = pstate.ct_lock();
    let act_id = ct_lk.validate_act_name("x").unwrap();
    assert_eq!(act_id.name(), "x");
    assert_eq!(act_id.tokenstate_version(), 0);
    assert!(matches!(ct_lk.tokenstate(&act_id), TokenState::Empty));
    assert_eq!(ct_lk.account(&act_id).auth_uri, "http://a.com");
}

#[test]
fn changed_account_moves_to_next_version() {
    let mut pstate = AuthenticatorState::new(conf1(), 0);
    pstate.update_conf(conf2());
    let ct_lk = pstate.ct_lock();
    let entry = ct_lk.guard.tokenstate_version("x");
    assert_eq!(entry.version, 1);
    assert!(matches!(entry.tokenstate, TokenState::Empty));
    let act_id = ct_lk.validate_act_name("x").unwrap();
    assert_eq!(ct_lk.account(&act_id).auth_uri, "http://h.com");
}

#[test]
fn same_configuration_again_keeps_version() {
    let mut pstate = AuthenticatorState::new(conf1(), 0);
    pstate.update_conf(conf2());
    pstate.update_conf(conf2());
    assert_eq!(version_of(&mut pstate, "x"), 1);
}

#[test]
fn added_account_starts_afresh_beside_unchanged_one() {
    let mut pstate = AuthenticatorState::new(conf1(), 0);
    pstate.update_conf(conf2());
    pstate.update_conf(conf4());
    let ct_lk = pstate.ct_lock();
    let x = ct_lk.guard.tokenstate_version("x");
    assert_eq!(x.version, 1);
    assert!(matches!(x.tokenstate, TokenState::Empty));
    let y = ct_lk.guard.tokenstate_version("y");
    assert_eq!(y.version, 0);
    assert!(matches!(y.tokenstate, TokenState::Empty));
}

#[test]
fn reverting_compares_with_previous_configuration_only() {
    let mut pstate = AuthenticatorState::new(conf1(), 0);
    pstate.update_conf(conf2());
    pstate.update_conf(conf4());
    pstate.update_conf(conf3());
    let ct_lk = pstate.ct_lock();
    assert_eq!(ct_lk.guard.tokenstate_version("x").version, 2);
    assert_eq!(ct_lk.guard.tokenstate_version("y").version, 0);
}

#[test]
fn dropped_account_is_unknown() {
    let mut pstate = AuthenticatorState::new(conf3(), 0);
    let old_id = {
        let ct_lk = pstate.ct_lock();
        ct_lk.validate_act_name("y").unwrap()
    };
    pstate.update_conf(conf1());
    let ct_lk = pstate.ct_lock();
    assert!(ct_lk.validate_act_name("y").is_none());
    assert!(ct_lk.validate_act_id(old_id).is_none());
    assert!(ct_lk.validate_act_name("x").is_some());
    assert_eq!(ct_lk.act_ids().len(), 1);
}

#[test]
fn dropped_and_restored_account_starts_afresh() {
    let mut pstate = AuthenticatorState::new(conf3(), 0);
    let old_id = {
        let mut ct_lk = pstate.ct_lock();
        let id = ct_lk.validate_act_name("y").unwrap();
        ct_lk.tokenstate_replace(id, pending([1; 8]))
    };
    assert_eq!(old_id.tokenstate_version(), 1);
    pstate.update_conf(conf1());
    pstate.update_conf(conf3());
    let ct_lk = pstate.ct_lock();
    let y = ct_lk.guard.tokenstate_version("y");
    assert_eq!(y.version, 0);
    assert!(matches!(y.tokenstate, TokenState::Empty));
    assert!(ct_lk.validate_act_id(old_id).is_none());
}

#[test]
fn replace_bumps_version_and_survives_unrelated_reload() {
    let mut pstate = AuthenticatorState::new(conf1(), 0);
    pstate.update_conf(conf2());
    pstate.update_conf(conf1());
    pstate.update_conf(conf2());
    assert_eq!(version_of(&mut pstate, "x"), 3);
    {
        let mut ct_lk = pstate.ct_lock();
        let act_id = ct_lk.validate_act_name("x").unwrap();
        let act_id = ct_lk.tokenstate_replace(act_id, pending([0, 1, 2, 3, 4, 5, 6, 7]));
        assert_eq!(act_id.tokenstate_version(), 4);
        assert_eq!(ct_lk.guard.tokenstate_version("x").version, 4);
    }
    pstate.update_conf(conf2());
    let ct_lk = pstate.ct_lock();
    let entry = ct_lk.guard.tokenstate_version("x");
    assert_eq!(entry.version, 4);
    match &entry.tokenstate {
        TokenState::Pending { last_notification, state, url } => {
            assert!(last_notification.is_none());
            assert_eq!(state, &[0, 1, 2, 3, 4, 5, 6, 7]);
            assert_eq!(url.as_str(), "http://a.com/");
        }
        other => panic!("expected a pending token state, got {:?}", other),
    }
}

#[test]
fn replace_with_same_value_still_bumps_version() {
    let mut pstate = AuthenticatorState::new(conf1(), 0);
    let mut ct_lk = pstate.ct_lock();
    let act_id = ct_lk.validate_act_name("x").unwrap();
    let act_id = ct_lk.tokenstate_replace(act_id, TokenState::Empty);
    assert_eq!(act_id.tokenstate_version(), 1);
    let act_id = ct_lk.tokenstate_replace(act_id, TokenState::Empty);
    assert_eq!(act_id.tokenstate_version(), 2);
    assert!(matches!(ct_lk.tokenstate(&act_id), TokenState::Empty));
    assert_eq!(ct_lk.guard.tokenstate_version("x").version, 2);
}

#[test]
fn replace_leaves_other_accounts_alone() {
    let mut pstate = AuthenticatorState::new(conf3(), 0);
    let mut ct_lk = pstate.ct_lock();
    let y = ct_lk.validate_act_name("y").unwrap();
    let y = ct_lk.tokenstate_replace(y, pending([9; 8]));
    assert_eq!(y.name(), "y");
    assert_eq!(ct_lk.guard.tokenstate_version("x").version, 0);
    assert!(matches!(ct_lk.guard.tokenstate_version("x").tokenstate, TokenState::Empty));
    assert_eq!(ct_lk.guard.tokenstate_version("y").version, 1);
    assert!(matches!(ct_lk.tokenstate(&y), TokenState::Pending { .. }));
}

#[test]
fn active_state_is_kept_over_reload_of_same_content() {
    let mut pstate = AuthenticatorState::new(conf1(), 0);
    let now = Instant::now();
    {
        let mut ct_lk = pstate.ct_lock();
        let act_id = ct_lk.validate_act_name("x").unwrap();
        ct_lk.tokenstate_replace(
            act_id,
            TokenState::Active {
                access_token: "token".to_owned(),
                refreshed_at: now,
                last_refresh_attempt: None,
                expiry: now,
                refresh_token: Some("again".to_owned()),
            },
        );
    }
    pstate.update_conf(conf1());
    {
        let ct_lk = pstate.ct_lock();
        let act_id = ct_lk.validate_act_name("x").unwrap();
        assert_eq!(act_id.tokenstate_version(), 1);
        match ct_lk.tokenstate(&act_id) {
            TokenState::Active {
                access_token,
                refreshed_at,
                last_refresh_attempt,
                expiry,
                refresh_token,
            } => {
                assert_eq!(access_token, "token");
                assert_eq!(*refreshed_at, now);
                assert!(last_refresh_attempt.is_none());
                assert_eq!(*expiry, now);
                assert_eq!(refresh_token.as_deref(), Some("again"));
            }
            other => panic!("expected an active token state, got {:?}", other),
        }
    }
    pstate.update_conf(conf2());
    let ct_lk = pstate.ct_lock();
    let entry = ct_lk.guard.tokenstate_version("x");
    assert_eq!(entry.version, 2);
    assert!(matches!(entry.tokenstate, TokenState::Empty));
}

#[test]
fn revalidation_needs_same_instance_and_same_version() {
    let mut pstate = AuthenticatorState::new(conf1(), 0);
    let (first, second) = {
        let ct_lk = pstate.ct_lock();
        (ct_lk.validate_act_name("x").unwrap(), ct_lk.validate_act_name("x").unwrap())
    };
    {
        let mut ct_lk = pstate.ct_lock();
        let first = ct_lk.validate_act_id(first).unwrap();
        assert_eq!(first.tokenstate_version(), 0);
        let newer = ct_lk.tokenstate_replace(first, TokenState::Empty);
        // The version has moved on since `second` was issued.
        assert!(ct_lk.validate_act_id(second).is_none());
        assert!(ct_lk.validate_act_id(newer).is_some());
    }
    let before_reload = {
        let ct_lk = pstate.ct_lock();
        ct_lk.validate_act_name("x").unwrap()
    };
    // Same content, same version, but another instance of the account.
    pstate.update_conf(conf1());
    let ct_lk = pstate.ct_lock();
    assert_eq!(ct_lk.guard.tokenstate_version("x").version, 1);
    assert_eq!(before_reload.tokenstate_version(), 1);
    assert!(ct_lk.validate_act_id(before_reload).is_none());
}

#[test]
fn identifier_ends_with_its_guard() {
    let mut pstate = AuthenticatorState::new(conf1(), 0);
    let act_id = {
        let ct_lk = pstate.ct_lock();
        let act_id = ct_lk.validate_act_name("x").unwrap();
        assert!(ct_lk.has_issued(&act_id));
        act_id
    };
    let ct_lk = pstate.ct_lock();
    assert!(!ct_lk.has_issued(&act_id));
    let act_id = ct_lk.validate_act_id(act_id).unwrap();
    assert!(ct_lk.has_issued(&act_id));
    assert_eq!(ct_lk.account(&act_id).name, "x");
}

#[test]
fn every_account_has_a_token_state() {
    let mut pstate = AuthenticatorState::new(conf3(), 0);
    pstate.update_conf(conf1());
    pstate.update_conf(conf4());
    let ct_lk = pstate.ct_lock();
    let ids = ct_lk.act_ids();
    let names: Vec<&str> = ids.iter().map(|id| id.name()).collect();
    let configured: Vec<&str> =
        ct_lk.config().accounts_in_order().iter().map(|act| act.name.as_str()).collect();
    assert_eq!(names, vec!["x", "y"]);
    assert_eq!(names, configured);
    for id in &ids {
        assert!(ct_lk.has_issued(id));
        assert_eq!(ct_lk.guard.tokenstate_version(id.name()).version, id.tokenstate_version());
    }
    assert_eq!(ids[0].tokenstate_version(), 1);
    assert_eq!(ids[1].tokenstate_version(), 0);
}

#[test]
fn pending_account_is_found_by_its_nonce() {
    let mut pstate = AuthenticatorState::new(conf3(), 0);
    let mut ct_lk = pstate.ct_lock();
    assert!(ct_lk.act_id_matching_token_state(&[7; 8]).is_none());
    let y = ct_lk.validate_act_name("y").unwrap();
    ct_lk.tokenstate_replace(y, pending([7; 8]));
    let found = ct_lk.act_id_matching_token_state(&[7; 8]).unwrap();
    assert_eq!(found.name(), "y");
    assert_eq!(found.tokenstate_version(), 1);
    assert!(ct_lk.has_issued(&found));
    assert!(ct_lk.act_id_matching_token_state(&[7; 7]).is_none());
    assert!(ct_lk.act_id_matching_token_state(&[7, 7, 7, 7, 7, 7, 7, 8]).is_none());
    assert!(ct_lk.act_id_matching_token_state(&[]).is_none());
    // With the same nonce on two accounts the first in the configuration is given.
    let x = ct_lk.validate_act_name("x").unwrap();
    ct_lk.tokenstate_replace(x, pending([7; 8]));
    assert_eq!(ct_lk.act_id_matching_token_state(&[7; 8]).unwrap().name(), "x");
}

#[test]
fn active_account_matches_no_nonce() {
    let mut pstate = AuthenticatorState::new(conf1(), 0);
    let now = Instant::now();
    let mut ct_lk = pstate.ct_lock();
    let x = ct_lk.validate_act_name("x").unwrap();
    ct_lk.tokenstate_replace(
        x,
        TokenState::Active {
            access_token: "t".to_owned(),
            refreshed_at: now,
            last_refresh_attempt: Some(now),
            expiry: now,
            refresh_token: None,
        },
    );
    assert!(ct_lk.act_id_matching_token_state(&[0; 8]).is_none());
}

#[test]
fn token_state_clone_is_the_same_value() {
    let now = Instant::now();
    let pending_state = TokenState::Pending {
        last_notification: Some(now),
        state: [1, 2, 3, 4, 5, 6, 7, 8],
        url: Url::parse("https://example.com/auth?state=abc").unwrap(),
    };
    match pending_state.clone() {
        TokenState::Pending { last_notification, state, url } => {
            assert_eq!(last_notification, Some(now));
            assert_eq!(state, [1, 2, 3, 4, 5, 6, 7, 8]);
            assert_eq!(url.as_str(), "https://example.com/auth?state=abc");
        }
        other => panic!("expected a pending token state, got {:?}", other),
    }
    let entry = TokenStateVersion { version: 12, tokenstate: pending_state };
    let copy = entry.clone();
    assert_eq!(copy.version, 12);
    assert!(copy.tokenstate.is_pending_with(&[1, 2, 3, 4, 5, 6, 7, 8]));
    assert!(!copy.tokenstate.is_pending_with(&[1, 2, 3, 4, 5, 6, 7, 9]));
    assert!(matches!(TokenState::Empty.clone(), TokenState::Empty));
}

#[test]
fn fresh_state_has_headroom() {
    let mut pstate = AuthenticatorState::new(conf3(), 0);
    assert!(pstate.has_headroom());
    pstate.update_conf(conf2());
    assert!(pstate.has_headroom());
    let ct_lk = pstate.ct_lock();
    assert!(ct_lk.guard.has_headroom());
}

#[test]
fn empty_configuration_has_no_accounts() {
    let mut pstate = AuthenticatorState::new(Config::new(Vec::new()).unwrap(), 0);
    {
        let ct_lk = pstate.ct_lock();
        assert!(ct_lk.act_ids().is_empty());
        assert!(ct_lk.validate_act_name("x").is_none());
        assert!(ct_lk.act_id_matching_token_state(&[0; 8]).is_none());
    }
    pstate.update_conf(conf1());
    assert_eq!(version_of(&mut pstate, "x"), 0);
}

#[test]
fn identifiers_compare_by_account_instance() {
    let mut pstate = AuthenticatorState::new(conf3(), 0);
    let (x, y) = {
        let ct_lk = pstate.ct_lock();
        (ct_lk.validate_act_name("x").unwrap(), ct_lk.validate_act_name("y").unwrap())
    };
    let x_later = {
        let mut ct_lk = pstate.ct_lock();
        let id = ct_lk.validate_act_name("x").unwrap();
        ct_lk.tokenstate_replace(id, TokenState::Empty)
    };
    assert!(x.same_account(&x_later));
    assert!(!x.same_account(&y));
    pstate.update_conf(conf3());
    let ct_lk = pstate.ct_lock();
    let x_reloaded = ct_lk.validate_act_name("x").unwrap();
    assert!(!x.same_account(&x_reloaded));
}
