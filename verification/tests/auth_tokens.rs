use orbitdock_server::auth_tokens::{
    after_issue_attempt, IssueStep, ISSUE_ATTEMPTS, active_token_count, constant_time_eq, format_token, generate_token_material, hash_secret,
    normalize_label, parse_token_candidates, resolve_active_token_id,
    revoke_all_tokens, select_matching_candidate, token_material_from, verify_bearer_token, StoredToken,
    StoredTokenHash, TokenRecord,
};

#[test]
fn parse_token_candidates_rejects_invalid_prefix() {
    let candidates = parse_token_candidates("invalid_token");
    assert!(candidates.is_empty());
}

#[test]
fn parse_token_candidates_supports_underscores_in_segments() {
    let token = "odtk_abc_def_ghi_jkl";
    let candidates = parse_token_candidates(token);
    assert!(candidates
        .iter()
        .any(|(id, secret)| *id == "abc_def" && *secret == "ghi_jkl"));
}

#[test]
fn candidates_prefer_the_latest_delimiter() {
    let candidates = parse_token_candidates("  odtk_a_b_c \n");
    assert_eq!(candidates, vec![("a_b", "c"), ("a", "b_c")]);
}

#[test]
fn candidates_skip_empty_segments() {
    assert!(parse_token_candidates("odtk__secret").is_empty());
    assert!(parse_token_candidates("odtk_id_").is_empty());
    assert!(parse_token_candidates("odtk").is_empty());
    assert!(parse_token_candidates("odtkx_a_b").is_empty());
}

#[test]
fn candidates_are_capped_at_sixty_four() {
    let mut token = String::from("odtk_a");
    for _ in 0..100 {
        token.push_str("_b");
    }
    let candidates = parse_token_candidates(&token);
    assert_eq!(candidates.len(), 64);
    assert_eq!(candidates[63], ("a", &token[7..]));
}

#[test]
fn constant_time_eq_compares_contents_and_lengths() {
    assert!(constant_time_eq(b"abc", b"abc"));
    assert!(!constant_time_eq(b"abc", b"abd"));
    assert!(!constant_time_eq(b"abc", b"abc\0"));
    assert!(constant_time_eq(b"", b""));
}

#[test]
fn hash_secret_is_sha256_of_salt_and_secret() {
    let hash = hash_secret(b"", "abc");
    let expected: Vec<u8> = vec![
        0xba, 0x78, 0x16, 0xbf, 0x8f, 0x01, 0xcf, 0xea, 0x41, 0x41, 0x40, 0xde, 0x5d, 0xae, 0x22,
        0x23, 0xb0, 0x03, 0x61, 0xa3, 0x96, 0x17, 0x7a, 0x9c, 0xb4, 0x10, 0xff, 0x61, 0xf2, 0x00,
        0x15, 0xad,
    ];
    assert_eq!(hash, expected);
    assert_eq!(hash_secret(b"a", "bc"), expected);
    assert_ne!(hash_secret(b"x", "abc"), expected);
}

#[test]
fn format_token_uses_odtk_prefix() {
    assert_eq!(format_token("id", "secret"), "odtk_id_secret");
}

#[test]
fn matching_candidate_is_found_by_hash() {
    let salt = vec![7u8; 16];
    let token = "odtk_id_with_sec";
    let candidates = parse_token_candidates(token);
    let good = StoredTokenHash {
        token_hash: hash_secret(&salt, "sec"),
        token_salt: salt.clone(),
    };
    let stored = vec![Some(good.clone()), None];
    assert_eq!(select_matching_candidate(&candidates, &stored), Some(0));
    let wrong = StoredTokenHash {
        token_hash: hash_secret(&salt, "other"),
        token_salt: salt.clone(),
    };
    assert_eq!(select_matching_candidate(&candidates, &vec![Some(wrong), None]), None);
    let short_salt = StoredTokenHash {
        token_hash: hash_secret(&salt[..8], "sec"),
        token_salt: salt[..8].to_vec(),
    };
    assert_eq!(select_matching_candidate(&candidates, &vec![Some(short_salt), None]), None);
}

#[test]
fn generated_tokens_verify_against_their_hash() {
    let material = generate_token_material().expect("system randomness");
    assert_eq!(material.id.len(), 12);
    assert_eq!(material.secret.len(), 43);
    assert!(material.token.starts_with("odtk_"));
    let candidates = parse_token_candidates(&material.token);
    let stored: Vec<Option<StoredTokenHash>> = candidates
        .iter()
        .map(|(id, _)| {
            if *id == material.id {
                Some(StoredTokenHash {
                    token_hash: material.hash.clone(),
                    token_salt: material.salt.clone(),
                })
            } else {
                None
            }
        })
        .collect();
    let found = select_matching_candidate(&candidates, &stored).expect("token matches");
    assert_eq!(candidates[found].0, material.id);
}

#[test]
fn labels_are_trimmed_and_blank_labels_dropped() {
    assert_eq!(normalize_label(Some("  laptop ")), Some("laptop".to_string()));
    assert_eq!(normalize_label(Some(" \t ")), None);
    assert_eq!(normalize_label(None), None);
}

fn record(id: &str, created: &str, expires: Option<&str>, revoked: Option<&str>) -> TokenRecord {
    TokenRecord {
        id: id.to_string(),
        label: None,
        created_at: created.to_string(),
        last_used_at: None,
        expires_at: expires.map(str::to_string),
        revoked_at: revoked.map(str::to_string),
    }
}

#[test]
fn active_count_skips_revoked_and_expired() {
    let now = "2026-03-21T12:00:00.000Z";
    let rows = vec![
        record("a", "2026-03-01T00:00:00.000Z", None, None),
        record("b", "2026-03-01T00:00:00.000Z", Some("2026-03-22T00:00:00.000Z"), None),
        record("c", "2026-03-01T00:00:00.000Z", Some("2026-03-21T12:00:00.000Z"), None),
        record("d", "2026-03-01T00:00:00.000Z", None, Some("2026-03-02T00:00:00.000Z")),
    ];
    assert_eq!(active_token_count(&rows, now), 2);
}

#[test]
fn revoking_all_stamps_only_unrevoked_tokens() {
    let mut rows = vec![
        record("a", "2026-03-01T00:00:00.000Z", None, None),
        record("b", "2026-03-01T00:00:00.000Z", None, Some("2026-03-02T00:00:00.000Z")),
        record("c", "2026-03-01T00:00:00.000Z", None, None),
    ];
    let n = revoke_all_tokens(&mut rows, "2026-03-21T12:00:00.000Z");
    assert_eq!(n, 2);
    assert_eq!(rows[0].revoked_at.as_deref(), Some("2026-03-21T12:00:00.000Z"));
    assert_eq!(rows[1].revoked_at.as_deref(), Some("2026-03-02T00:00:00.000Z"));
    assert_eq!(rows[2].revoked_at.as_deref(), Some("2026-03-21T12:00:00.000Z"));
}

#[test]
fn bearer_token_resolves_against_active_rows() {
    let salt = vec![7u8; 16];
    let hash = hash_secret(&salt, "s3cr3t_part");
    let now = "2026-03-21T12:00:00.000Z";
    let active = StoredToken {
        id: "tok_id".to_string(),
        token_hash: hash.clone(),
        token_salt: salt.clone(),
        expires_at: None,
        revoked_at: None,
    };
    let rows = vec![active.clone()];
    assert_eq!(
        resolve_active_token_id("odtk_tok_id_s3cr3t_part", &rows, now).as_deref(),
        Some("tok_id")
    );
    assert!(verify_bearer_token(" odtk_tok_id_s3cr3t_part\n", &rows, now));
    assert!(!verify_bearer_token("odtk_tok_id_wrong", &rows, now));
    assert!(!verify_bearer_token("bogus", &rows, now));
    let revoked = vec![StoredToken { revoked_at: Some(now.to_string()), ..active.clone() }];
    assert!(!verify_bearer_token("odtk_tok_id_s3cr3t_part", &revoked, now));
    let expired = vec![StoredToken { expires_at: Some("2026-03-01T00:00:00.000Z".to_string()), ..active }];
    assert!(!verify_bearer_token("odtk_tok_id_s3cr3t_part", &expired, now));
}

#[test]
fn material_is_made_from_the_drawn_bytes() {
    let id_bytes = [0xffu8; 9];
    let secret_bytes = [0u8; 32];
    let salt = vec![7u8; 16];
    let m = token_material_from(&id_bytes, &secret_bytes, salt.clone());
    assert_eq!(m.id, "____________");
    assert_eq!(m.secret, "A".repeat(43));
    assert_eq!(m.salt, salt);
    assert_eq!(m.hash, hash_secret(&salt, &m.secret));
    assert_eq!(m.token, format!("odtk_{}_{}", m.id, m.secret));
    let other = token_material_from(&[1u8; 9], &secret_bytes, salt.clone());
    assert_ne!(other.id, m.id);
}

#[test]
fn issuing_retries_fresh_ids_up_to_eight_times() {
    assert_eq!(ISSUE_ATTEMPTS, 8);
    assert_eq!(after_issue_attempt(1, 1), IssueStep::Issued);
    assert_eq!(after_issue_attempt(1, 0), IssueStep::TryAgain);
    assert_eq!(after_issue_attempt(7, 0), IssueStep::TryAgain);
    assert_eq!(after_issue_attempt(8, 0), IssueStep::GiveUp);
    assert_eq!(after_issue_attempt(8, 1), IssueStep::Issued);
}
