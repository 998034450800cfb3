use force::env::{hash_to_offset, project_name_of, slugify, ForceEnv};
use force::text::{decimal_string, hex_string, signed_decimal_string};
use std::collections::HashMap;

#[test]
fn test_slugify() {
    assert_eq!(slugify("add-login"), "add_login");
    assert_eq!(slugify("My Feature"), "my_feature");
    assert_eq!(slugify("feature_123"), "feature_123");
}

#[test]
fn test_slugify_empty() {
    assert_eq!(slugify(""), "");
}

#[test]
fn test_slugify_special_chars() {
    assert_eq!(slugify("a@b#c$d"), "a_b_c_d");
}

#[test]
fn slugify_keeps_one_char_per_char_for_non_ascii() {
    let s = "Ünïcode-Ωmega 42";
    let slug = slugify(s);
    assert_eq!(slug, "_n_code__mega_42");
    assert_eq!(slug.chars().count(), s.chars().count());
    assert!(slug.chars().all(|c| c.is_ascii_lowercase() || c.is_ascii_digit() || c == '_'));
}

#[test]
fn slugify_is_idempotent() {
    for s in ["Hello World-42!", "ALLCAPS", "", "x.y/z", "日本"] {
        let once = slugify(s);
        assert_eq!(slugify(&once), once);
    }
}

#[test]
fn slugify_lowercases_letters() {
    assert_eq!(slugify("A"), "a");
    assert_eq!(slugify("ZZ9"), "zz9");
}

#[test]
fn test_hash_is_deterministic() {
    let offset1 = hash_to_offset("my-feature");
    let offset2 = hash_to_offset("my-feature");
    assert_eq!(offset1, offset2);
}

#[test]
fn test_hash_is_in_range() {
    let offset = hash_to_offset("some-random-feature-name");
    assert!(offset < 1000);
}

#[test]
fn test_hash_empty_string() {
    let offset = hash_to_offset("");
    assert!(offset < 1000);
}

#[test]
fn hash_to_offset_exact_values() {
    assert_eq!(hash_to_offset(""), 0);
    assert_eq!(hash_to_offset("my-feature"), 821);
    assert_eq!(hash_to_offset("some-random-feature-name"), 931);
    assert_eq!(hash_to_offset("add-login"), 981);
    assert_eq!(hash_to_offset("feature-a"), 538);
    assert_eq!(hash_to_offset("feature-b"), 539);
}

#[test]
fn hash_to_offset_hashes_utf8_bytes() {
    assert_eq!(hash_to_offset("ü"), 233);
}

#[test]
fn test_force_env_to_env_vars() {
    let env = ForceEnv::new("my-feature", "/project/.force", "/project/../worktrees/my_feature");
    let vars = env.to_env_vars();

    assert_eq!(vars.len(), 7);

    let var_map: HashMap<_, _> = vars.into_iter().collect();
    assert_eq!(var_map.get("FORCE_FEATURE"), Some(&"my-feature".to_string()));
    assert_eq!(var_map.get("FORCE_FEATURE_SLUG"), Some(&"my_feature".to_string()));
    assert!(var_map.contains_key("FORCE_PORT"));
    assert!(var_map.contains_key("FORCE_PORT_OFFSET"));
    assert!(var_map.contains_key("FORCE_DB_NAME"));
    assert!(var_map.contains_key("FORCE_DIR"));
    assert!(var_map.contains_key("FORCE_WORKTREE"));
}

#[test]
fn env_vars_hold_exact_values_in_order() {
    let env = ForceEnv::new("my-feature", "/project/.force", "/wt/my_feature");
    let vars = env.to_env_vars();
    let expected = [
        ("FORCE_FEATURE", "my-feature"),
        ("FORCE_FEATURE_SLUG", "my_feature"),
        ("FORCE_PORT_OFFSET", "821"),
        ("FORCE_PORT", "4821"),
        ("FORCE_DB_NAME", "project_my_feature"),
        ("FORCE_DIR", "/project/.force"),
        ("FORCE_WORKTREE", "/wt/my_feature"),
    ];
    assert_eq!(vars.len(), expected.len());
    for (got, want) in vars.iter().zip(expected.iter()) {
        assert_eq!(got.0, want.0);
        assert_eq!(got.1, want.1);
    }
}

#[test]
fn test_force_env_db_name() {
    let env = ForceEnv::new("add-login", "/myproject/.force", "/myproject/../worktrees/add_login");
    assert_eq!(env.db_name, "myproject_add_login");
}

#[test]
fn port_is_in_range_and_stable() {
    for feature in ["a", "my-feature", "Zebra-99", "x-y-z-long-feature-name"] {
        let a = ForceEnv::new(feature, "/test/.force", "/one");
        let b = ForceEnv::new(feature, "/other/.force", "/two");
        assert!(a.port >= 4000 && a.port < 5000);
        assert_eq!(a.port, b.port);
        assert_eq!(a.port, 4000 + a.port_offset);
    }
    assert_eq!(ForceEnv::new("my-feature", "/p/.force", "/w").port, 4821);
}

#[test]
fn project_name_follows_path_components() {
    assert_eq!(project_name_of("/myproject/.force"), "myproject");
    assert_eq!(project_name_of("/a/b/.force/"), "b");
    assert_eq!(project_name_of("/a//b/./.force"), "b");
    assert_eq!(project_name_of("/.force"), "app");
    assert_eq!(project_name_of(".force"), "app");
    assert_eq!(project_name_of("../.force"), "app");
    assert_eq!(project_name_of("My Project/.force"), "My Project");
    let env = ForceEnv::new("f", "/srv/My-App/.force", "/w");
    assert_eq!(env.db_name, "my_app_f");
    let env = ForceEnv::new("f", "/.force", "/w");
    assert_eq!(env.db_name, "app_f");
}

#[test]
fn number_formatting() {
    assert_eq!(decimal_string(0), "0");
    assert_eq!(decimal_string(4821), "4821");
    assert_eq!(decimal_string(u64::MAX), u64::MAX.to_string());
    assert_eq!(signed_decimal_string(-1), "-1");
    assert_eq!(signed_decimal_string(i32::MIN), i32::MIN.to_string());
    assert_eq!(signed_decimal_string(137), "137");
    assert_eq!(hex_string(0xab, 4), "00ab");
    assert_eq!(hex_string(u64::MAX, 16), "ffffffffffffffff");
}
