use modder::toggle::{disabled_name, enabled_name, file_name_of, path_is_disabled, plan, plan_states, toggle};

#[test]
fn toggle_twice_restores_the_name() {
    for name in ["mods/sodium.jar", "mods/sodium.jar.disabled", "a", ""] {
        let once = toggle(name);
        let twice = toggle(&once);
        assert_eq!(twice, name);
        assert_eq!(path_is_disabled(&twice), path_is_disabled(name));
        assert_ne!(path_is_disabled(&once), path_is_disabled(name));
    }
}

#[test]
fn toggle_of_a_name_with_two_suffixes() {
    // The enabled form carries no suffix at all, so this name is not restored.
    assert_eq!(toggle("x.jar.disabled.disabled"), "x.jar");
    assert_eq!(toggle("x.jar"), "x.jar.disabled");
}

#[test]
fn enabled_and_disabled_names() {
    assert_eq!(disabled_name("mods/a.jar"), "mods/a.jar.disabled");
    assert_eq!(enabled_name("mods/a.jar.disabled"), "mods/a.jar");
    assert_eq!(enabled_name("mods/a.jar"), "mods/a.jar");
    assert_eq!(enabled_name("mods.disabled/a.jar.disabled"), "mods.disabled/a.jar");
    assert!(path_is_disabled("a.disabled"));
    assert!(!path_is_disabled("a.disabled.jar"));
    assert!(!path_is_disabled("disabled"));
}

#[test]
fn file_name_is_the_last_component() {
    assert_eq!(file_name_of("mods/a.jar"), "a.jar");
    assert_eq!(file_name_of("a.jar"), "a.jar");
    assert_eq!(file_name_of("/x/y/"), "");
}

#[test]
fn plan_renames_only_what_is_in_the_wrong_state() {
    let paths = vec![
        "mods/a.jar".to_string(),
        "mods/b.jar.disabled".to_string(),
        "mods/c.jar".to_string(),
        "mods/d.jar.disabled".to_string(),
    ];
    let selection = vec!["a.jar".to_string(), "b.jar.disabled".to_string()];
    let ops = plan(&paths, &selection);
    assert_eq!(ops.len(), 2);
    assert_eq!(ops[0].from, "mods/b.jar.disabled");
    assert_eq!(ops[0].to, "mods/b.jar");
    assert_eq!(ops[1].from, "mods/c.jar");
    assert_eq!(ops[1].to, "mods/c.jar.disabled");
}

#[test]
fn plan_states_follows_the_flags() {
    let paths = vec!["a.jar".to_string(), "b.jar.disabled".to_string()];
    let ops = plan_states(&paths, &vec![false, true]);
    assert_eq!(ops.len(), 2);
    assert_eq!(ops[0].to, "a.jar.disabled");
    assert_eq!(ops[1].to, "b.jar");
    assert!(plan_states(&paths, &vec![true, false]).is_empty());
}

#[test]
fn a_mod_without_a_state_asked_for_is_left_alone() {
    let paths = vec!["a.jar".to_string(), "b.jar".to_string()];
    let ops = plan_states(&paths, &vec![false]);
    assert_eq!(ops.len(), 1);
    assert_eq!(ops[0].from, "a.jar");
    assert!(plan_states(&paths, &Vec::new()).is_empty());
    assert_eq!(plan_states(&paths[..1].to_vec(), &vec![false, false]).len(), 1);
}
