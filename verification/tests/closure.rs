use modder::cli::Source;
use modder::closure::ClosureBuilder;
use modder::model::{DependencyRef, ProjectRef, Relation, VersionDescriptor};

fn descriptor(id: &str, deps: &[&str]) -> VersionDescriptor {
    VersionDescriptor {
        source: Source::Modrinth,
        project_id: id.to_string(),
        version_id: format!("{id}-1"),
        game_versions: vec!["1.21.4".to_string()],
        loaders: vec!["fabric".to_string()],
        files: Vec::new(),
        dependencies: deps
            .iter()
            .map(|d| DependencyRef { target: ProjectRef::new(Source::Modrinth, d), relation: Relation::Required })
            .collect(),
    }
}

fn answer(id: &str) -> Option<VersionDescriptor> {
    match id {
        "root" => Some(descriptor("root", &["root", "lib"])),
        "lib" => Some(descriptor("lib", &[])),
        "a" => Some(descriptor("a", &["b", "gone"])),
        "b" => Some(descriptor("b", &["a", "c"])),
        "c" => Some(descriptor("c", &["a", "b", "c"])),
        "top" => Some(descriptor("top", &["back", "lib"])),
        "back" => Some(descriptor("back", &["top"])),
        _ => None,
    }
}

fn run(roots: &[&str]) -> (Vec<String>, usize) {
    let roots: Vec<ProjectRef> = roots.iter().map(|r| ProjectRef::new(Source::Modrinth, r)).collect();
    let mut builder = ClosureBuilder::new(&roots);
    let mut asked = 0;
    while let Some(key) = builder.next_request() {
        asked += 1;
        assert!(asked < 100);
        builder.on_resolved(&key, answer(&key.project_id));
    }
    assert!(builder.is_finished());
    let skipped = builder.skipped_count();
    let entries = builder.into_entries();
    (entries.into_iter().map(|e| e.key.project_id).collect(), skipped)
}

#[test]
fn a_dependency_equal_to_the_root_is_skipped() {
    let (resolved, skipped) = run(&["root"]);
    assert_eq!(resolved, vec!["root".to_string(), "lib".to_string()]);
    assert_eq!(skipped, 1);
}

#[test]
fn cycles_end_and_every_project_comes_once() {
    let (resolved, skipped) = run(&["a"]);
    assert_eq!(resolved, vec!["a".to_string(), "b".to_string(), "c".to_string()]);
    // b lists a; c lists a, b and c.
    assert_eq!(skipped, 4);
}

#[test]
fn a_root_named_twice_is_resolved_once() {
    let (resolved, skipped) = run(&["lib", "lib"]);
    assert_eq!(resolved, vec!["lib".to_string()]);
    assert_eq!(skipped, 1);
}

#[test]
fn a_project_without_a_version_prunes_its_branch() {
    let (resolved, skipped) = run(&["gone"]);
    assert!(resolved.is_empty());
    assert_eq!(skipped, 0);
}

#[test]
fn the_same_id_at_two_providers_is_two_projects() {
    let mut builder = ClosureBuilder::new(&Vec::new());
    assert!(builder.check_and_insert(ProjectRef::new(Source::Modrinth, "x"), true));
    assert!(builder.check_and_insert(ProjectRef::new(Source::CurseForge, "x"), true));
    assert!(!builder.check_and_insert(ProjectRef::new(Source::Modrinth, "x"), false));
    assert_eq!(builder.skipped_count(), 1);
}

#[test]
fn an_answer_nobody_asked_for_changes_nothing() {
    let roots = vec![ProjectRef::new(Source::Modrinth, "lib")];
    let mut builder = ClosureBuilder::new(&roots);
    builder.on_resolved(&ProjectRef::new(Source::Modrinth, "lib"), answer("lib"));
    builder.on_resolved(&ProjectRef::new(Source::Modrinth, "other"), answer("lib"));
    assert!(!builder.is_finished());
    let key = builder.next_request().unwrap();
    assert_eq!(key.project_id, "lib");
    assert!(builder.next_request().is_none());
    builder.on_resolved(&key, answer("lib"));
    assert!(builder.is_finished());
    assert_eq!(builder.into_entries().len(), 1);
}

#[test]
fn a_dependency_that_lists_the_root_is_resolved_and_the_root_is_not_asked_again() {
    let (resolved, skipped) = run(&["top"]);
    assert_eq!(resolved, vec!["top".to_string(), "back".to_string(), "lib".to_string()]);
    assert_eq!(skipped, 1);
}

#[test]
fn entries_say_which_projects_were_asked_for() {
    let roots = vec![ProjectRef::new(Source::Modrinth, "a")];
    let mut builder = ClosureBuilder::new(&roots);
    while let Some(key) = builder.next_request() {
        builder.on_resolved(&key, answer(&key.project_id));
    }
    let entries = builder.into_entries();
    let roots: Vec<bool> = entries.iter().map(|e| e.is_root).collect();
    assert_eq!(roots, vec![true, false, false]);
    assert_eq!(entries[1].descriptor.project_id, "b");
}

fn catalogue(ids: &[&str]) -> Vec<(ProjectRef, VersionDescriptor)> {
    ids.iter().filter_map(|id| answer(id).map(|d| (ProjectRef::new(Source::Modrinth, id), d))).collect()
}

#[test]
fn expand_over_a_catalogue() {
    let roots = vec![ProjectRef::new(Source::Modrinth, "root")];
    let builder = ClosureBuilder::expand(&roots, catalogue(&["lib", "root", "a"]));
    assert!(builder.is_finished());
    assert_eq!(builder.skipped_count(), 1);
    let ids: Vec<String> = builder.into_entries().into_iter().map(|e| e.key.project_id).collect();
    assert_eq!(ids, vec!["root".to_string(), "lib".to_string()]);
}

#[test]
fn expand_ends_on_circles_and_prunes_what_is_missing() {
    let roots = vec![ProjectRef::new(Source::Modrinth, "a"), ProjectRef::new(Source::Modrinth, "nowhere")];
    let builder = ClosureBuilder::expand(&roots, catalogue(&["a", "b", "c", "a"]));
    assert!(builder.is_finished());
    assert_eq!(builder.nodes.len(), 5);
    // Two roots and seven references of the three versions: five projects, four skips.
    assert_eq!(builder.skipped_count(), 4);
    let ids: Vec<String> = builder.into_entries().into_iter().map(|e| e.key.project_id).collect();
    assert_eq!(ids, vec!["a".to_string(), "b".to_string(), "c".to_string()]);
    assert!(ClosureBuilder::expand(&Vec::new(), catalogue(&["a"])).into_entries().is_empty());
    assert!(ClosureBuilder::expand(&roots, Vec::new()).into_entries().is_empty());
}
