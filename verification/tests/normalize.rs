use lexical_path::component::Component;
use lexical_path::normalize::{normalize_components, normalize_to_component_vec};

fn normal(name: &str) -> Component {
    Component::Normal(name.to_string())
}

fn prefix(text: &str) -> Component {
    Component::Prefix(text.to_string())
}

#[test]
fn root_is_a_floor() {
    assert_eq!(normalize_to_component_vec("/.."), vec![Component::RootDir]);
    assert_eq!(normalize_to_component_vec("/../../.."), vec![Component::RootDir]);
    assert_eq!(
        normalize_components(vec![Component::RootDir, Component::ParentDir]),
        vec![Component::RootDir]
    );
}

#[test]
fn parent_cancels_the_name_before_it() {
    assert_eq!(normalize_to_component_vec("a/b/../c"), vec![normal("a"), normal("c")]);
    assert_eq!(
        normalize_components(vec![normal("a"), normal("b"), Component::ParentDir, normal("c")]),
        vec![normal("a"), normal("c")]
    );
}

#[test]
fn leading_parents_accumulate() {
    assert_eq!(
        normalize_to_component_vec("../../a"),
        vec![Component::ParentDir, Component::ParentDir, normal("a")]
    );
}

#[test]
fn parents_past_the_start_are_kept() {
    assert_eq!(normalize_to_component_vec("a/../.."), vec![Component::ParentDir]);
    assert_eq!(
        normalize_to_component_vec("a/b/../../../c"),
        vec![Component::ParentDir, normal("c")]
    );
}

#[test]
fn parents_below_the_root_cancel_then_stop() {
    assert_eq!(normalize_to_component_vec("/a/../.."), vec![Component::RootDir]);
    assert_eq!(normalize_to_component_vec("/a/b/.."), vec![Component::RootDir, normal("a")]);
}

#[test]
fn prefix_is_never_removed() {
    assert_eq!(
        normalize_components(vec![prefix("C:"), Component::ParentDir]),
        vec![prefix("C:"), Component::ParentDir]
    );
    assert_eq!(
        normalize_components(vec![
            prefix("C:"),
            Component::ParentDir,
            Component::ParentDir,
            Component::ParentDir,
        ]),
        vec![prefix("C:"), Component::ParentDir, Component::ParentDir, Component::ParentDir]
    );
    assert_eq!(
        normalize_components(vec![prefix("C:"), normal("a"), Component::ParentDir, Component::ParentDir]),
        vec![prefix("C:"), Component::ParentDir]
    );
}

#[test]
fn prefix_then_root_is_a_floor() {
    assert_eq!(
        normalize_components(vec![
            prefix("C:"),
            Component::RootDir,
            Component::ParentDir,
            normal("a"),
        ]),
        vec![prefix("C:"), Component::RootDir, normal("a")]
    );
}

#[test]
fn empty_path_gives_no_components() {
    assert_eq!(normalize_to_component_vec(""), Vec::<Component>::new());
    assert_eq!(normalize_components(Vec::new()), Vec::<Component>::new());
}

#[test]
fn cur_dir_never_survives() {
    for path in ["./a/./b/.", ".", "./.", "a/./../.", "/./."] {
        let kept = normalize_to_component_vec(path);
        assert!(!kept.contains(&Component::CurDir));
    }
    assert_eq!(normalize_to_component_vec("./a/./b"), vec![normal("a"), normal("b")]);
    assert_eq!(normalize_to_component_vec("."), Vec::<Component>::new());
    assert_eq!(
        normalize_components(vec![normal("a"), Component::CurDir, Component::CurDir, normal("b")]),
        vec![normal("a"), normal("b")]
    );
}

#[test]
fn root_is_always_kept() {
    assert_eq!(normalize_to_component_vec("/"), vec![Component::RootDir]);
    assert_eq!(
        normalize_to_component_vec("/usr/lib"),
        vec![Component::RootDir, normal("usr"), normal("lib")]
    );
}

#[test]
fn repeated_and_trailing_separators_add_nothing() {
    assert_eq!(normalize_to_component_vec("a//b/"), vec![normal("a"), normal("b")]);
}

#[test]
fn survivors_keep_their_order() {
    assert_eq!(
        normalize_to_component_vec("a/x/../b/./c/y/../d"),
        vec![normal("a"), normal("b"), normal("c"), normal("d")]
    );
}

#[test]
fn normalizing_twice_changes_nothing() {
    let lists = vec![
        vec![normal("a"), normal("b"), Component::ParentDir, normal("c")],
        vec![Component::ParentDir, Component::ParentDir, normal("a")],
        vec![Component::RootDir, Component::ParentDir, Component::CurDir, normal("a")],
        vec![prefix("C:"), Component::ParentDir, normal("a"), Component::ParentDir],
        vec![],
    ];
    for list in lists {
        let once = normalize_components(list);
        let twice = normalize_components(once.clone());
        assert_eq!(twice, once);
    }
}

#[test]
fn names_are_carried_over_unchanged() {
    assert_eq!(
        normalize_to_component_vec("dir with space/é/.hidden"),
        vec![normal("dir with space"), normal("é"), normal(".hidden")]
    );
    assert_eq!(normalize_to_component_vec("..."), vec![normal("...")]);
}

#[test]
fn clone_copies_every_shape() {
    let all = vec![
        prefix("C:"),
        Component::RootDir,
        Component::CurDir,
        Component::ParentDir,
        normal("a"),
    ];
    for component in &all {
        assert_eq!(&component.clone(), component);
    }
}
