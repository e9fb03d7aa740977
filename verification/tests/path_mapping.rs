use korasi_cli::path::{is_absolute_path, render_path, split_components, PathMapper};
use korasi_cli::util::{biject_paths, calc_prefix, PathEntry, WalkError, WalkItem};

fn found(path: &str, is_dir: bool) -> Result<WalkItem, String> {
    Ok(WalkItem { path: path.to_string(), is_dir })
}

fn entry(local: &str, remote: &str, is_dir: bool) -> Result<PathEntry, WalkError> {
    Ok(PathEntry { local: local.to_string(), remote: remote.to_string(), is_dir })
}

#[test]
fn calc_src_prefix() {
    let cases = [
        ("/", ""),
        ("/work/proj/README.md", "/work/proj"),
        ("/work/proj/src/main.rs", "/work/proj/src"),
        ("/work/outside-cwd", "/work"),
    ];
    for (input, expected) in cases {
        println!("input = {input}");
        assert_eq!(calc_prefix(input), expected);
    }
}

#[test]
fn calc_remote_paths() {
    let walked = vec![
        found("/work/proj", true),
        found("/work/proj/README.md", false),
        found("/work/proj/src", true),
        found("/work/proj/src/main.rs", false),
    ];

    // Paths are unchanged
    let kept = biject_paths(&walked, "", "/home/foobar");
    assert_eq!(
        kept,
        vec![
            entry("/work/proj", "/home/foobar/work/proj", true),
            entry("/work/proj/README.md", "/home/foobar/work/proj/README.md", false),
            entry("/work/proj/src", "/home/foobar/work/proj/src", true),
            entry("/work/proj/src/main.rs", "/home/foobar/work/proj/src/main.rs", false),
        ]
    );

    // Paths prefixes are replaced
    let replaced = biject_paths(&walked, "/work", "/home/foobar");
    assert_eq!(
        replaced,
        vec![
            entry("/work/proj", "/home/foobar/proj", true),
            entry("/work/proj/README.md", "/home/foobar/proj/README.md", false),
            entry("/work/proj/src", "/home/foobar/proj/src", true),
            entry("/work/proj/src/main.rs", "/home/foobar/proj/src/main.rs", false),
        ]
    );
}

#[test]
fn prefix_of_a_top_level_directory_is_the_root() {
    assert_eq!(calc_prefix("/proj"), "/");
}

#[test]
fn prefix_of_a_relative_name_is_empty() {
    assert_eq!(calc_prefix("proj"), "");
    assert_eq!(calc_prefix("a/b"), "a");
    assert_eq!(calc_prefix(""), "");
}

#[test]
fn separators_that_repeat_or_trail_carry_no_meaning() {
    assert_eq!(calc_prefix("/a//b/"), "/a");
    let mapper = PathMapper::with_prefix("/a/", "/dst//x/");
    assert_eq!(mapper.map("/a//b///c/"), Some("/dst/x/b/c".to_string()));
}

#[test]
fn splits_into_names() {
    assert_eq!(split_components("/home/user/proj"), vec!["home", "user", "proj"]);
    assert_eq!(split_components("a//b/"), vec!["a", "b"]);
    assert_eq!(split_components("/"), Vec::<String>::new());
    assert_eq!(split_components(""), Vec::<String>::new());
    assert_eq!(split_components("répertoire/fichier"), vec!["répertoire", "fichier"]);
}

#[test]
fn renders_names() {
    let names = vec!["a".to_string(), "b".to_string()];
    assert_eq!(render_path(true, &names), "/a/b");
    assert_eq!(render_path(false, &names), "a/b");
    assert_eq!(render_path(true, &Vec::new()), "/");
    assert_eq!(render_path(false, &Vec::new()), "");
}

#[test]
fn tells_absolute_from_relative() {
    assert!(is_absolute_path("/"));
    assert!(is_absolute_path("/a"));
    assert!(!is_absolute_path("a/b"));
    assert!(!is_absolute_path(""));
}

#[test]
fn entry_below_the_source_keeps_the_name_of_the_source() {
    let mapper = PathMapper::new("/home/me/proj", "/home/user/work");
    assert_eq!(mapper.prefix_text(), "/home/me");
    assert_eq!(mapper.destination_text(), "/home/user/work");
    assert_eq!(mapper.map("/home/me/proj/a/b"), Some("/home/user/work/proj/a/b".to_string()));
}

#[test]
fn source_itself_maps_to_its_name_below_the_destination() {
    let mapper = PathMapper::new("/home/me/proj", "/home/user/work");
    assert_eq!(mapper.map("/home/me/proj"), Some("/home/user/work/proj".to_string()));
}

#[test]
fn source_at_the_file_system_root_strips_nothing() {
    assert_eq!(calc_prefix("/"), "");
    let mapper = PathMapper::new("/", "/home/user/work");
    assert_eq!(mapper.prefix_text(), "");
    assert_eq!(mapper.map("/a/b"), Some("/home/user/work/a/b".to_string()));
    assert_eq!(mapper.map("/etc"), Some("/home/user/work/etc".to_string()));
    assert_eq!(mapper.map("/"), Some("/home/user/work".to_string()));
}

#[test]
fn source_directly_below_the_root_keeps_its_name() {
    let mapper = PathMapper::new("/proj", "/dst");
    assert_eq!(mapper.prefix_text(), "/");
    assert_eq!(mapper.map("/proj"), Some("/dst/proj".to_string()));
    assert_eq!(mapper.map("/proj/x"), Some("/dst/proj/x".to_string()));
}

#[test]
fn destination_may_be_relative_or_the_root() {
    assert_eq!(
        PathMapper::new("/src/proj", "work").map("/src/proj/a"),
        Some("work/proj/a".to_string())
    );
    assert_eq!(PathMapper::new("/src/proj", "/").map("/src/proj/a"), Some("/proj/a".to_string()));
    assert_eq!(PathMapper::new("/src/proj", "").map("/src/proj/a"), Some("proj/a".to_string()));
}

#[test]
fn entry_outside_the_prefix_is_not_mapped() {
    let mapper = PathMapper::with_prefix("/home/u", "/dst");
    assert_eq!(mapper.map("/home/user/x"), None);
    assert_eq!(mapper.map("/home"), None);
    assert_eq!(mapper.map("/elsewhere/u"), None);
    assert_eq!(mapper.map("home/u/x"), None);
    assert_eq!(mapper.map("/home/u/x"), Some("/dst/x".to_string()));
}

#[test]
fn distinct_entries_map_to_distinct_remote_paths() {
    let mapper = PathMapper::new("/home/me/proj", "/srv");
    let entries = [
        "/home/me/proj",
        "/home/me/proj/a",
        "/home/me/proj/a/b",
        "/home/me/proj/ab",
        "/home/me/proj/b/a",
        "/home/me/proj/b",
    ];
    let mut remotes: Vec<String> = Vec::new();
    for e in entries {
        let remote = mapper.map(e).unwrap();
        assert!(!remotes.contains(&remote), "{remote} was given twice");
        remotes.push(remote);
    }
    assert_eq!(remotes.len(), entries.len());
}

#[test]
fn mapping_keeps_prefixes_and_order() {
    let mapper = PathMapper::new("/home/me/proj", "/srv/x");
    let entries = ["/home/me/proj", "/home/me/proj/a", "/home/me/proj/a/b", "/home/me/proj/c"];
    let remotes: Vec<String> = entries.iter().map(|e| mapper.map(e).unwrap()).collect();
    assert_eq!(remotes, vec!["/srv/x/proj", "/srv/x/proj/a", "/srv/x/proj/a/b", "/srv/x/proj/c"]);
    for i in 0..entries.len() {
        for j in 0..entries.len() {
            let below = split_components(entries[j]).starts_with(&split_components(entries[i]));
            let remote_below =
                split_components(&remotes[j]).starts_with(&split_components(&remotes[i]));
            assert_eq!(below, remote_below);
            assert_eq!(
                split_components(entries[i]) < split_components(entries[j]),
                split_components(&remotes[i]) < split_components(&remotes[j])
            );
        }
    }
}

#[test]
fn walk_is_paired_position_by_position() {
    let items = vec![
        found("/src/proj", true),
        Err("permission denied".to_string()),
        found("/src/proj/a.txt", false),
        found("/other/b.txt", false),
        found("/src/proj/a.txt", false),
    ];
    let out = biject_paths(&items, "/src", "/dst");
    assert_eq!(
        out,
        vec![
            entry("/src/proj", "/dst/proj", true),
            Err(WalkError::Unreadable { reason: "permission denied".to_string() }),
            entry("/src/proj/a.txt", "/dst/proj/a.txt", false),
            Err(WalkError::OutsideSource { path: "/other/b.txt".to_string() }),
            entry("/src/proj/a.txt", "/dst/proj/a.txt", false),
        ]
    );
}

#[test]
fn empty_walk_gives_no_entries() {
    assert_eq!(biject_paths(&Vec::new(), "/src", "/dst"), Vec::new());
}

#[test]
fn project_tree_lands_below_the_work_directory() {
    let source = "/home/me/proj";
    let items = vec![
        found("/home/me/proj", true),
        found("/home/me/proj/a.txt", false),
        found("/home/me/proj/sub", true),
        found("/home/me/proj/sub/b.txt", false),
    ];
    let out = biject_paths(&items, &calc_prefix(source), "/home/user/work");
    assert_eq!(
        out,
        vec![
            entry("/home/me/proj", "/home/user/work/proj", true),
            entry("/home/me/proj/a.txt", "/home/user/work/proj/a.txt", false),
            entry("/home/me/proj/sub", "/home/user/work/proj/sub", true),
            entry("/home/me/proj/sub/b.txt", "/home/user/work/proj/sub/b.txt", false),
        ]
    );
}
