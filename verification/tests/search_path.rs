use std::path::PathBuf;

use sotto::search_path::enriched_search_path;

fn strings(v: &[&str]) -> Vec<String> {
    v.iter().map(|s| s.to_string()).collect()
}

/// The same merge done with `PathBuf` from std.
fn oracle(current: &[&str], home: Option<&str>) -> Vec<String> {
    let mut paths: Vec<PathBuf> = current.iter().map(PathBuf::from).collect();
    for e in ["/opt/homebrew/bin", "/usr/local/bin", "/usr/bin"] {
        let p = PathBuf::from(e);
        if !paths.contains(&p) {
            paths.push(p);
        }
    }
    if let Some(home) = home.map(PathBuf::from) {
        for sub in [".local/bin", ".cargo/bin", ".bun/bin", "bin"] {
            let p = home.join(sub);
            if !paths.contains(&p) {
                paths.push(p);
            }
        }
    }
    paths.into_iter().map(|p| p.to_string_lossy().into_owned()).collect()
}

#[test]
fn adds_missing_install_dirs_in_order() {
    let r = enriched_search_path(strings(&["/usr/bin", "/bin"]), Some("/Users/me".into()));
    assert_eq!(
        r,
        strings(&[
            "/usr/bin",
            "/bin",
            "/opt/homebrew/bin",
            "/usr/local/bin",
            "/Users/me/.local/bin",
            "/Users/me/.cargo/bin",
            "/Users/me/.bun/bin",
            "/Users/me/bin",
        ])
    );
}

#[test]
fn without_home_only_system_dirs_are_added() {
    let r = enriched_search_path(Vec::new(), None);
    assert_eq!(r, strings(&["/opt/homebrew/bin", "/usr/local/bin", "/usr/bin"]));
}

#[test]
fn agrees_with_pathbuf_merge() {
    let cases: Vec<(Vec<&str>, Option<&str>)> = vec![
        (vec![], None),
        (vec!["/usr/bin", "/bin"], Some("/home/a")),
        (vec!["/home/a/bin", "/opt/homebrew/bin", "/usr/local/bin"], Some("/home/a")),
        (vec!["/x", "/home/b/.cargo/bin"], Some("/home/b")),
        (vec!["/usr/bin"], Some("/")),
        (vec!["/usr/bin", "/usr/bin"], Some("")),
        (vec!["/usr/bin/", "/usr//local/bin", "./x", "/opt/homebrew/./bin"], Some("/home/a/")),
        (vec!["usr/bin", "./usr/local/bin", "."], Some("home")),
        (vec!["/home/a/.local/bin/", "//home/a/.cargo/bin"], Some("/home/a")),
    ];
    for (current, home) in cases {
        let got = enriched_search_path(strings(&current), home.map(|h| h.to_string()));
        assert_eq!(got, oracle(&current, home), "{:?} {:?}", current, home);
    }
}

#[test]
fn entries_naming_the_same_path_are_kept_as_given() {
    let r = enriched_search_path(strings(&["/usr/bin/", "/usr//local/bin"]), None);
    assert_eq!(r, strings(&["/usr/bin/", "/usr//local/bin", "/opt/homebrew/bin"]));
}
