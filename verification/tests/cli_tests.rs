use clean_builds::cli::Cli;

fn args(list: &[&str]) -> Vec<String> {
    list.iter().map(|s| s.to_string()).collect()
}

#[test]
fn defaults() {
    let cli = Cli::parse_from(args(&["clean-builds"]));
    assert_eq!(cli.path, ".".to_string());
    assert!(!cli.delete);
    assert!(!cli.yes);
    assert!(!cli.verbose);
    assert!(cli.includes.is_empty());
    assert!(cli.excludes.is_empty());
}

#[test]
fn all_options() {
    let cli = Cli::parse_from(args(&[
        "clean-builds",
        "--delete",
        "-y",
        "-v",
        "--include",
        "node_modules",
        "--include",
        "target",
        "--exclude",
        "vendor*",
        "--exclude",
        "old-*",
        "/tmp/projects",
    ]));
    assert_eq!(cli.path, "/tmp/projects".to_string());
    assert!(cli.delete);
    assert!(cli.yes);
    assert!(cli.verbose);
    assert_eq!(cli.includes, vec!["node_modules", "target"]);
    assert_eq!(cli.excludes, vec!["vendor*", "old-*"]);
}

#[test]
fn include_flag() {
    let cli = Cli::parse_from(args(&[
        "clean-builds",
        "--include",
        "node_modules",
        "--include",
        "target",
    ]));
    assert_eq!(cli.includes, vec!["node_modules", "target"]);
    assert!(cli.excludes.is_empty());
}

#[test]
fn verbose_long_form() {
    let cli = Cli::parse_from(args(&["clean-builds", "--verbose"]));
    assert!(cli.verbose);
}
