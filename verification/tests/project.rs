use vipune::project::{named_project, parse_git_remote};

#[test]
fn test_parse_ssh_remote() {
    assert_eq!(
        parse_git_remote("git@github.com:owner/repo.git"),
        "owner/repo"
    );
    assert_eq!(parse_git_remote("git@github.com:owner/repo"), "owner/repo");
}

#[test]
fn test_parse_https_remote() {
    assert_eq!(
        parse_git_remote("https://github.com/owner/repo.git"),
        "owner/repo"
    );
    assert_eq!(
        parse_git_remote("https://github.com/owner/repo"),
        "owner/repo"
    );
}

#[test]
fn test_parse_ssh_url_with_protocol() {
    assert_eq!(
        parse_git_remote("ssh://git@github.com/owner/repo.git"),
        "owner/repo"
    );
}

#[test]
fn test_git_suffix_stripping() {
    assert_eq!(parse_git_remote("owner/repo.git"), "owner/repo");
}

#[test]
fn test_fallback_when_no_domain() {
    assert_eq!(parse_git_remote("just-name"), "just-name");
}

/// The same parsing written with the string methods of std.
fn reference(url: &str) -> String {
    let url = url.trim().trim_end_matches(".git");
    if let Some(rest) = url.strip_prefix("git@") {
        if let Some(colon_pos) = rest.find(':') {
            return rest[colon_pos + 1..].to_string();
        }
    }
    if let Some(rest) = url.split("://").nth(1) {
        let parts: Vec<&str> = rest.split('/').collect();
        if parts.len() >= 3 {
            return format!("{}/{}", parts[parts.len() - 2], parts[parts.len() - 1]);
        }
    }
    url.to_string()
}

#[test]
fn remote_parsing_agrees_with_std_on_odd_addresses() {
    let cases = [
        "",
        "   ",
        ".git",
        ".git.git",
        "repo.git.git",
        "  git@host:me/repo.git\n",
        "git@host",
        "git@",
        "git@host:",
        "git@host:a:b",
        "git@host/no/colon",
        "git@://a/b/c",
        "https://host/repo",
        "https://host/a/b/c/d",
        "https://host//",
        "https://",
        "://",
        "a://b://c/d/e",
        "a://b/c/d://e/f/g",
        "http://h/ö/ü.git",
        "\u{3000}https://h/o/r\u{2003}",
        "file:///srv/git/team/project.git",
        "x.gitx",
        "owner/repo.GIT",
    ];
    for case in cases {
        assert_eq!(parse_git_remote(case), reference(case), "for {:?}", case);
    }
}

#[test]
fn a_given_name_is_trimmed_and_a_blank_one_is_none() {
    assert_eq!(named_project("my-project").as_deref(), Some("my-project"));
    assert_eq!(named_project("  padded name\n").as_deref(), Some("padded name"));
    assert_eq!(named_project(""), None);
    assert_eq!(named_project("   \t  "), None);
}
