use boiler::github::github_download_url;
use boiler::github::github_repo_url;
use boiler::github::GitHubShortName;
use boiler::yini::BoilerYini;

#[test]
fn short_name_parses_org_and_name() {
    let g = GitHubShortName::parse("acme/game").unwrap();
    assert_eq!(g.org, "acme");
    assert_eq!(g.name, "game");
}

#[test]
fn short_name_needs_exactly_one_separator() {
    assert!(GitHubShortName::parse("acme").is_none());
    assert!(GitHubShortName::parse("a/b/c").is_none());
    assert!(GitHubShortName::parse("").is_none());
    assert!(GitHubShortName::parse("a/").is_some());
}

#[test]
fn repo_url_exact_text() {
    let g = GitHubShortName { org: "acme".to_string(), name: "game".to_string() };
    assert_eq!(github_repo_url(&g), "https://github.com/acme/game.git");
}

#[test]
fn download_url_exact_text() {
    let g = GitHubShortName { org: "acme".to_string(), name: "game".to_string() };
    assert_eq!(
        github_download_url(&g, "1.2.3", "game"),
        "https://github.com/acme/game/releases/download/v1.2.3/game"
    );
}

#[test]
fn default_configuration_is_empty() {
    let c = BoilerYini::default();
    assert_eq!(c.app_id, 0);
    assert_eq!(c.binaries.repo.org, "");
    assert_eq!(c.binaries.macos.depot, 0);
    assert_eq!(c.binaries.windows.depot, 0);
    assert_eq!(c.binaries.linux.depot, 0);
    assert_eq!(c.content.depot, 0);
    assert!(c.content.copy.is_empty());
}
