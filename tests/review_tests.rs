use vuru::cli::{Cli, Plan};
use vuru::index::Index;
use vuru::review::{answer_accepts, confirms, decide, is_affirmative, review_kind, template_url, Decision, ReviewKind};
use vuru::upgrade::{parse_installed_line, select_updates, split_name_version, upgrade_candidates, UpgradeCandidate};

#[test]
fn changed_recipe_is_a_diff() {
    assert_eq!(review_kind(Some("A\nB\n"), "A\nC\n"), ReviewKind::Changed);
}

#[test]
fn same_recipe_is_unchanged() {
    assert_eq!(review_kind(Some("A\nB\n"), "A\nB\n"), ReviewKind::Unchanged);
}

#[test]
fn no_previous_recipe_is_first_install() {
    assert_eq!(review_kind(None, "A\n"), ReviewKind::FirstInstall);
    assert_eq!(review_kind(None, ""), ReviewKind::FirstInstall);
}

#[test]
fn recipe_address() {
    assert_eq!(
        template_url("dev", "foo"),
        "https://raw.githubusercontent.com/VUP-Linux/vup/main/vup/srcpkgs/dev/foo/template"
    );
}

#[test]
fn answers_that_accept() {
    assert!(is_affirmative(""));
    assert!(is_affirmative("\n"));
    assert!(is_affirmative("y\n"));
    assert!(is_affirmative("  YES \n"));
    assert!(is_affirmative("Y"));
}

#[test]
fn answers_that_decline() {
    assert!(!is_affirmative("n\n"));
    assert!(!is_affirmative("no"));
    assert!(!is_affirmative("yess"));
    assert!(!is_affirmative("y e s"));
}

#[test]
fn normalized_answers() {
    assert!(answer_accepts(""));
    assert!(answer_accepts("yes"));
    assert!(!answer_accepts("YES"));
    assert!(!answer_accepts(" y"));
}

#[test]
fn declined_review_keeps_nothing() {
    let index = Index::decode(r#"{"foo": {"category":"dev","version":"1.0","repo_url":"http://x"}}"#).unwrap();
    let info = index.get("foo").unwrap();
    assert!(matches!(decide(false, "foo", "new".to_string(), info), Decision::Abort));
    match decide(true, "foo", "new".to_string(), info) {
        Decision::Install { package, template, repo_url } => {
            assert_eq!(package, "foo");
            assert_eq!(template, "new");
            assert_eq!(repo_url, "http://x");
        }
        Decision::Abort => panic!("an accepted review installs"),
    }
}

#[test]
fn listing_line_parts() {
    let (name, version) = parse_installed_line("ii foo-bar-1.2_1 A package").unwrap();
    assert_eq!(name, "foo-bar");
    assert_eq!(version, "1.2_1");
    assert!(parse_installed_line("ii").is_none());
    assert!(parse_installed_line("ii nodash desc").is_none());
    assert!(parse_installed_line("").is_none());
}

#[test]
fn name_version_split() {
    let (n, v) = split_name_version("a-").unwrap();
    assert_eq!(n, "a");
    assert_eq!(v, "");
    assert!(split_name_version("abc").is_none());
}

#[test]
fn candidates_from_listing() {
    let index = Index::decode(
        r#"{"foo": {"category":"dev","version":"1.1","repo_url":"http://x"},
            "bar": {"category":"dev","version":"0.3","repo_url":"http://z"}}"#,
    )
    .unwrap();
    let listing = "ii foo-1.0_1 Foo\nii other-2.0_1 Other\nii bar-0.3_1 Bar\n";
    let found = upgrade_candidates(&index, listing);
    assert_eq!(found.len(), 2);
    assert_eq!(found[0].name, "foo");
    assert_eq!(found[0].installed, "1.0_1");
    assert_eq!(found[0].available, "1.1");
    assert_eq!(found[0].repo_url, "http://x");
    assert_eq!(found[1].name, "bar");
    assert_eq!(found[1].installed, "0.3_1");
}

fn cli(sync: bool, update: bool, packages: Vec<String>) -> Cli {
    Cli { command: None, sync, update, yes: false, packages }
}

#[test]
fn plans_without_subcommand() {
    assert_eq!(cli(false, false, vec![]).plan(), Plan::Help);
    assert_eq!(cli(true, false, vec![]).plan(), Plan::SyncOnly);
    assert_eq!(cli(true, true, vec![]).plan(), Plan::UpgradeAll);
    assert_eq!(cli(false, true, vec!["foo".to_string()]).plan(), Plan::InstallPackages);
}

#[test]
fn no_answer_declines() {
    assert!(!confirms(None));
    assert!(confirms(Some("\n")));
    assert!(confirms(Some("Yes\n")));
    assert!(!confirms(Some("n\n")));
}

#[test]
fn listing_with_crlf_endings() {
    let index = Index::decode(r#"{"foo": {"category":"dev","version":"1.1","repo_url":"http://x"}}"#).unwrap();
    let found = upgrade_candidates(&index, "ii foo-1.0_1\r\n\nii bar-2_1\r\n");
    assert_eq!(found.len(), 1);
    assert_eq!(found[0].installed, "1.0_1");
    assert!(upgrade_candidates(&index, "").is_empty());
}

fn candidate(name: &str) -> UpgradeCandidate {
    UpgradeCandidate {
        name: name.to_string(),
        installed: "1".to_string(),
        available: "2".to_string(),
        repo_url: "http://x".to_string(),
    }
}

#[test]
fn selects_newer_candidates_in_order() {
    let checked = vec![(candidate("a"), true), (candidate("b"), false), (candidate("c"), true)];
    let picked: Vec<String> = select_updates(&checked).into_iter().map(|c| c.name).collect();
    assert_eq!(picked, vec!["a".to_string(), "c".to_string()]);
    assert!(select_updates(&vec![(candidate("d"), false)]).is_empty());
}
