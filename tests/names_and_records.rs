use arch_clean::icon::{icon_path, IconManager};
use arch_clean::names::{ends_with, first_hyphen, prefix_before_hyphen, replace_hyphens, trim_suffix};
use arch_clean::package::Package;

#[test]
fn variants_of_name_with_hyphens() {
    let m = IconManager::new();
    assert_eq!(
        m.get_name_variants("vlc-media-player"),
        vec!["vlc_media_player".to_string(), "vlc".to_string()]
    );
}

#[test]
fn variants_of_plain_name() {
    let m = IconManager::new();
    assert!(m.get_name_variants("firefox").is_empty());
}

#[test]
fn variants_of_bin_package() {
    let m = IconManager::new();
    assert_eq!(
        m.get_name_variants("foo-bin"),
        vec!["foo_bin".to_string(), "foo".to_string(), "foo".to_string()]
    );
}

#[test]
fn variants_of_git_package_trim_in_sequence() {
    let m = IconManager::new();
    assert_eq!(
        m.get_name_variants("foo-git-bin"),
        vec!["foo_git_bin".to_string(), "foo".to_string(), "foo".to_string()]
    );
    assert_eq!(
        m.get_name_variants("bar-bin-git"),
        vec!["bar_bin_git".to_string(), "bar".to_string(), "bar-bin".to_string()]
    );
}

#[test]
fn variants_of_leading_hyphen() {
    let m = IconManager::new();
    assert_eq!(m.get_name_variants("-x"), vec!["_x".to_string(), "".to_string()]);
}

#[test]
fn hyphen_helpers() {
    assert_eq!(replace_hyphens("a-b-c"), "a_b_c");
    assert_eq!(replace_hyphens("abc"), "abc");
    assert_eq!(prefix_before_hyphen("git-gui-extra"), "git");
    assert_eq!(prefix_before_hyphen("plain"), "plain");
    assert_eq!(first_hyphen("ab-c-d"), Some(2));
    assert_eq!(first_hyphen("abc"), None);
}

#[test]
fn suffix_helpers() {
    assert!(ends_with("foo-bin", "-bin"));
    assert!(!ends_with("foo-bim", "-bin"));
    assert!(!ends_with("in", "-bin"));
    assert_eq!(trim_suffix("foo-bin-bin", "-bin"), "foo");
    assert_eq!(trim_suffix("foo-git", "-bin"), "foo-git");
    assert_eq!(trim_suffix("-bin", "-bin"), "");
}

#[test]
fn path_is_concatenated() {
    assert_eq!(icon_path("/usr/share/pixmaps/", "vlc", "png"), "/usr/share/pixmaps/vlc.png");
}

#[test]
fn package_record_holds_its_fields() {
    let p = Package {
        name: "vlc".to_string(),
        version: "3.0.20-1".to_string(),
        description: "Multi-platform player".to_string(),
        install_date: "2024-01-01".to_string(),
        installed_size: 1048576,
        install_reason: "explicit".to_string(),
    };
    let q = p.clone();
    assert_eq!(q.name, "vlc");
    assert_eq!(q.installed_size, 1048576);
}

#[test]
fn short_description_cuts_at_eighty_chars() {
    let long: String = std::iter::repeat('x').take(100).collect();
    let p = Package {
        name: "p".to_string(),
        version: "1".to_string(),
        description: long,
        install_date: "".to_string(),
        installed_size: 0,
        install_reason: "explicit".to_string(),
    };
    let s = p.short_description();
    assert_eq!(s.chars().count(), 83);
    assert!(s.ends_with("x..."));
    let q = Package { description: "Ünïcode player".to_string(), ..p };
    assert_eq!(q.short_description(), "Ünïcode player...");
}
