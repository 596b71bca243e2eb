use arch_clean::icon::IconManager;
use std::cell::Cell;

fn disk_probe<'a>(files: &'a [&'a str], count: &'a Cell<usize>) -> impl Fn(&str) -> bool + 'a {
    move |p: &str| {
        count.set(count.get() + 1);
        files.contains(&p)
    }
}

#[test]
fn variant_prefix_before_hyphen_is_found() {
    let mut m = IconManager::new();
    let files = ["/usr/share/icons/hicolor/48x48/apps/git.png"];
    let count = Cell::new(0);
    let r = m.find_icon_with("git-gui", disk_probe(&files, &count));
    assert_eq!(r, Some("/usr/share/icons/hicolor/48x48/apps/git.png".to_string()));
}

#[test]
fn variant_with_underscores_is_found() {
    let mut m = IconManager::new();
    let files = ["/usr/share/pixmaps/vlc_media_player.png"];
    let count = Cell::new(0);
    let r = m.find_icon_with("vlc-media-player", disk_probe(&files, &count));
    assert_eq!(r, Some("/usr/share/pixmaps/vlc_media_player.png".to_string()));
}

#[test]
fn bin_suffix_is_stripped() {
    let mut m = IconManager::new();
    let files = ["/usr/share/pixmaps/foo.png"];
    let count = Cell::new(0);
    let r = m.find_icon_with("foo-bin", disk_probe(&files, &count));
    assert_eq!(r, Some("/usr/share/pixmaps/foo.png".to_string()));
}

#[test]
fn git_suffix_is_stripped_without_hyphen_forms() {
    let mut m = IconManager::new();
    let files = ["/usr/share/icons/gnome/48x48/apps/tool.xpm"];
    let count = Cell::new(0);
    let r = m.find_icon_with("tool-git", disk_probe(&files, &count));
    assert_eq!(r, Some("/usr/share/icons/gnome/48x48/apps/tool.xpm".to_string()));
}

#[test]
fn missing_icon_gives_none_and_default_is_fixed() {
    let mut m = IconManager::new();
    let files: [&str; 0] = [];
    let count = Cell::new(0);
    let r = m.find_icon_with("simple-name", disk_probe(&files, &count));
    assert_eq!(r, None);
    // 8 directories, 3 extensions, own name and 2 variants
    assert_eq!(count.get(), 8 * 3 * 3);
    let d = IconManager::get_default_icon();
    assert!(!d.is_empty());
    assert_eq!(d, "/usr/share/icons/hicolor/48x48/mimetypes/application-x-executable.png");
    assert_eq!(IconManager::get_default_icon(), d);
}

#[test]
fn second_resolution_is_cached_and_probes_nothing() {
    let mut m = IconManager::new();
    let files = ["/usr/share/icons/hicolor/64x64/apps/firefox.svg"];
    let count = Cell::new(0);
    let r1 = m.find_icon_with("firefox", disk_probe(&files, &count));
    let after_first = count.get();
    assert!(after_first > 0);
    let r2 = m.find_icon_with("firefox", disk_probe(&files, &count));
    assert_eq!(r1, r2);
    assert_eq!(count.get(), after_first);
    assert_eq!(r1, Some("/usr/share/icons/hicolor/64x64/apps/firefox.svg".to_string()));
}

#[test]
fn absent_answer_is_cached_too() {
    let mut m = IconManager::new();
    let none: [&str; 0] = [];
    let count = Cell::new(0);
    assert_eq!(m.find_icon_with("ghost", disk_probe(&none, &count)), None);
    let after_first = count.get();
    let files = ["/usr/share/pixmaps/ghost.png"];
    assert_eq!(m.find_icon_with("ghost", disk_probe(&files, &count)), None);
    assert_eq!(count.get(), after_first);
}

#[test]
fn earlier_directory_wins() {
    let mut m = IconManager::new();
    let files = [
        "/usr/share/icons/breeze/apps/48/gimp.png",
        "/usr/share/icons/hicolor/128x128/apps/gimp.png",
    ];
    let count = Cell::new(0);
    let r = m.find_icon_with("gimp", disk_probe(&files, &count));
    assert_eq!(r, Some("/usr/share/icons/hicolor/128x128/apps/gimp.png".to_string()));
}

#[test]
fn earlier_directory_wins_over_better_extension() {
    let mut m = IconManager::new();
    let files = [
        "/usr/share/icons/hicolor/48x48/apps/gimp.png",
        "/usr/share/pixmaps/gimp.xpm",
    ];
    let count = Cell::new(0);
    let r = m.find_icon_with("gimp", disk_probe(&files, &count));
    assert_eq!(r, Some("/usr/share/pixmaps/gimp.xpm".to_string()));
}

#[test]
fn png_wins_over_svg() {
    let mut m = IconManager::new();
    let files = [
        "/usr/share/pixmaps/inkscape.svg",
        "/usr/share/pixmaps/inkscape.png",
    ];
    let count = Cell::new(0);
    let r = m.find_icon_with("inkscape", disk_probe(&files, &count));
    assert_eq!(r, Some("/usr/share/pixmaps/inkscape.png".to_string()));
}

#[test]
fn exact_name_wins_over_variant() {
    let mut m = IconManager::new();
    let files = [
        "/usr/share/pixmaps/git.png",
        "/usr/share/pixmaps/git-gui.png",
    ];
    let count = Cell::new(0);
    let r = m.find_icon_with("git-gui", disk_probe(&files, &count));
    assert_eq!(r, Some("/usr/share/pixmaps/git-gui.png".to_string()));
}

#[test]
fn variant_with_png_wins_over_exact_name_with_svg() {
    let mut m = IconManager::new();
    let files = [
        "/usr/share/pixmaps/git-gui.svg",
        "/usr/share/pixmaps/git_gui.png",
    ];
    let count = Cell::new(0);
    let r = m.find_icon_with("git-gui", disk_probe(&files, &count));
    assert_eq!(r, Some("/usr/share/pixmaps/git_gui.png".to_string()));
}

#[test]
fn result_is_always_an_existing_file() {
    let files = [
        "/usr/share/icons/hicolor/scalable/apps/a_b.svg",
        "/usr/share/icons/gnome/48x48/apps/c.png",
    ];
    for name in ["a-b", "c-bin", "c", "a-b-git", "nothing"] {
        let mut m = IconManager::new();
        let count = Cell::new(0);
        if let Some(p) = m.find_icon_with(name, disk_probe(&files, &count)) {
            assert!(files.contains(&p.as_str()));
        }
    }
}

#[test]
fn resolving_one_name_leaves_others_uncached() {
    let mut m = IconManager::new();
    let files = ["/usr/share/pixmaps/alpha.png", "/usr/share/pixmaps/beta.svg"];
    let count = Cell::new(0);
    assert_eq!(
        m.find_icon_with("alpha", disk_probe(&files, &count)),
        Some("/usr/share/pixmaps/alpha.png".to_string())
    );
    let before_beta = count.get();
    assert_eq!(
        m.find_icon_with("beta", disk_probe(&files, &count)),
        Some("/usr/share/pixmaps/beta.svg".to_string())
    );
    assert!(count.get() > before_beta);
    let before_again = count.get();
    assert_eq!(
        m.find_icon_with("alpha", disk_probe(&files, &count)),
        Some("/usr/share/pixmaps/alpha.png".to_string())
    );
    assert_eq!(count.get(), before_again);
}

#[test]
fn real_disk_has_no_icon_for_unknown_package() {
    let mut m = IconManager::new();
    let name = "no-such-package-zz9-plural-z-alpha";
    assert_eq!(m.find_icon_for_package(name), None);
    assert_eq!(m.find_icon_for_package(name), None);
}
