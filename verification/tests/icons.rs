use std::time::Instant;

use freedesktop_desktop_entry::{default_paths, get_languages_from_env, Iter};

use corona::icons::{
    choose_icon_theme, exec_binary, icon_for_names, icon_for_names_or_default, icon_names,
    icon_theme, keys, parse_icon_theme, undecorate, EntryInfo, IconResolver, NameTable,
};

fn resolver() -> IconResolver {
    IconResolver::new(icon_theme(None), NameTable::new())
}

fn entry(appid: &str, name: Option<&str>, exec: Option<&str>, class: Option<&str>, icon: Option<&str>) -> EntryInfo {
    EntryInfo {
        appid: appid.to_string(),
        name: name.map(str::to_string),
        exec_line: exec.map(str::to_string),
        startup_wm_class: class.map(str::to_string),
        icon: icon.map(str::to_string),
    }
}

#[test]
fn reads_the_icon_theme_from_gtk_settings() {
    let settings = "[Settings]\ngtk-theme-name=adw-gtk3\ngtk-icon-theme-name=kora\n";
    assert_eq!(parse_icon_theme(settings).as_deref(), Some("kora"));
    assert_eq!(parse_icon_theme("[Settings]\ngtk-theme-name=adw-gtk3\n"), None);
}

#[test]
fn a_nix_wrapper_is_not_part_of_the_name() {
    assert_eq!(undecorate(".spotify-wrapped"), "spotify");
    assert_eq!(undecorate("spotify"), "spotify");
    assert_eq!(undecorate(".hidden"), "hidden");
}

#[test]
fn an_exec_line_names_one_binary() {
    assert_eq!(exec_binary("spotify %U"), Some("spotify"));
    assert_eq!(exec_binary("/usr/bin/.noctalia-wrapped --daemon"), Some("noctalia"));
    assert_eq!(exec_binary(""), None);
}

#[test]
fn unknown_class_has_no_entry_icon() {
    let mut icons = resolver();
    assert!(icon_for_names(&mut icons, &["corona-no-such-app"], 24).is_none());
}

#[test]
fn a_missing_icon_is_looked_up_once() {
    let mut icons = resolver();
    icon_for_names_or_default(&mut icons, &["corona-no-such-app"], 24);
    let start = Instant::now();
    icon_for_names_or_default(&mut icons, &["corona-no-such-app"], 24);
    assert!(start.elapsed().as_millis() < 5, "lookup is not cached");
}

#[test]
fn a_quoted_theme_name_loses_its_quotes() {
    assert_eq!(
        parse_icon_theme("  gtk-icon-theme-name = \"Papirus-Dark\"  \n").as_deref(),
        Some("Papirus-Dark")
    );
    assert_eq!(parse_icon_theme("gtk-icon-theme-name=\n"), None);
    assert_eq!(parse_icon_theme("gtk-icon-theme-name\n"), None);
}

#[test]
fn the_theme_falls_back_to_gsettings_then_hicolor() {
    assert_eq!(choose_icon_theme(Some("kora".into()), Some("adwaita".into())), "kora");
    assert_eq!(choose_icon_theme(None, Some("adwaita".into())), "adwaita");
    assert_eq!(choose_icon_theme(None, None), "hicolor");
}

#[test]
fn an_exec_line_of_blanks_names_nothing() {
    assert_eq!(exec_binary("   "), None);
    assert_eq!(exec_binary("/usr/bin/ --flag"), None);
    assert_eq!(exec_binary("  firefox"), Some("firefox"));
}

#[test]
fn an_entry_is_known_by_name_binary_segment_appid_and_class() {
    let e = entry(
        "dev.noctalia.Noctalia",
        Some("Noctalia"),
        Some("/usr/bin/.noctalia-wrapped --daemon"),
        Some("NoctaliaShell"),
        Some("noctalia"),
    );
    assert_eq!(
        keys(&e),
        vec!["noctalia", "noctalia", "noctalia", "dev.noctalia.noctalia", "noctaliashell"]
    );
}

#[test]
fn the_strongest_key_wins_across_entries() {
    // One application's display name is another's appid: the appid wins.
    let entries = vec![
        entry("org.example.Viewer", Some("term"), None, None, Some("viewer-icon")),
        entry("term", Some("Terminal"), None, None, Some("term-icon")),
    ];
    let table = icon_names(&entries);
    assert_eq!(table.get("term").as_deref(), Some("term-icon"));
    assert_eq!(table.get("viewer").as_deref(), Some("viewer-icon"));
    assert_eq!(table.get("terminal").as_deref(), Some("term-icon"));
    assert_eq!(table.get("nothing"), None);
}

#[test]
fn an_entry_without_an_icon_maps_nothing() {
    let entries = vec![entry("org.example.Bare", Some("Bare"), None, None, None)];
    let table = icon_names(&entries);
    assert_eq!(table.get("bare"), None);
}

#[test]
fn an_answer_repeats() {
    let mut icons = resolver();
    let first = icons.lookup("corona-no-such-icon", 32);
    let second = icons.lookup("corona-no-such-icon", 32);
    assert_eq!(first, second);
}

#[test]
fn an_entry_icon_with_an_absolute_path_is_kept_when_the_file_exists() {
    let mut names = NameTable::new();
    names.insert("corona-test-app".to_string(), "/etc/passwd".to_string());
    names.insert("corona-gone-app".to_string(), "/opt/corona-test/corona-test-icon.png".to_string());
    let mut icons = IconResolver::new("hicolor".to_string(), names);
    assert_eq!(icons.entry_icon("corona-test-app", 24).as_deref(), Some("/etc/passwd"));
    assert_eq!(
        icon_for_names(&mut icons, &[".corona-test-app-wrapped"], 24).as_deref(),
        Some("/etc/passwd")
    );
    // A path to a file that is not there is no icon.
    assert_eq!(icons.entry_icon("corona-gone-app", 24), None);
    assert_eq!(icon_for_names(&mut icons, &["corona-gone-app"], 24), None);
}

#[test]
fn a_name_is_looked_up_undecorated_and_lowercased() {
    let mut names = NameTable::new();
    names.insert("spotify".to_string(), "/etc/passwd".to_string());
    let mut icons = IconResolver::new("hicolor".to_string(), names);
    let plain = icon_for_names(&mut icons, &["spotify"], 24);
    assert_eq!(plain.as_deref(), Some("/etc/passwd"));
    assert_eq!(icon_for_names(&mut icons, &["SPOTIFY"], 24), plain);
    assert_eq!(icon_for_names(&mut icons, &[".Spotify-wrapped"], 24), plain);
}

fn system_entries() -> Vec<EntryInfo> {
    let locales = get_languages_from_env();
    Iter::new(default_paths())
        .entries(Some(&locales))
        .map(|entry| EntryInfo {
            appid: entry.appid.clone(),
            name: entry.name(&locales).map(|name| name.to_string()),
            exec_line: entry.exec().map(str::to_string),
            startup_wm_class: entry.startup_wm_class().map(str::to_string),
            icon: entry.icon().map(str::to_string),
        })
        .collect()
}

#[test]
fn resolved_icons_exist_on_disk() {
    // Any key of the map will do; the map is empty on a bare CI box.
    let entries = system_entries();
    let mut icons = IconResolver::new(icon_theme(None), icon_names(&entries));
    for entry in entries.iter().filter(|e| e.icon.is_some()) {
        for class in keys(entry) {
            if let Some(path) = icon_for_names_or_default(&mut icons, &[class.as_str()], 24) {
                assert!(std::path::Path::new(&path).exists(), "{path:?} does not exist");
            }
        }
    }
}
