use trance::catalog::add_registry_entries;
use trance::cycle::{
    cycle_candidates, is_self, next_seed, pick_index, start_cycle, CycleAction, CycleEvent,
};
use trance::model::LocalConfig;
use trance::registry::{
    best_linux_variant, current_platform, descriptor_text, download_file_name,
    generate_xscreensaver_xml, install_hint, package_kind, PackageKind, PackageTools, Platform,
    RegistryEntry,
};

fn pairs(v: &[(&str, &str)]) -> Vec<(String, String)> {
    v.iter().map(|(k, u)| (k.to_string(), u.to_string())).collect()
}

fn entry(downloads: Option<Vec<(String, String)>>, legacy: Option<&str>) -> RegistryEntry {
    RegistryEntry {
        name: "beams".to_string(),
        author: "UberMetroid".to_string(),
        description: "Beams screensaver".to_string(),
        download_url: legacy.map(|s| s.to_string()),
        downloads,
        version: "2.0".to_string(),
    }
}

const NONE: PackageTools = PackageTools { deb: false, rpm: false, pacman: false };

#[test]
fn platforms_by_name() {
    assert_eq!(current_platform("windows"), Platform::Windows);
    assert_eq!(current_platform("linux"), Platform::Linux);
    assert_eq!(current_platform("macos"), Platform::MacOs);
    assert_eq!(current_platform("freebsd"), Platform::Unknown);
}

#[test]
fn linux_variant_follows_installed_tools() {
    let m = pairs(&[("linux", "u-elf"), ("linux-deb", "u-deb"), ("linux-rpm", "u-rpm")]);
    let deb = PackageTools { deb: true, rpm: true, pacman: true };
    assert_eq!(best_linux_variant(&m, deb), Some("linux-deb".to_string()));
    let rpm = PackageTools { deb: false, rpm: true, pacman: false };
    assert_eq!(best_linux_variant(&m, rpm), Some("linux-rpm".to_string()));
    let arch = PackageTools { deb: false, rpm: false, pacman: true };
    assert_eq!(best_linux_variant(&m, arch), Some("linux".to_string()));
    assert_eq!(best_linux_variant(&m, NONE), Some("linux".to_string()));
    assert_eq!(best_linux_variant(&pairs(&[("windows", "w")]), deb), None);
}

#[test]
fn download_url_per_platform() {
    let e = entry(Some(pairs(&[("windows", "u-win"), ("linux", "u-elf"), ("linux-deb", "u-deb")])), Some("legacy"));
    assert_eq!(e.download_url_for_current_platform(Platform::Windows, NONE), Some("u-win".to_string()));
    let deb = PackageTools { deb: true, rpm: false, pacman: false };
    assert_eq!(e.download_url_for_current_platform(Platform::Linux, deb), Some("u-deb".to_string()));
    assert_eq!(e.download_url_for_current_platform(Platform::Linux, NONE), Some("u-elf".to_string()));
    // No macos entry: the legacy URL is the fallback, never the Linux binary.
    assert_eq!(e.download_url_for_current_platform(Platform::MacOs, NONE), Some("legacy".to_string()));
    let linux_only = entry(Some(pairs(&[("linux", "u-elf")])), Some("legacy-win"));
    assert_eq!(linux_only.download_url_for_current_platform(Platform::Windows, NONE), Some("legacy-win".to_string()));
    assert_eq!(linux_only.download_url_for_current_platform(Platform::Linux, NONE), Some("u-elf".to_string()));
    let linux_no_legacy = entry(Some(pairs(&[("linux", "u-elf")])), None);
    assert_eq!(linux_no_legacy.download_url_for_current_platform(Platform::Windows, NONE), None);
    let legacy = entry(None, Some("legacy"));
    assert_eq!(legacy.download_url_for_current_platform(Platform::Linux, NONE), Some("legacy".to_string()));
    let only_win = entry(Some(pairs(&[("windows", "u-win")])), Some("legacy"));
    assert_eq!(only_win.download_url_for_current_platform(Platform::Linux, NONE), Some("legacy".to_string()));
    let nothing = entry(Some(Vec::new()), None);
    assert_eq!(nothing.download_url_for_current_platform(Platform::Windows, NONE), None);
}

#[test]
fn xscreensaver_descriptor() {
    let xml = generate_xscreensaver_xml("beams", "Beams", "Light beams");
    let expected = format!(
        r#"<?xml version="1.0" encoding="UTF-8"?>
<screensaver name="{name}" _label="{label}" >
  <command>  %  -root </command>
  <string id="description"
   _label="Description"
   _description="The description of this screensaver."
   >{description}</string>
</screensaver>
"#,
        name = "beams",
        label = "Beams",
        description = "Light beams"
    );
    assert_eq!(xml, expected);
    assert_eq!(descriptor_text("beams", "  "), "beams (dynamic live OS/kernel)");
    assert_eq!(descriptor_text("beams", "Light"), "Light");
}

#[test]
fn download_names_and_package_kinds() {
    assert_eq!(download_file_name("https://example.com/x/beams.scr"), "beams.scr");
    assert_eq!(package_kind("/tmp/beams.deb"), PackageKind::Deb);
    assert_eq!(package_kind("/tmp/beams.rpm"), PackageKind::Rpm);
    assert_eq!(package_kind("/tmp/beams.scr"), PackageKind::Binary);
    assert!(install_hint(PackageKind::Binary, "/tmp/beams.scr", "beams.scr").is_none());
    assert_eq!(package_kind("/tmp/beams.pkg.tar.zst"), PackageKind::Arch);
    assert_eq!(
        install_hint(PackageKind::Deb, "/tmp/beams.deb", "beams.deb"),
        Some("sudo dpkg -i \"/tmp/beams.deb\"\n# or: sudo apt install ./beams.deb".to_string())
    );
}

#[test]
fn cycle_candidates_skip_missing_self_and_uninstallers() {
    let selected = vec![
        "C:\\savers\\one.scr".to_string(),
        "C:\\savers\\Uninstall.exe".to_string(),
        "C:\\trance\\trance.exe".to_string(),
        "C:\\savers\\gone.scr".to_string(),
        "C:\\savers\\two.scr".to_string(),
    ];
    let exists = vec![true, true, true, false, true];
    let c = cycle_candidates(&selected, &exists, Some("C:\\trance\\trance.exe"), Platform::Windows);
    assert_eq!(c, vec!["C:\\savers\\one.scr".to_string(), "C:\\savers\\two.scr".to_string()]);
    let all = cycle_candidates(&selected, &exists, None, Platform::Windows);
    assert_eq!(all.len(), 3);
    assert!(is_self("C:\\a.exe", Some("C:\\a.exe"), Platform::Windows));
    assert!(!is_self("C:\\a.exe", Some("C:\\b.exe"), Platform::Windows));
    assert!(!is_self("C:\\a.exe", None, Platform::Windows));
    // Paths are compared component by component.
    assert!(is_self("C:/trance/trance.exe", Some("C:\\trance\\trance.exe"), Platform::Windows));
    assert!(is_self("/opt//trance/./trance", Some("/opt/trance/trance"), Platform::Windows));
    assert!(is_self("/opt/trance/", Some("/opt/trance"), Platform::Windows));
    assert!(!is_self("opt/trance", Some("/opt/trance"), Platform::Windows));
    assert!(!is_self("./trance", Some("trance"), Platform::Windows));
    assert!(!is_self("C:\\Trance.exe", Some("C:\\trance.exe"), Platform::Windows));
    // Outside Windows a backslash is an ordinary character of a name.
    assert!(!is_self("/opt/trance\\bin", Some("/opt/trance/bin"), Platform::Linux));
    assert!(is_self("/opt/trance\\bin", Some("/opt/trance\\bin"), Platform::Linux));
    assert!(is_self("/opt//trance/", Some("/opt/trance"), Platform::Linux));
    assert!(!is_self("\\opt\\trance", Some("/opt/trance"), Platform::Linux));
    assert!(is_self("\\opt\\trance", Some("/opt/trance"), Platform::Windows));
}

#[test]
fn seed_steps_and_picks() {
    assert_eq!(next_seed(0), 1442695040888963407);
    assert_eq!(next_seed(1), 7806831264735756412);
    assert_eq!(next_seed(1442695040888963407), 1876011003808476466);
    assert_eq!(pick_index(1442695040888963407, 3), 1);
    assert_eq!(pick_index(10, 4), 2);
}

#[test]
fn cycle_runs_until_a_screensaver_is_dismissed() {
    let mut local = LocalConfig::default();
    local.selected_paths = vec!["a.scr".to_string(), "b.scr".to_string(), "c.scr".to_string()];
    local.random_cycle_secs = 30;
    let mut st = start_cycle(&local, &vec![true, true, true], None, Platform::Windows, 0).unwrap();
    assert_eq!(st.duration_secs, 30);
    match st.launch_next() {
        CycleAction::Launch { path, arg } => {
            assert_eq!(path, "b.scr");
            assert_eq!(arg, "/s");
        },
        CycleAction::Stop => panic!("expected a launch"),
    }
    assert_eq!(st.seed, 1442695040888963407);
    match st.on_event(CycleEvent::TimedOut) {
        CycleAction::Launch { path, .. } => assert_eq!(path, "b.scr"),
        CycleAction::Stop => panic!("expected a launch"),
    }
    assert_eq!(st.seed, 1876011003808476466);
    assert!(matches!(st.on_event(CycleEvent::Exited), CycleAction::Stop));
    assert!(matches!(st.on_event(CycleEvent::SpawnFailed), CycleAction::Stop));
    assert_eq!(st.seed, 1876011003808476466);
}

#[test]
fn cycle_without_candidates_does_not_start() {
    let mut local = LocalConfig::default();
    local.selected_paths = vec!["uninstall.exe".to_string()];
    assert!(start_cycle(&local, &vec![true], None, Platform::Windows, 5).is_none());
    let empty = LocalConfig::default();
    assert!(start_cycle(&empty, &Vec::new(), None, Platform::Linux, 5).is_none());
}

#[test]
fn gathering_keeps_the_first_entry_of_a_name() {
    let mut all: Vec<RegistryEntry> = Vec::new();
    add_registry_entries(&mut all, vec![entry(None, Some("local"))]);
    let mut other = entry(None, Some("feed"));
    other.name = "BEAMS".to_string();
    let mut fresh = entry(None, Some("feed2"));
    fresh.name = "ribbons".to_string();
    add_registry_entries(&mut all, vec![other, fresh]);
    assert_eq!(all.len(), 2);
    assert_eq!(all[0].download_url.as_deref(), Some("local"));
    assert_eq!(all[1].name, "ribbons");
}
