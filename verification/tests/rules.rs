use engine_detector::text::{
    chars_of, contains, ends_with, ends_with_after, file_name_start, matches_at, name_is,
    name_starts_with, strip_wildcards,
};
use engine_detector::{Rule, SignatureType};

fn chars(text: &str) -> Vec<char> {
    text.chars().collect()
}

fn accepts(rule: Rule, needle: &str, path: &str) -> bool {
    rule.accepts(&chars(needle), &chars(path))
}

#[test]
fn chars_of_spells_the_string() {
    assert_eq!(chars_of(""), Vec::<char>::new());
    assert_eq!(chars_of("a/B.c"), vec!['a', '/', 'B', '.', 'c']);
    assert_eq!(chars_of("Straße"), vec!['S', 't', 'r', 'a', 'ß', 'e']);
}

#[test]
fn matches_at_compares_in_place() {
    let hay = chars("abcabc");
    assert!(matches_at(&hay, &chars("abc"), 0));
    assert!(matches_at(&hay, &chars("abc"), 3));
    assert!(!matches_at(&hay, &chars("abc"), 1));
    assert!(!matches_at(&hay, &chars("abc"), 4));
    assert!(matches_at(&hay, &chars(""), 6));
    assert!(!matches_at(&hay, &chars(""), 7));
    assert!(!matches_at(&hay, &chars("c"), usize::MAX));
}

#[test]
fn suffix_and_infix() {
    let hay = chars("game_data/managed");
    assert!(ends_with(&hay, &chars("managed")));
    assert!(ends_with(&hay, &chars("")));
    assert!(ends_with(&hay, &hay));
    assert!(!ends_with(&hay, &chars("manage")));
    assert!(!ends_with(&chars("d"), &chars("ed")));
    assert!(contains(&hay, &chars("_data/m")));
    assert!(contains(&hay, &chars("")));
    assert!(contains(&hay, &chars("game")));
    assert!(contains(&hay, &chars("managed")));
    assert!(contains(&hay, &hay));
    assert!(!contains(&hay, &chars("datum")));
    assert!(!contains(&chars(""), &chars("a")));
    assert!(contains(&chars(""), &chars("")));
}

#[test]
fn suffix_behind_a_lead() {
    assert!(ends_with_after(&chars("game.pck"), '.', &chars("pck")));
    assert!(ends_with_after(&chars(".pck"), '.', &chars("pck")));
    assert!(!ends_with_after(&chars("pck"), '.', &chars("pck")));
    assert!(!ends_with_after(&chars("gamepck"), '.', &chars("pck")));
    assert!(!ends_with_after(&chars("game.pc"), '.', &chars("pck")));
    assert!(ends_with_after(&chars("dir/"), '/', &chars("")));
    assert!(!ends_with_after(&chars(""), '/', &chars("")));
}

#[test]
fn last_component_begins_behind_the_last_separator() {
    assert_eq!(file_name_start(&chars("")), 0);
    assert_eq!(file_name_start(&chars("game.exe")), 0);
    assert_eq!(file_name_start(&chars("a/b/c.txt")), 4);
    assert_eq!(file_name_start(&chars("a/b/")), 4);
    assert_eq!(file_name_start(&chars("/x")), 1);
    assert_eq!(file_name_start(&chars("a\\b")), 0);
    assert!(name_is(&chars("a/b/c.txt"), &chars("c.txt")));
    assert!(name_is(&chars("c.txt"), &chars("c.txt")));
    assert!(name_is(&chars("a/b/"), &chars("")));
    assert!(!name_is(&chars("a/b/c.txt"), &chars("b/c.txt")));
    assert!(!name_is(&chars("a/b/c.txt"), &chars(".txt")));
    assert!(name_starts_with(&chars("a/level12"), &chars("level")));
    assert!(name_starts_with(&chars("level"), &chars("level")));
    assert!(!name_starts_with(&chars("level/a"), &chars("level")));
    assert!(!name_starts_with(&chars("a/lev"), &chars("level")));
}

#[test]
fn wildcards_are_taken_out() {
    assert_eq!(strip_wildcards(&chars("level*")), chars("level"));
    assert_eq!(strip_wildcards(&chars("*le*vel**")), chars("level"));
    assert_eq!(strip_wildcards(&chars("***")), chars(""));
    assert_eq!(strip_wildcards(&chars("")), chars(""));
    assert_eq!(strip_wildcards(&chars("level")), chars("level"));
}

#[test]
fn rules_compare_what_they_are_given() {
    assert!(accepts(Rule::PathContains, "_data/managed", "game_data/managed/a.dll"));
    assert!(!accepts(Rule::PathContains, "_Data/Managed", "game_data/managed/a.dll"));
    assert!(accepts(Rule::Extension, "pck", "game.pck"));
    assert!(!accepts(Rule::Extension, "pck", "game.PCK"));
    assert!(!accepts(Rule::Extension, "pck", "pck"));
    assert!(accepts(Rule::Extension, "", "trailing."));
    assert!(accepts(Rule::Filename, "project.godot", "project.godot"));
    assert!(accepts(Rule::Filename, "project.godot", "game/project.godot"));
    assert!(accepts(Rule::Filename, "project.godot", "/project.godot"));
    assert!(!accepts(Rule::Filename, "project.godot", "myproject.godot"));
    assert!(!accepts(Rule::Filename, "project.godot", "project.godot/x"));
    assert!(accepts(Rule::Filename, "data/app.info", "game/data/app.info"));
    assert!(!accepts(Rule::Filename, "data/app.info", "data/app.info"));
    assert!(!accepts(Rule::Filename, "data/app.info", "gamedata/app.info"));
    assert!(accepts(Rule::FilenameStartsWith, "unity", "bin/unityplayer.dll"));
    assert!(!accepts(Rule::FilenameStartsWith, "unity", "unity/player.dll"));
    assert!(accepts(Rule::FilenameEndsWith, "_data/app.info", "game_data/app.info"));
    assert!(accepts(Rule::FilenameEndsWith, ".info", "game_data/app.info"));
    assert!(!accepts(Rule::FilenameEndsWith, "app", "game_data/app.info"));
    assert!(accepts(Rule::PathComponent, "level", "data/level3"));
    assert!(!accepts(Rule::PathComponent, "level*", "data/level3"));
    assert!(!accepts(Rule::PathComponent, "level", "level3/data"));
}

#[test]
fn signature_types_report_rule_and_value() {
    let kinds = [
        (SignatureType::PathContains("a".to_string()), Rule::PathContains),
        (SignatureType::Extension("a".to_string()), Rule::Extension),
        (SignatureType::Filename("a".to_string()), Rule::Filename),
        (SignatureType::FilenameStartsWith("a".to_string()), Rule::FilenameStartsWith),
        (SignatureType::FilenameEndsWith("a".to_string()), Rule::FilenameEndsWith),
        (SignatureType::PathComponent("a".to_string()), Rule::PathComponent),
    ];
    for (kind, rule) in kinds {
        assert_eq!(kind.rule(), rule);
        assert_eq!(kind.value(), "a");
    }
}

#[test]
fn needles_are_lower_case() {
    assert_eq!(SignatureType::Extension("PCK".to_string()).needle(), chars("pck"));
    assert_eq!(
        SignatureType::PathContains("_Data/Managed".to_string()).needle(),
        chars("_data/managed")
    );
    assert_eq!(SignatureType::Filename("ÄPFEL.Ini".to_string()).needle(), chars("äpfel.ini"));
    assert_eq!(SignatureType::FilenameEndsWith("a*B".to_string()).needle(), chars("a*b"));
    assert_eq!(SignatureType::PathComponent("Level*".to_string()).needle(), chars("level"));
    assert_eq!(SignatureType::PathComponent("*".to_string()).needle(), chars(""));
}

#[test]
fn wildcards_leave_before_the_case_is_lowered() {
    assert_eq!(SignatureType::PathComponent("ΑΣ*Β".to_string()).needle(), chars("ασβ"));
    assert_eq!(SignatureType::FilenameStartsWith("ΑΣ*Β".to_string()).needle(), chars("ας*β"));
    assert_eq!(SignatureType::PathComponent("ας*β".to_string()).needle(), chars("αςβ"));
    assert!(SignatureType::PathComponent("ΑΣ*Β".to_string()).matches("dir/ασβ.bin"));
    assert!(!SignatureType::PathComponent("ας*β".to_string()).matches("dir/ασβ.bin"));
}

#[test]
fn path_contains_matches_anywhere() {
    let kind = SignatureType::PathContains("_Data/Managed".to_string());
    assert!(kind.matches("Game_Data/Managed/Assembly-CSharp.dll"));
    assert!(kind.matches("game_data/managed"));
    assert!(kind.matches("_DATA/MANAGED/x"));
    assert!(!kind.matches("Game.exe"));
    assert!(!kind.matches("Game_Data\\Managed\\Assembly-CSharp.dll"));
    assert!(SignatureType::PathContains(String::new()).matches(""));
}

#[test]
fn extension_wants_the_dot() {
    let kind = SignatureType::Extension("pck".to_string());
    assert!(kind.matches("game.pck"));
    assert!(kind.matches("Data/GAME.PCK"));
    assert!(kind.matches(".pck"));
    assert!(!kind.matches("pck"));
    assert!(!kind.matches("gamepck"));
    assert!(!kind.matches("game.pck.bak"));
    assert!(!kind.matches("readme.txt"));
}

#[test]
fn filename_is_the_last_component() {
    let kind = SignatureType::Filename("Project.Godot".to_string());
    assert!(kind.matches("project.godot"));
    assert!(kind.matches("game/PROJECT.GODOT"));
    assert!(kind.matches("/project.godot"));
    assert!(!kind.matches("old_project.godot"));
    assert!(!kind.matches("project.godot.bak"));
    assert!(!kind.matches("project.godot/readme"));
    let nested = SignatureType::Filename("Data/app.info".to_string());
    assert!(nested.matches("Game/data/App.info"));
    assert!(!nested.matches("GameData/app.info"));
}

#[test]
fn filename_starts_with_looks_at_the_last_component() {
    let kind = SignatureType::FilenameStartsWith("Unity".to_string());
    assert!(kind.matches("UnityPlayer.dll"));
    assert!(kind.matches("bin/unitycrashhandler64.exe"));
    assert!(!kind.matches("unity/player.dll"));
    assert!(!kind.matches("bin/myunity.dll"));
}

#[test]
fn filename_ends_with_looks_at_the_whole_path() {
    let kind = SignatureType::FilenameEndsWith("_Data/app.info".to_string());
    assert!(kind.matches("Game_Data/app.info"));
    assert!(kind.matches("x/GAME_DATA/APP.INFO"));
    assert!(!kind.matches("Game_Data/app.info.bak"));
    assert!(SignatureType::FilenameEndsWith("player.dll".to_string()).matches("UnityPlayer.dll"));
}

#[test]
fn path_component_is_a_prefix_of_the_last_component() {
    let kind = SignatureType::PathComponent("Level*".to_string());
    assert!(kind.matches("Game_Data/level0"));
    assert!(kind.matches("LEVEL12.resS"));
    assert!(kind.matches("level"));
    assert!(!kind.matches("level0/data.bin"));
    assert!(!kind.matches("Game_Data/sublevel0"));
    assert!(SignatureType::PathComponent("*".to_string()).matches("anything/at.all"));
}
