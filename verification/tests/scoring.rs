use engine_detector::confidence::{
    confidence_for, CONFIDENCE_FULL, CONFIDENCE_NONE, CONFIDENCE_STRONG, CONFIDENCE_WEAK,
    HIGH_SCORE, MEDIUM_SCORE, UNIT,
};
use engine_detector::detector::{fold_listing, fold_path, prepare, rank};
use engine_detector::score::{collect_matches, record_entry, score_name, score_profile};
use engine_detector::winner::pick_leader;
use engine_detector::{
    classify, DetectionResult, EngineConfig, FileEntry, Probe, Profile, Rule, Signature,
    SignatureType, UNKNOWN,
};

fn letters(text: &str) -> Vec<char> {
    text.chars().collect()
}

fn probe(rule: Rule, needle: &str, weight: u32) -> Probe {
    Probe { rule, needle: letters(needle), weight }
}

fn profile(name: &str, probes: Vec<Probe>) -> Profile {
    Profile { name: name.to_string(), probes }
}

fn entry(path: &str) -> FileEntry<'_> {
    FileEntry { path, folded: letters(&path.to_lowercase()) }
}

fn field() -> Vec<Profile> {
    vec![
        profile(
            "Unity",
            vec![
                probe(Rule::Extension, "assets", 1500),
                probe(Rule::PathContains, "_data/managed", 2000),
            ],
        ),
        profile("Godot", vec![probe(Rule::Extension, "pck", 2000)]),
        profile("Unity", vec![probe(Rule::FilenameStartsWith, "unity", 250)]),
    ]
}

fn strings(paths: &[&str]) -> Vec<String> {
    paths.iter().map(|p| p.to_string()).collect()
}

#[test]
fn confidence_levels_and_thresholds() {
    assert_eq!(UNIT, 1000);
    assert_eq!(HIGH_SCORE, 5000);
    assert_eq!(MEDIUM_SCORE, 2000);
    assert_eq!(
        [CONFIDENCE_NONE, CONFIDENCE_WEAK, CONFIDENCE_STRONG, CONFIDENCE_FULL],
        [0, 500, 800, 1000]
    );
    assert_eq!(confidence_for(0), 0);
    assert_eq!(confidence_for(1), 500);
    assert_eq!(confidence_for(1999), 500);
    assert_eq!(confidence_for(2000), 800);
    assert_eq!(confidence_for(4999), 800);
    assert_eq!(confidence_for(5000), 1000);
    assert_eq!(confidence_for(u64::MAX), 1000);
}

#[test]
fn confidence_never_falls_as_the_score_rises() {
    let mut last = 0;
    for score in 0..6000u64 {
        let level = confidence_for(score);
        assert!(level >= last);
        assert!([0, 500, 800, 1000].contains(&level));
        last = level;
    }
}

#[test]
fn leader_is_the_first_with_the_highest_score() {
    assert_eq!(pick_leader(&[]), None);
    assert_eq!(pick_leader(&[0]), None);
    assert_eq!(pick_leader(&[0, 0, 0]), None);
    assert_eq!(pick_leader(&[7]), Some(0));
    assert_eq!(pick_leader(&[0, 3, 3, 1]), Some(1));
    assert_eq!(pick_leader(&[2, 3, 5, 5, 4]), Some(2));
    assert_eq!(pick_leader(&[u64::MAX, u64::MAX]), Some(0));
    assert_eq!(pick_leader(&[1, 0, u64::MAX]), Some(2));
}

#[test]
fn probes_hit_on_the_folded_form() {
    let pck = probe(Rule::Extension, "pck", 2000);
    assert!(pck.hits(&letters("game.pck")));
    assert!(!pck.hits(&letters("GAME.PCK")));
    assert!(!pck.hits(&letters("game.pak")));
}

#[test]
fn profile_weight_sums_the_hits() {
    let unity = &field()[0];
    assert_eq!(unity.weight_on(&letters("game_data/managed/a.dll")), 2000);
    assert_eq!(unity.weight_on(&letters("game_data/managed/x.assets")), 3500);
    assert_eq!(unity.weight_on(&letters("readme.txt")), 0);
    assert_eq!(profile("Empty", vec![]).weight_on(&letters("a")), 0);
}

#[test]
fn profile_weight_stops_at_the_largest_value() {
    let heavy = profile("Heavy", vec![probe(Rule::PathContains, "", u32::MAX)]);
    assert_eq!(heavy.weight_on(&letters("a")), u64::from(u32::MAX));
}

#[test]
fn profile_records_one_path_per_hit() {
    let unity = &field()[0];
    let mut found = vec!["before".to_string()];
    unity.record_hits(&entry("Game_Data/Managed/x.assets"), &mut found);
    unity.record_hits(&entry("readme.txt"), &mut found);
    unity.record_hits(&entry("Game_Data/Managed/a.dll"), &mut found);
    assert_eq!(
        found,
        strings(&[
            "before",
            "Game_Data/Managed/x.assets",
            "Game_Data/Managed/x.assets",
            "Game_Data/Managed/a.dll",
        ])
    );
}

#[test]
fn profile_score_sums_over_the_listing() {
    let listing = [entry("Game_Data/Managed/a.dll"), entry("b.assets"), entry("c.pck")];
    let field = field();
    assert_eq!(score_profile(&field[0], &listing), 3500);
    assert_eq!(score_profile(&field[1], &listing), 2000);
    assert_eq!(score_profile(&field[2], &listing), 0);
    assert_eq!(score_profile(&field[0], &[]), 0);
}

#[test]
fn name_score_sums_over_the_profiles_of_the_name() {
    let listing = [entry("Game_Data/Managed/a.dll"), entry("UnityPlayer.dll"), entry("c.pck")];
    let field = field();
    assert_eq!(score_name(&listing, &field, &"Unity".to_string()), 2250);
    assert_eq!(score_name(&listing, &field, &"Godot".to_string()), 2000);
    assert_eq!(score_name(&listing, &field, &"unity".to_string()), 0);
    assert_eq!(score_name(&listing, &field, &"Unreal".to_string()), 0);
    assert_eq!(score_name(&listing, &[], &"Unity".to_string()), 0);
    assert_eq!(rank(&listing, &field), vec![2250, 2000, 2250]);
    assert_eq!(rank(&[], &field), vec![0, 0, 0]);
    assert_eq!(rank(&listing, &[]), Vec::<u64>::new());
}

#[test]
fn scores_add_up_over_the_parts_of_a_listing() {
    let front = [entry("Game_Data/Managed/a.dll"), entry("b.assets")];
    let back = [entry("UnityPlayer.dll"), entry("c.pck"), entry("d.assets")];
    let whole = [
        entry("Game_Data/Managed/a.dll"),
        entry("b.assets"),
        entry("UnityPlayer.dll"),
        entry("c.pck"),
        entry("d.assets"),
    ];
    let field = field();
    for name in ["Unity", "Godot", "Unreal"] {
        let name = name.to_string();
        assert_eq!(
            score_name(&whole, &field, &name),
            score_name(&front, &field, &name) + score_name(&back, &field, &name)
        );
    }
    assert_eq!(score_name(&whole, &field, &"Unity".to_string()), 5250);
    let mut shuffled = field.clone();
    shuffled.reverse();
    assert_eq!(score_name(&whole, &shuffled, &"Unity".to_string()), 5250);
    let turned = [
        entry("c.pck"),
        entry("d.assets"),
        entry("b.assets"),
        entry("UnityPlayer.dll"),
        entry("Game_Data/Managed/a.dll"),
    ];
    assert_eq!(score_name(&turned, &field, &"Unity".to_string()), 5250);
}

#[test]
fn matches_follow_the_listing_then_the_profiles() {
    let listing = [
        entry("UnityPlayer.assets"),
        entry("c.pck"),
        entry("Game_Data/Managed/unity.assets"),
    ];
    let field = field();
    assert_eq!(
        collect_matches(&listing, &field, &"Unity".to_string()),
        strings(&[
            "UnityPlayer.assets",
            "UnityPlayer.assets",
            "Game_Data/Managed/unity.assets",
            "Game_Data/Managed/unity.assets",
            "Game_Data/Managed/unity.assets",
        ])
    );
    assert_eq!(collect_matches(&listing, &field, &"Godot".to_string()), strings(&["c.pck"]));
    assert!(collect_matches(&listing, &field, &"Unreal".to_string()).is_empty());
    let mut found = Vec::new();
    record_entry(&listing[0], &field, &"Unity".to_string(), &mut found);
    assert_eq!(found, strings(&["UnityPlayer.assets", "UnityPlayer.assets"]));
}

#[test]
fn classify_reports_the_leader() {
    let listing = [entry("Game_Data/Managed/a.dll"), entry("UnityPlayer.dll"), entry("c.pck")];
    assert_eq!(
        classify(&listing, &field()),
        DetectionResult {
            engine: "Unity".to_string(),
            confidence: 800,
            matches: strings(&["Game_Data/Managed/a.dll", "UnityPlayer.dll"]),
        }
    );
}

#[test]
fn classify_without_a_score_is_unknown() {
    let unknown =
        DetectionResult { engine: "Unknown".to_string(), confidence: 0, matches: Vec::new() };
    assert_eq!(UNKNOWN, "Unknown");
    assert_eq!(classify(&[entry("readme.txt")], &field()), unknown);
    assert_eq!(classify(&[], &field()), unknown);
    assert_eq!(classify(&[entry("c.pck")], &[]), unknown);
}

#[test]
fn classify_compares_the_folded_form_and_reports_the_path() {
    let shouted = FileEntry { path: "C.PCK", folded: letters("c.pck") };
    let result = classify(&[shouted], &field());
    assert_eq!(result.engine, "Godot");
    assert_eq!(result.matches, strings(&["C.PCK"]));
    let unfolded = FileEntry { path: "C.PCK", folded: letters("C.PCK") };
    assert_eq!(classify(&[unfolded], &field()).engine, "Unknown");
}

#[test]
fn folding_lowers_the_case_and_keeps_the_path() {
    let folded = fold_path("Game_Data/LEVEL0");
    assert_eq!(folded.path, "Game_Data/LEVEL0");
    assert_eq!(folded.folded, letters("game_data/level0"));
    let files = strings(&["A.Pck", "b/C.TXT"]);
    let listing = fold_listing(&files);
    assert_eq!(listing.len(), 2);
    assert_eq!(listing[0].path, "A.Pck");
    assert_eq!(listing[0].folded, letters("a.pck"));
    assert_eq!(listing[1].path, "b/C.TXT");
    assert_eq!(listing[1].folded, letters("b/c.txt"));
    assert!(fold_listing(&[]).is_empty());
}

#[test]
fn preparing_keeps_names_rules_and_weights() {
    let configs = vec![
        EngineConfig {
            name: "Unity".to_string(),
            signatures: vec![
                Signature { kind: SignatureType::Extension("Assets".to_string()), weight: 1500 },
                Signature { kind: SignatureType::PathComponent("Level*".to_string()), weight: 1 },
            ],
        },
        EngineConfig { name: "Empty".to_string(), signatures: vec![] },
    ];
    let profiles = prepare(&configs);
    assert_eq!(profiles.len(), 2);
    assert_eq!(profiles[0].name, "Unity");
    assert_eq!(profiles[0].probes.len(), 2);
    assert_eq!(profiles[0].probes[0].rule, Rule::Extension);
    assert_eq!(profiles[0].probes[0].needle, letters("assets"));
    assert_eq!(profiles[0].probes[0].weight, 1500);
    assert_eq!(profiles[0].probes[1].rule, Rule::PathComponent);
    assert_eq!(profiles[0].probes[1].needle, letters("level"));
    assert_eq!(profiles[0].probes[1].weight, 1);
    assert_eq!(profiles[1].name, "Empty");
    assert!(profiles[1].probes.is_empty());
    let one = configs[0].signatures[0].probe();
    assert_eq!((one.rule, one.needle, one.weight), (Rule::Extension, letters("assets"), 1500));
    assert_eq!(configs[1].profile().name, "Empty");
    assert!(prepare(&[]).is_empty());
}
