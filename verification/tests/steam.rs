use mlkit::steam::{
    detect_game_dir, keep_first, game_dir_candidates, parse_vdf_paths, steam_libraries, windows_separators,
    GameDirCandidate,
};

#[test]
fn parse_vdf_extrait_les_chemins() {
    let vdf = r#"
"libraryfolders"
{
	"0"
	{
		"path"		"C:\\Program Files (x86)\\Steam"
		"label"		""
	}
	"1"
	{
		"path"		"D:\\SteamLibrary"
	}
}
"#;
    let paths = parse_vdf_paths(vdf);
    assert_eq!(
        paths,
        vec![
            r"C:\Program Files (x86)\Steam".to_string(),
            r"D:\SteamLibrary".to_string()
        ]
    );
}

#[test]
fn parse_vdf_key_is_case_insensitive_and_crlf_is_trimmed() {
    let vdf = "\"PATH\"\t\"E:\\\\Games\"\r\n  \"Path\" \"F:\\\\\"\r\n\"paths\" \"G:\"\n";
    assert_eq!(
        parse_vdf_paths(vdf),
        vec![r"E:\Games".to_string(), r"F:\".to_string()]
    );
}

#[test]
fn parse_vdf_needs_a_value_and_keeps_untrimmed_pieces() {
    // A lone key gives nothing; a key with spaces inside its quotes is not `path`.
    let vdf = "\"path\"\n\" path \" \"X\"\n\"path\"   \"  Y \"\n";
    assert_eq!(parse_vdf_paths(vdf), vec!["  Y ".to_string()]);
}

#[test]
fn parse_vdf_backslashes_pair_from_the_left() {
    // Three backslashes: the first two make one, the third stays.
    let vdf = "\"path\" \"A\\\\\\B\"";
    assert_eq!(parse_vdf_paths(vdf), vec!["A\\\\B".to_string()]);
}

#[test]
fn parse_vdf_empty_text() {
    assert!(parse_vdf_paths("").is_empty());
    assert!(parse_vdf_paths("\n\n   \n").is_empty());
}

#[test]
fn steam_libraries_lists_root_then_new_folders() {
    let vdf = "\"path\" \"C:\\\\Steam\"\n\"path\" \"D:\\\\Lib\"\n\"path\" \"D:\\\\Lib\"\n";
    let libs = steam_libraries(Some(r"C:\Steam".to_string()), Some(vdf.to_string()));
    assert_eq!(libs, vec![r"C:\Steam".to_string(), r"D:\Lib".to_string()]);
}

#[test]
fn steam_libraries_without_steam_or_vdf() {
    assert!(steam_libraries(None, Some("\"path\" \"D:\"".to_string())).is_empty());
    assert_eq!(
        steam_libraries(Some("S".to_string()), None),
        vec!["S".to_string()]
    );
}

#[test]
fn candidates_then_defaults() {
    let c = game_dir_candidates(&vec!["S".to_string()]);
    assert_eq!(c.len(), 3);
    assert_eq!(c[0].base, "S");
    assert_eq!(c[0].below, vec!["steamapps", "common", "BROKE PROTOCOL"]);
    assert_eq!(
        c[1].base,
        r"C:\Program Files (x86)\Steam\steamapps\common\BROKE PROTOCOL"
    );
    assert!(c[1].below.is_empty());
    assert_eq!(c[2].base, r"C:\Program Files\Steam\steamapps\common\BROKE PROTOCOL");
}

#[test]
fn detect_takes_the_first_valid() {
    let c = game_dir_candidates(&vec!["A".to_string(), "B".to_string()]);
    let picked = detect_game_dir(c.clone(), &vec![false, true, true, false]);
    assert_eq!(picked, Some(c[1].clone()));
    let none: Option<GameDirCandidate> = detect_game_dir(c, &vec![false, false, false, false]);
    assert_eq!(none, None);
}

#[test]
fn registry_path_gets_backslashes() {
    assert_eq!(windows_separators("c:/program files (x86)/steam"), r"c:\program files (x86)\steam");
    assert_eq!(windows_separators(r"D:\Steam"), r"D:\Steam");
    assert_eq!(windows_separators(""), "");
}

#[test]
fn steam_libraries_compares_paths_not_texts() {
    // A trailing separator, or a doubled one, names the same folder.
    let vdf = "\"path\" \"/lib/\"\n\"path\" \"/games//steam\"\n\"path\" \"/games/steam\"\n";
    let libs = steam_libraries(Some("/lib".to_string()), Some(vdf.to_string()));
    assert_eq!(libs, vec!["/lib".to_string(), "/games//steam".to_string()]);
}

#[test]
fn keep_first_follows_the_answers() {
    let folders = vec!["a".to_string(), "b".to_string(), "c".to_string()];
    let f = false;
    let t = true;
    // Nothing the same: all kept.
    let none = vec![vec![t, f, f], vec![f, t, f], vec![f, f, t]];
    assert_eq!(keep_first(&folders, &none), vec!["a", "b", "c"]);
    // "c" is the same path as "a": dropped.
    let ca = vec![vec![t, f, t], vec![f, t, f], vec![t, f, t]];
    assert_eq!(keep_first(&folders, &ca), vec!["a", "b"]);
    // "b" is the same as "a" and "c" the same as "b" only: "b" is dropped,
    // and "c" is compared with the kept folders alone, so it stays.
    let chain = vec![vec![t, t, f], vec![t, t, t], vec![f, t, t]];
    assert_eq!(keep_first(&folders, &chain), vec!["a", "c"]);
    assert!(keep_first(&Vec::new(), &Vec::new()).is_empty());
}

#[test]
fn vdf_lines_are_read_apart() {
    let first = "\"path\"\t\t\"C:\\\\Steam\"\n\"label\" \"x\"";
    let second = "  \"PATH\" \"D:\\\\Games\"\r\n\"path\" \"E:\\\\Lib\"";
    let joined = format!("{first}\n{second}");
    let mut expected = parse_vdf_paths(first);
    expected.extend(parse_vdf_paths(second));
    assert_eq!(parse_vdf_paths(&joined), expected);
    assert_eq!(
        expected,
        vec![r"C:\Steam".to_string(), r"D:\Games".to_string(), r"E:\Lib".to_string()]
    );
}
