use particle_life::cli::parse_world_size;
use particle_life::config::{find_preset, preset_display_name, preset_file_accepted, decode_matrix, share_code_levels, default_bg, encode_matrix, AppearanceConfig, UiTheme};

#[test]
fn world_size_parses_w_by_h() {
    assert_eq!(parse_world_size("1920x1080"), Ok((1920, 1080)));
    assert_eq!(parse_world_size("+1x007"), Ok((1, 7)));
    assert_eq!(parse_world_size("4294967295x1"), Ok((u32::MAX, 1)));
}

#[test]
fn world_size_errors_name_the_input() {
    assert_eq!(
        parse_world_size("1920"),
        Err("expected WxH (e.g. 1920x1080), got \"1920\"".to_string())
    );
    assert_eq!(
        parse_world_size("abx10"),
        Err("invalid width \"ab\" in \"abx10\"".to_string())
    );
    assert_eq!(
        parse_world_size("10x"),
        Err("invalid height \"\" in \"10x\"".to_string())
    );
    assert_eq!(
        parse_world_size("10x20x30"),
        Err("invalid height \"20x30\" in \"10x20x30\"".to_string())
    );
    assert_eq!(
        parse_world_size("4294967296x1"),
        Err("invalid width \"4294967296\" in \"4294967296x1\"".to_string())
    );
    assert_eq!(
        parse_world_size("0x1080"),
        Err("world size must be non-zero, got \"0x1080\"".to_string())
    );
    assert_eq!(
        parse_world_size("-1x5"),
        Err("invalid width \"-1\" in \"-1x5\"".to_string())
    );
}

#[test]
fn appearance_defaults() {
    assert_eq!(default_bg(), [3, 3, 5]);
    let a = AppearanceConfig::default();
    assert_eq!(a.ui_theme, UiTheme::System);
    assert_eq!(a.bg_color, [3, 3, 5]);
    assert_eq!(UiTheme::default(), UiTheme::System);
}

fn levels_with(species: usize, f: impl Fn(usize, usize) -> i8) -> [i8; 272] {
    let mut levels = [0i8; 272];
    for i in 0..species {
        for j in 0..species {
            levels[i * 16 + j] = f(i, j);
        }
    }
    levels
}

#[test]
fn share_code_known_value() {
    let mut levels = [0i8; 272];
    levels[0] = 127;
    assert_eq!(encode_matrix(1, &levels), "AX8=");
    let levels = levels_with(2, |i, j| if i == j { 89 } else { -25 });
    // bytes: [2, 89, 231, 231, 89]
    assert_eq!(encode_matrix(2, &levels), "Alnn51k=");
}

#[test]
fn share_code_round_trips() {
    for n in 1..=16usize {
        let levels = levels_with(n, |i, j| (((i * 31 + j * 7 + n) % 255) as i32 - 127) as i8);
        let code = encode_matrix(n, &levels);
        let (m, values) = decode_matrix(&code).expect("decodes");
        assert_eq!(m, n);
        assert_eq!(values.len(), n * n);
        for i in 0..n {
            for j in 0..n {
                assert_eq!(values[i * n + j], levels[i * 16 + j]);
            }
        }
    }
}

#[test]
fn share_code_ignores_surrounding_white_space() {
    assert_eq!(decode_matrix("  AX8=\n\t"), Ok((1, vec![127])));
}

#[test]
fn share_code_errors() {
    assert_eq!(decode_matrix(""), Err("empty code".to_string()));
    assert_eq!(decode_matrix("AA=="), Err("invalid species count 0".to_string()));
    assert_eq!(decode_matrix("EQ=="), Err("invalid species count 17".to_string()));
    // bytes [2, 1, 2, 3]
    assert_eq!(decode_matrix("AgECAw=="), Err("expected 5 bytes, got 4".to_string()));
    assert!(decode_matrix("not base64!").is_err());
}

#[test]
fn preset_files_are_toml_and_not_underscored() {
    assert!(preset_file_accepted("Chains.toml"));
    assert!(preset_file_accepted("a.b.toml"));
    assert!(!preset_file_accepted(".toml"));
    assert!(!preset_file_accepted("_draft.toml"));
    assert!(!preset_file_accepted("notes.txt"));
    assert!(!preset_file_accepted("x.TOML"));
    assert!(!preset_file_accepted("x.toml.bak"));
}

#[test]
fn preset_names_fall_back_to_the_file_stem() {
    assert_eq!(preset_display_name("exported", Some("My Swarm")), "My Swarm");
    assert_eq!(preset_display_name("", Some("Blank")), "Blank");
    assert_eq!(preset_display_name("Chains", Some("chains-copy")), "Chains");
    assert_eq!(preset_display_name("exported", None), "exported");
}

#[test]
fn preset_argument_by_index_or_name() {
    let names: Vec<String> = ["Clusters", "Chains", "Ecosystem", "Symbiosis"]
        .iter()
        .map(|s| s.to_string())
        .collect();
    assert_eq!(find_preset("1", &names), Some(1));
    assert_eq!(find_preset("+3", &names), Some(3));
    assert_eq!(find_preset("chains", &names), Some(1));
    assert_eq!(find_preset("ECOSYSTEM", &names), Some(2));
    assert_eq!(find_preset("4", &names), None);
    assert_eq!(find_preset("Swarm", &names), None);
    let numbered = vec!["a".to_string(), "7".to_string()];
    // An out-of-range index falls back to matching names.
    assert_eq!(find_preset("7", &numbered), Some(1));
}

#[test]
fn share_code_bytes_give_count_and_levels() {
    assert_eq!(share_code_levels(&[2, 1, 255, 128, 127]), Ok((2, vec![1, -1, -128, 127])));
    assert_eq!(share_code_levels(&[]), Err("empty code".to_string()));
    assert_eq!(share_code_levels(&[0]), Err("invalid species count 0".to_string()));
    assert_eq!(share_code_levels(&[200, 1]), Err("invalid species count 200".to_string()));
    assert_eq!(share_code_levels(&[16, 0]), Err("expected 257 bytes, got 2".to_string()));
    assert_eq!(share_code_levels(&[3]), Err("expected 10 bytes, got 1".to_string()));
}

#[test]
fn share_codes_must_be_canonical_base64() {
    // Not a multiple of four characters.
    assert!(decode_matrix("A").is_err());
    assert!(decode_matrix("AX8").is_err());
    // Nonzero trailing bits: "AX9=" differs from the canonical "AX8=".
    assert!(decode_matrix("AX9=").is_err());
    assert_eq!(decode_matrix("AX8="), Ok((1, vec![127])));
}
