use muster::session::theme::{
    build_theme_commands, compute_dimmed, contrast_fg, hex_to_rgb, named_color_to_hex,
    named_lower_to_hex, resolve_color, rgb_to_hex, shaded_color_to_hex, ThemeValues,
};

#[test]
fn test_hex_to_rgb() {
    assert_eq!(hex_to_rgb("#f97316").unwrap(), (249, 115, 22));
    assert_eq!(hex_to_rgb("#000000").unwrap(), (0, 0, 0));
    assert_eq!(hex_to_rgb("#ffffff").unwrap(), (255, 255, 255));
    assert_eq!(hex_to_rgb("ff0000").unwrap(), (255, 0, 0)); // without #
}

#[test]
fn test_hex_to_rgb_invalid() {
    assert!(hex_to_rgb("#xyz").is_err());
    assert!(hex_to_rgb("#gggggg").is_err());
    assert!(hex_to_rgb("").is_err());
}

#[test]
fn test_compute_dimmed_color() {
    assert_eq!(compute_dimmed(249, 115, 22), (83, 38, 7));
    assert_eq!(compute_dimmed(255, 255, 255), (85, 85, 85));
    assert_eq!(compute_dimmed(0, 0, 0), (0, 0, 0));
}

#[test]
fn test_rgb_to_hex() {
    assert_eq!(rgb_to_hex(249, 115, 22), "#f97316");
    assert_eq!(rgb_to_hex(0, 0, 0), "#000000");
    assert_eq!(rgb_to_hex(255, 255, 255), "#ffffff");
}

#[test]
fn test_resolve_color_hex() {
    assert_eq!(resolve_color("#f97316").unwrap(), "#f97316");
    assert_eq!(resolve_color("ff0000").unwrap(), "#ff0000");
}

#[test]
fn test_resolve_color_named() {
    assert_eq!(resolve_color("orange").unwrap(), "#f97316");
    assert_eq!(resolve_color("Orange").unwrap(), "#f97316");
    assert_eq!(resolve_color("BLUE").unwrap(), "#3465a4");
    assert_eq!(resolve_color("gray").unwrap(), "#808080");
    assert_eq!(resolve_color("grey").unwrap(), "#808080");
}

#[test]
fn test_resolve_color_invalid() {
    assert!(resolve_color("notacolor").is_err());
    assert!(resolve_color("").is_err());
}

#[test]
fn test_resolve_color_shaded() {
    // Light shades (Tailwind 300)
    assert_eq!(resolve_color("red-light").unwrap(), "#fca5a5");
    assert_eq!(resolve_color("Blue-Light").unwrap(), "#93c5fd");
    // Dark shades (Tailwind 700)
    assert_eq!(resolve_color("red-dark").unwrap(), "#b91c1c");
    assert_eq!(resolve_color("Green-Dark").unwrap(), "#15803d");
    // Bare name still returns the named colour, not the Tailwind base
    assert_eq!(resolve_color("red").unwrap(), "#cc0000");
    // Violet alias resolves to purple's hex
    assert_eq!(resolve_color("violet").unwrap(), "#a855f7");
    // Violet shades still work through the shade table
    assert_eq!(resolve_color("violet-light").unwrap(), "#c4b5fd");
    assert_eq!(resolve_color("violet-dark").unwrap(), "#6d28d9");
    // CSS named colors
    assert_eq!(resolve_color("coral").unwrap(), "#ff7f50");
    assert_eq!(resolve_color("navy").unwrap(), "#000080");
    assert_eq!(resolve_color("crimson").unwrap(), "#dc143c");
    assert_eq!(resolve_color("gold").unwrap(), "#ffd700");
    assert_eq!(resolve_color("brown").unwrap(), "#8b4513");
    assert_eq!(resolve_color("chocolate").unwrap(), "#8b4513");
    assert_eq!(resolve_color("tomato").unwrap(), "#ff6347");
    // Computed shades for colors without a table shade
    assert!(resolve_color("brown-light").is_ok());
    assert!(resolve_color("brown-dark").is_ok());
    assert!(resolve_color("navy-light").is_ok());
    assert!(resolve_color("coral-dark").is_ok());
}

#[test]
fn test_shaded_color_invalid_suffix() {
    // Unknown suffix falls through to hex validation and fails
    assert!(resolve_color("red-medium").is_err());
    assert!(resolve_color("red-base").is_err());
}

#[test]
fn test_build_theme_commands() {
    let commands = build_theme_commands("muster_test", "#f97316", "PKM Project").unwrap();
    assert_eq!(commands.len(), 7);

    // Session options come first
    assert_eq!(commands[0][3], "status-style");
    assert!(commands[0][4].contains("bg=#f97316"));

    assert_eq!(commands[1][3], "status-left");
    assert!(commands[1][4].contains("PKM Project"));
    assert!(commands[1][4].contains("#532607")); // dimmed

    assert_eq!(commands[2][3], "status-position");
    assert_eq!(commands[2][4], "top");

    assert_eq!(commands[3][3], "mouse");
    assert_eq!(commands[3][4], "on");

    // Window options follow
    assert_eq!(commands[4][3], "window-status-format");
    assert!(commands[4][4].contains("#f97316"));

    assert_eq!(commands[5][3], "window-status-current-format");
    assert!(commands[5][4].contains("#f97316"));
    assert!(commands[5][4].contains("bg=#000000"));

    assert_eq!(commands[6][3], "window-status-separator");
}

#[test]
fn hex_round_trip_on_samples() {
    for (r, g, b) in [(0u8, 0u8, 0u8), (255, 255, 255), (249, 115, 22), (1, 16, 254)] {
        let hex = rgb_to_hex(r, g, b);
        assert_eq!(hex_to_rgb(&hex).unwrap(), (r, g, b));
    }
}

#[test]
fn resolved_colors_are_hex() {
    for c in ["orange", "red-light", "navy-light", "#ABCDEF", "abcdef", "Gold"] {
        let hex = resolve_color(c).unwrap();
        assert_eq!(hex.len(), 7);
        assert!(hex.starts_with('#'));
        assert!(hex_to_rgb(&hex).is_ok());
    }
}

#[test]
fn invalid_color_message() {
    let err = resolve_color("notacolor").unwrap_err();
    assert_eq!(err.message(), "invalid color: #notacolor");
    let err = hex_to_rgb("#xyz").unwrap_err();
    assert!(err.message().starts_with("invalid color: "));
}

#[test]
fn contrast_foreground_exact_values() {
    assert_eq!(contrast_fg(255, 255, 255), "#000000");
    assert_eq!(contrast_fg(0, 0, 0), "#ffffff");
    assert_eq!(contrast_fg(249, 115, 22), "#000000");
    assert_eq!(contrast_fg(0, 0, 255), "#ffffff");
}

#[test]
fn named_and_shaded_lookups() {
    assert_eq!(named_color_to_hex("purple").as_deref(), Some("#a855f7"));
    assert_eq!(named_color_to_hex("nope"), None);
    assert_eq!(shaded_color_to_hex("red-light").as_deref(), Some("#fca5a5"));
    assert_eq!(shaded_color_to_hex("red"), None);
}

#[test]
fn hex_pairs_are_two_hex_digits() {
    assert!(hex_to_rgb("+f+f+f").is_err());
    assert!(hex_to_rgb("#+f0000").is_err());
    assert!(hex_to_rgb("a\u{20ac}bc").is_err());
    assert!(hex_to_rgb("#a\u{20ac}bc").is_err());
    assert!(hex_to_rgb("ab\u{e9}cd").is_err());
    assert_eq!(hex_to_rgb("#ABCDEF").unwrap(), (0xab, 0xcd, 0xef));
    assert!(resolve_color("+f+f+f").is_err());
    assert_eq!(
        resolve_color("a\u{20ac}bc").unwrap_err().message(),
        "invalid color: #a\u{20ac}bc"
    );
}

#[test]
fn resolved_colours_resolve_to_themselves() {
    for c in ["purple", "Violet", "red-light", "BLUE-dark", "#F97316", "00ff00"] {
        let h = resolve_color(c).unwrap();
        assert_eq!(h.len(), 7);
        assert!(h.starts_with('#'));
        assert!(hex_to_rgb(&h).is_ok());
        assert_eq!(resolve_color(&h).unwrap(), h);
    }
}

#[test]
fn lookups_of_lowercased_names() {
    assert_eq!(named_lower_to_hex("purple").as_deref(), Some("#a855f7"));
    assert_eq!(named_lower_to_hex("violet").as_deref(), Some("#a855f7"));
    assert_eq!(named_lower_to_hex("Purple"), None);
    assert_eq!(named_lower_to_hex("red-dark").as_deref(), Some("#b91c1c"));
}

#[test]
fn theme_values_window_options() {
    let tv = ThemeValues::new("#f97316", "PKM Project").unwrap();
    let opts = tv.window_options();
    assert_eq!(opts.len(), 3);
    assert_eq!(opts[0].0, "window-status-format");
    let neutral = ThemeValues::neutral_window_options();
    assert!(!neutral.is_empty());
}

#[test]
fn test_snapshot_theme_commands() {
    let commands = build_theme_commands("muster_test", "#f97316", "PKM Project").unwrap();
    let stale = "#{?#{@muster_layout_stale},#[fg=#c4a000]\u{25cf} ,}";
    let expected: Vec<Vec<String>> = vec![
        vec!["set-option", "-t", "muster_test", "status-style", "bg=#f97316,fg=#000000"],
        vec![
            "set-option",
            "-t",
            "muster_test",
            "status-left",
            "#[bg=#532607,fg=#ffffff,bold] PKM Project #[default]",
        ],
        vec!["set-option", "-t", "muster_test", "status-position", "top"],
        vec!["set-option", "-t", "muster_test", "mouse", "on"],
        vec![
            "set-option",
            "-t",
            "muster_test",
            "window-status-format",
            &format!("#[bg=#f97316,fg=#000000]  #I: #W {stale}"),
        ],
        vec![
            "set-option",
            "-t",
            "muster_test",
            "window-status-current-format",
            &format!("#[fg=#f97316,bg=#000000,bold]  #I: #W {stale}#[default]"),
        ],
        vec!["set-option", "-t", "muster_test", "window-status-separator", ""],
    ]
    .into_iter()
    .map(|c| c.into_iter().map(String::from).collect())
    .collect();
    assert_eq!(commands, expected);
}
