use hyprcube::hyprconf::{ConfigItem, HyprlandConfig, ParseError};


    /// A realistic config snippet used across several tests.
    fn sample_config() -> &'static str {
        "\
# HyprCube test config
monitor = DP-1, 1920x1080@144, 0x0, 1
monitor = HDMI-A-1, 2560x1440@60, 1920x0, 1

general {
    gaps_in = 5
    gaps_out = 10
    border_size = 2
    col.active_border = rgba(89b4faee)
}

decoration {
    rounding = 10
    blur {
        enabled = true
        size = 3
    }
}

# Keybindings
bind = SUPER, Return, exec, kitty
bind = SUPER, Q, killactive,
bind = SUPER, M, exit,
bind = SUPER, V, togglefloating,
bind = SUPER, P, pseudo,

source = ~/.config/hypr/keybinds.conf"
    }

    // -----------------------------------------------------------------------
    // 1. Roundtrip test
    // -----------------------------------------------------------------------

    #[test]
    fn roundtrip_preserves_structure() {
        let input = sample_config();
        let config = HyprlandConfig::parse(input).unwrap();
        let output = config.to_string_lossy();

        // Re-parse the output and compare ASTs.
        let reparsed = HyprlandConfig::parse(&output).unwrap();
        assert_eq!(config, reparsed, "AST must survive a roundtrip");

        // Also verify line-by-line that comments and blanks are in order.
        let in_lines: Vec<&str> = input.lines().collect();
        let out_lines: Vec<&str> = output.lines().collect();
        assert_eq!(in_lines.len(), out_lines.len(), "line count must match");

        for (i, (a, b)) in in_lines.iter().zip(out_lines.iter()).enumerate() {
            assert_eq!(
                a.trim(),
                b.trim(),
                "content mismatch at line {} (whitespace normalization is ok)",
                i + 1
            );
        }
    }

    // -----------------------------------------------------------------------
    // 2. Nested section test
    // -----------------------------------------------------------------------

    #[test]
    fn nested_section_query() {
        let input = "\
decoration {
    rounding = 10
    blur {
        enabled = true
        size = 3
    }
}";
        let config = HyprlandConfig::parse(input).unwrap();

        assert_eq!(
            config.get_in_nested(&["decoration"], "rounding"),
            Some("10")
        );
        assert_eq!(
            config.get_in_nested(&["decoration", "blur"], "enabled"),
            Some("true")
        );
        assert_eq!(
            config.get_in_nested(&["decoration", "blur"], "size"),
            Some("3")
        );
        assert_eq!(
            config.get_in_nested(&["decoration", "blur"], "missing"),
            None
        );
        assert_eq!(
            config.get_in_nested(&["nonexistent", "blur"], "enabled"),
            None
        );
    }

    // -----------------------------------------------------------------------
    // 3. Multi-value test
    // -----------------------------------------------------------------------

    #[test]
    fn get_all_returns_all_values() {
        let input = "\
bind = SUPER, Return, exec, kitty
bind = SUPER, Q, killactive,
bind = SUPER, M, exit,
bind = SUPER, V, togglefloating,
bind = SUPER, P, pseudo,";
        let config = HyprlandConfig::parse(input).unwrap();

        let binds = config.get_all("bind");
        assert_eq!(binds.len(), 5);
        assert_eq!(binds[0], "SUPER, Return, exec, kitty");
        assert_eq!(binds[4], "SUPER, P, pseudo,");
    }

    // -----------------------------------------------------------------------
    // 4. Mutation tests
    // -----------------------------------------------------------------------

    #[test]
    fn set_in_section_updates_existing_key() {
        let input = "\
general {
    gaps_in = 5
    gaps_out = 10
}";
        let mut config = HyprlandConfig::parse(input).unwrap();
        config.set_in_section("general", "gaps_in", "8");

        assert_eq!(config.get_in_section("general", "gaps_in"), Some("8"));
        // Other key untouched.
        assert_eq!(config.get_in_section("general", "gaps_out"), Some("10"));
    }

    #[test]
    fn set_in_section_creates_section_if_missing() {
        let mut config = HyprlandConfig::parse("").unwrap();
        config.set_in_section("input", "kb_layout", "us");

        assert_eq!(config.get_in_section("input", "kb_layout"), Some("us"));
        // Verify it appears in the serialized output.
        let output = config.to_string_lossy();
        assert!(output.contains("input {"));
        assert!(output.contains("kb_layout = us"));
    }

    #[test]
    fn set_in_nested_creates_path() {
        let mut config = HyprlandConfig::parse("").unwrap();
        config.set_in_nested(&["decoration", "blur"], "enabled", "true");

        assert_eq!(
            config.get_in_nested(&["decoration", "blur"], "enabled"),
            Some("true")
        );
    }

    #[test]
    fn set_updates_first_match() {
        let input = "\
monitor = DP-1, 1920x1080@144, 0x0, 1
exec-once = waybar";
        let mut config = HyprlandConfig::parse(input).unwrap();
        config.set("exec-once", "eww open bar");
        assert_eq!(config.get("exec-once"), Some("eww open bar"));
    }

    #[test]
    fn set_appends_when_missing() {
        let mut config = HyprlandConfig::parse("").unwrap();
        config.set("exec-once", "waybar");
        assert_eq!(config.get("exec-once"), Some("waybar"));
    }

    // -----------------------------------------------------------------------
    // 5. Remove test
    // -----------------------------------------------------------------------

    #[test]
    fn remove_all_by_prefix() {
        let mut config = HyprlandConfig::parse("").unwrap();
        config.add("bind", "SUPER, Return, exec, kitty");
        config.add("bind", "SUPER, Q, killactive,");
        config.add("bind", "SUPER, M, exit,");

        assert_eq!(config.get_all("bind").len(), 3);

        config.remove_all("bind", Some("SUPER, Q"));
        let binds = config.get_all("bind");
        assert_eq!(binds.len(), 2);
        assert_eq!(binds[0], "SUPER, Return, exec, kitty");
        assert_eq!(binds[1], "SUPER, M, exit,");
    }

    #[test]
    fn remove_all_without_prefix() {
        let mut config = HyprlandConfig::parse("").unwrap();
        config.add("bind", "SUPER, Return, exec, kitty");
        config.add("bind", "SUPER, Q, killactive,");

        config.remove_all("bind", None);
        assert!(config.get_all("bind").is_empty());
    }

    // -----------------------------------------------------------------------
    // 6. Edge cases
    // -----------------------------------------------------------------------

    #[test]
    fn empty_input() {
        let config = HyprlandConfig::parse("").unwrap();
        assert!(config.items.is_empty());
        assert_eq!(config.to_string_lossy(), "");
    }

    #[test]
    fn section_with_no_contents() {
        let input = "empty_section {\n}";
        let config = HyprlandConfig::parse(input).unwrap();
        assert_eq!(config.items.len(), 1);
        if let ConfigItem::Section { name, items } = &config.items[0] {
            assert_eq!(name, "empty_section");
            assert!(items.is_empty());
        } else {
            panic!("expected Section");
        }
    }

    #[test]
    fn value_containing_equals_sign() {
        let input = "env = GDK_BACKEND=wayland,x11";
        let config = HyprlandConfig::parse(input).unwrap();
        assert_eq!(config.get("env"), Some("GDK_BACKEND=wayland,x11"));
    }

    #[test]
    fn comment_after_value_preserved() {
        // Hyprland treats `#` after a value as an inline comment, but our
        // structure-preserving parser keeps the full text as the value.
        let input = "gaps_in = 5 # default gap";
        let config = HyprlandConfig::parse(input).unwrap();
        assert_eq!(config.get("gaps_in"), Some("5 # default gap"));

        // Roundtrip preserves it.
        let output = config.to_string_lossy();
        assert_eq!(output.trim(), input.trim());
    }

    #[test]
    fn source_directive_parsed() {
        let input = "source = ~/.config/hypr/keybinds.conf";
        let config = HyprlandConfig::parse(input).unwrap();
        assert_eq!(config.items.len(), 1);
        assert!(
            matches!(&config.items[0], ConfigItem::Source(p) if p == "~/.config/hypr/keybinds.conf")
        );
        // Not returned by `get("source")`.
        assert_eq!(config.get("source"), None);
    }

    #[test]
    fn unexpected_close_brace() {
        let err = HyprlandConfig::parse("}").unwrap_err();
        assert!(
            matches!(err, ParseError::UnexpectedCloseBrace(1)),
            "expected UnexpectedCloseBrace(1), got {err:?}"
        );
    }

    #[test]
    fn unclosed_section() {
        let err = HyprlandConfig::parse("general {\n  gaps_in = 5").unwrap_err();
        assert!(
            matches!(err, ParseError::UnclosedSection(1)),
            "expected UnclosedSection(1), got {err:?}"
        );
    }

    #[test]
    fn deeply_nested_sections() {
        let input = "\
a {
    b {
        c {
            key = deep
        }
    }
}";
        let config = HyprlandConfig::parse(input).unwrap();
        assert_eq!(config.get_in_nested(&["a", "b", "c"], "key"), Some("deep"));

        let output = config.to_string_lossy();
        let reparsed = HyprlandConfig::parse(&output).unwrap();
        assert_eq!(config, reparsed);
    }

    #[test]
    fn get_in_section_convenience() {
        let config = HyprlandConfig::parse(sample_config()).unwrap();
        assert_eq!(config.get_in_section("general", "border_size"), Some("2"));
        assert_eq!(
            config.get_in_section("general", "col.active_border"),
            Some("rgba(89b4faee)")
        );
        assert_eq!(config.get_in_section("general", "missing"), None);
        assert_eq!(config.get_in_section("missing", "gaps_in"), None);
    }

    #[test]
    fn add_always_appends() {
        let mut config = HyprlandConfig::parse("bind = SUPER, A, exec, a").unwrap();
        config.add("bind", "SUPER, B, exec, b");
        let binds = config.get_all("bind");
        assert_eq!(binds.len(), 2);
        assert_eq!(binds[1], "SUPER, B, exec, b");
    }

    #[test]
    fn set_in_nested_updates_existing() {
        let input = "\
decoration {
    blur {
        enabled = true
    }
}";
        let mut config = HyprlandConfig::parse(input).unwrap();
        config.set_in_nested(&["decoration", "blur"], "enabled", "false");
        assert_eq!(
            config.get_in_nested(&["decoration", "blur"], "enabled"),
            Some("false")
        );
    }

    #[test]
    fn multiple_source_directives() {
        let input = "\
source = ~/.config/hypr/a.conf
source = ~/.config/hypr/b.conf";
        let config = HyprlandConfig::parse(input).unwrap();
        let sources: Vec<&str> = config
            .items
            .iter()
            .filter_map(|i| match i {
                ConfigItem::Source(p) => Some(p.as_str()),
                _ => None,
            })
            .collect();
        assert_eq!(
            sources,
            vec!["~/.config/hypr/a.conf", "~/.config/hypr/b.conf",]
        );
    }

    #[test]
    fn blank_lines_preserved() {
        let input = "a = 1\n\n\nb = 2";
        let config = HyprlandConfig::parse(input).unwrap();
        // a=1, blank, blank, b=2
        assert_eq!(config.items.len(), 4);
        assert_eq!(config.items[1], ConfigItem::Blank);
        assert_eq!(config.items[2], ConfigItem::Blank);
    }

    // -----------------------------------------------------------------------
    // 7. Remove API tests
    // -----------------------------------------------------------------------

    #[test]
    fn remove_first_top_level_key() {
        let mut config = HyprlandConfig::parse("a = 1\nb = 2\na = 3").unwrap();
        let removed = config.remove("a");
        assert!(removed);
        // Only the first "a" is gone; second "a = 3" remains.
        assert_eq!(config.get("a"), Some("3"));
        assert_eq!(config.get("b"), Some("2"));
    }

    #[test]
    fn remove_nonexistent_key_returns_false() {
        let mut config = HyprlandConfig::parse("a = 1").unwrap();
        assert!(!config.remove("missing"));
    }

    #[test]
    fn remove_in_section_removes_matching_key() {
        let input = "general {\n    gaps_in = 5\n    gaps_out = 10\n}";
        let mut config = HyprlandConfig::parse(input).unwrap();
        let removed = config.remove_in_section("general", "gaps_in");
        assert!(removed);
        assert_eq!(config.get_in_section("general", "gaps_in"), None);
        assert_eq!(config.get_in_section("general", "gaps_out"), Some("10"));
    }

    #[test]
    fn remove_in_section_missing_section_returns_false() {
        let mut config = HyprlandConfig::parse("general {\n    gaps_in = 5\n}").unwrap();
        assert!(!config.remove_in_section("input", "kb_layout"));
    }

    #[test]
    fn remove_in_section_missing_key_returns_false() {
        let mut config = HyprlandConfig::parse("general {\n    gaps_in = 5\n}").unwrap();
        assert!(!config.remove_in_section("general", "nonexistent"));
    }

    // -----------------------------------------------------------------------
    // 8. Roundtrip safety: panel save must not introduce empty-value keys
    // -----------------------------------------------------------------------

    #[test]
    fn save_does_not_add_empty_keys() {
        let input = "\
general {
    gaps_in = 5
    border_size = 2
}

input {
    kb_layout = us
    sensitivity = 0.0
}
";
        let mut config = HyprlandConfig::parse(input).unwrap();

        // Simulate what a panel save does — set only dirty fields
        config.set_in_section("general", "gaps_in", "10");
        // Do NOT set kb_variant, kb_model, etc. — they were never in the config.

        let output = config.to_string_lossy();

        // Verify no empty-value keys were introduced.
        for line in output.lines() {
            if let Some((key, val)) = line.split_once('=') {
                let val = val.trim();
                assert!(!val.is_empty(), "Empty value for key: {}", key.trim());
            }
        }

        // Verify original structure preserved and mutation applied.
        assert!(output.contains("gaps_in = 10"));
        assert!(output.contains("border_size = 2"));
        assert!(output.contains("kb_layout = us"));
        assert!(!output.contains("kb_variant"));
        assert!(!output.contains("kb_model"));
        assert!(!output.contains("kb_options"));
        assert!(!output.contains("kb_rules"));
    }


#[test]
fn parse_errors_follow_brace_balance() {
    assert_eq!(
        HyprlandConfig::parse("a {\n}\n  }\n").unwrap_err(),
        ParseError::UnexpectedCloseBrace(3)
    );
    assert_eq!(
        HyprlandConfig::parse("a {\nb {\n}\n# c {\n").unwrap_err(),
        ParseError::UnclosedSection(1)
    );
    assert!(HyprlandConfig::parse("a {\n  b {\n  }\n}\n# }\n").is_ok());
}
