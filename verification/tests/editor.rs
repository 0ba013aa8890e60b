//! The config editor.

use plugkill::config::{Config, WhitelistEntry};
use plugkill::gui::settings::devices::{expansion, tree, Action, AttachedMap, Row};
use plugkill::gui::settings::editor::form::{
    build_sections, set_log_file, Control, NumberField, PolicyField, SwitchField, MAX_SLEEP_MS,
};
use plugkill::gui::settings::editor::highlight::{
    assignment, diff_line_markup, gutter, line_markup, markup, markup_escape, tokens, Lang, Token,
};
use plugkill::gui::settings::editor::model::{
    build, compose, diff, entry_selector, is_listed, list_add, list_add_instances, list_cover_one,
    list_entries, list_remove, load, open, pane_text, readonly_section, readonly_text,
    selector_entry, selectors, Line, ListKind, ReadFile, SECTIONS, UNREAD_PREFIX, UNREAD_READONLY,
};
use plugkill::gui::settings::editor::panel::{
    clamped_note, diff_markup, raw_text, row_label, with_head, Editor, Step,
};

// ---- highlight -----------------------------------------------------------

fn kinds(lang: Lang, line: &str) -> Vec<(Token, String)> {
    let spans = tokens(lang, line);
    let joined: String = spans.iter().map(|(_, t)| t.as_str()).collect();
    assert_eq!(joined, line, "the spans must rebuild the line");
    spans
}

fn spans(all: &[(Token, &str)]) -> Vec<(Token, String)> {
    all.iter().map(|(k, t)| (*k, t.to_string())).collect()
}

fn span(k: Token, t: &str) -> (Token, String) {
    (k, t.to_string())
}

#[test]
fn test_a_comment_is_one_span() {
    assert_eq!(
        kinds(Lang::Toml, "# what root runs"),
        spans(&[(Token::Comment, "# what root runs")])
    );
}

#[test]
fn test_an_indented_nix_comment_keeps_its_indent() {
    assert_eq!(
        kinds(Lang::Nix, "  # a note"),
        spans(&[(Token::Plain, "  "), (Token::Comment, "# a note")])
    );
}

#[test]
fn test_a_key_and_a_string_value() {
    assert_eq!(
        kinds(Lang::Toml, r#"path = "/etc/plugkill.toml""#),
        spans(&[
            (Token::Key, "path"),
            (Token::Plain, " "),
            (Token::Punct, "="),
            (Token::Plain, " "),
            (Token::Str, r#""/etc/plugkill.toml""#),
        ])
    );
}

#[test]
fn test_a_string_holding_a_quote_stays_one_span() {
    let spans = kinds(Lang::Toml, r#"note = "he said \"hi\" once""#);
    assert_eq!(
        spans.last(),
        Some(&span(Token::Str, r#""he said \"hi\" once""#))
    );
}

#[test]
fn test_a_number_value() {
    let spans = kinds(Lang::Toml, "grace_secs = 30");
    assert_eq!(spans.last(), Some(&span(Token::Number, "30")));
}

#[test]
fn test_a_negative_number_keeps_its_sign() {
    let spans = kinds(Lang::Nix, "offset = -12;");
    assert!(spans.contains(&span(Token::Number, "-12")));
}

#[test]
fn test_a_boolean_value() {
    let spans = kinds(Lang::Toml, "watch = true");
    assert_eq!(spans.last(), Some(&span(Token::Bool, "true")));
}

#[test]
fn test_a_boolean_named_as_a_key_is_not_a_boolean() {
    let spans = kinds(Lang::Nix, "true = 1;");
    assert_eq!(spans.first(), Some(&span(Token::Key, "true")));
}

#[test]
fn test_an_empty_line_has_no_spans() {
    assert!(tokens(Lang::Toml, "").is_empty());
    assert!(tokens(Lang::Nix, "").is_empty());
}

#[test]
fn test_a_toml_header_names_its_section() {
    assert_eq!(
        kinds(Lang::Toml, "[usb]"),
        spans(&[
            (Token::Punct, "["),
            (Token::Key, "usb"),
            (Token::Punct, "]"),
        ])
    );
}

#[test]
fn test_a_nix_attrset_opens_with_a_key() {
    let spans = kinds(Lang::Nix, "  usb = {");
    assert!(spans.contains(&span(Token::Key, "usb")));
    assert!(spans.contains(&span(Token::Punct, "{")));
}

#[test]
fn test_a_nix_list_item_is_a_string() {
    let spans = kinds(Lang::Nix, r#"    "1050:0407""#);
    assert!(spans.contains(&span(Token::Str, r#""1050:0407""#)));
}

#[test]
fn test_a_trailing_comment_is_a_comment() {
    let spans = kinds(Lang::Toml, "watch = true # on");
    assert_eq!(spans.last(), Some(&span(Token::Comment, "# on")));
}

#[test]
fn test_an_equals_sign_inside_a_string_is_not_an_assignment() {
    let body: Vec<char> = r#""a=b""#.chars().collect();
    assert_eq!(assignment(&body), None);
    let body: Vec<char> = "ab = 1".chars().collect();
    assert_eq!(assignment(&body), Some(3));
}

#[test]
fn letters_and_digits_of_other_scripts_are_told_apart() {
    let spans = kinds(Lang::Toml, "x = é٣ 7");
    assert!(spans.contains(&span(Token::Number, "7")), "{spans:?}");
}

#[test]
fn test_markup_escapes_an_ampersand_and_an_angle_bracket() {
    let out = line_markup(Lang::Toml, r#"path = "/tmp/a&b<c>""#);
    assert!(out.contains("&amp;"), "{out}");
    assert!(out.contains("&lt;c&gt;"), "{out}");
    assert!(!out.contains("a&b"), "{out}");
}

#[test]
fn test_markup_keeps_every_character_of_the_line() {
    let line = "shred = \"/home/a&b/<x>\"";
    let out = line_markup(Lang::Toml, line);
    let stripped = strip(&out);
    assert_eq!(stripped, line);
}

/// Undoes the markup, so a test can check nothing was lost.
fn strip(markup: &str) -> String {
    let mut out = String::new();
    let mut in_tag = false;
    for c in markup.chars() {
        match c {
            '<' => in_tag = true,
            '>' => in_tag = false,
            c if !in_tag => out.push(c),
            _ => {}
        }
    }
    out.replace("&lt;", "<")
        .replace("&gt;", ">")
        .replace("&quot;", "\"")
        .replace("&apos;", "'")
        .replace("&amp;", "&")
}

#[test]
fn every_special_character_is_escaped() {
    assert_eq!(
        markup_escape("a&b<c>d\"e'f\u{1}\u{7f}\u{9f}"),
        "a&amp;b&lt;c&gt;d&quot;e&apos;f&#x1;&#x7f;&#x9f;"
    );
}

#[test]
fn test_markup_of_a_document_has_one_line_per_line() {
    let out = markup(Lang::Toml, "[usb]\nwatch = true\n");
    assert_eq!(out.lines().count(), 2);
}

#[test]
fn test_the_gutter_numbers_one_line() {
    assert_eq!(gutter(1), "1");
}

#[test]
fn test_the_gutter_right_aligns_a_many_line_document() {
    let out = gutter(12);
    let lines: Vec<&str> = out.lines().collect();
    assert_eq!(lines.len(), 12);
    assert_eq!(lines[0], " 1");
    assert_eq!(lines[8], " 9");
    assert_eq!(lines[11], "12");
}

#[test]
fn test_a_changed_diff_line_keeps_its_mark_and_its_colours() {
    let marked = diff_line_markup(Lang::Toml, "key = \"v\"", true);
    assert!(marked.starts_with("<b>* "), "{marked}");
    assert!(marked.ends_with("</b>"), "{marked}");
    let key = line_markup(Lang::Toml, "key = \"v\"");
    assert!(key.contains("<span"), "the line is coloured at all");
    // The colour spans sit inside the bold, which is what Pango takes.
    assert!(marked.contains(&key), "{marked}");
    assert_eq!(strip(&marked), "* key = \"v\"");

    let plain = diff_line_markup(Lang::Toml, "key = \"v\"", false);
    assert!(!plain.contains("<b>"), "{plain}");
    assert_eq!(strip(&plain), "  key = \"v\"");
}

#[test]
fn test_the_gutter_of_nothing_is_nothing() {
    assert_eq!(gutter(0), "");
}

#[test]
fn test_the_numbers_live_only_in_the_gutter() {
    let document = "[usb]\nwatch = true";
    let code = markup(Lang::Toml, document);
    let numbers = gutter(document.lines().count());
    assert_eq!(strip(&code), document);
    assert!(!document.contains("<span"));
    assert!(
        numbers
            .chars()
            .all(|c| c.is_ascii_digit() || c == ' ' || c == '\n'),
        "{numbers}"
    );
    assert_eq!(numbers.lines().count(), code.lines().count());
}

// ---- model ---------------------------------------------------------------

fn usb(vendor_id: &str, product_id: &str, count: u32) -> WhitelistEntry {
    WhitelistEntry {
        vendor_id: vendor_id.into(),
        product_id: product_id.into(),
        count,
    }
}

#[test]
fn test_the_selectors_are_the_config_ids_in_bus_order() {
    let mut c = Config::default();
    list_add(&mut c, ListKind::Usb, "1d6b:0002").expect("a usb entry");
    list_add(&mut c, ListKind::Pci, "0000:01:00.0").expect("a pci entry");
    assert_eq!(selectors(&c), ["usb:1d6b:0002", "pci:0000:01:00.0"]);

    // Verbatim, uppercase included: the daemon looks a whitelist entry up
    // by the exact string too, so an entry that matches nothing there must
    // not read as covering a device here.
    let mut upper = Config::default();
    upper.whitelist.devices.push(usb("1D6B", "0002", 1));
    assert_eq!(selectors(&upper), ["usb:1D6B:0002"]);

    // An entry for two devices covers two: the daemon allows them by the
    // summed count, so one copy per instance is what the panel matches on.
    let mut two = Config::default();
    two.whitelist.devices.push(usb("046d", "c52b", 2));
    assert_eq!(selectors(&two), ["usb:046d:c52b", "usb:046d:c52b"]);
}

#[test]
fn test_an_expansion_counts_the_devices_it_stands_for() {
    let mut c = Config::default();
    assert_eq!(
        list_add_instances(&mut c, ListKind::Usb, "046d:c52b", 2),
        Ok("046d:c52b".to_string())
    );
    assert_eq!(c.whitelist.devices, vec![usb("046d", "c52b", 2)]);
    // Adding it again is not a failure: it is already covered, and a
    // count already high enough is left where it is.
    assert!(list_add_instances(&mut c, ListKind::Usb, "046d:c52b", 1).is_ok());
    assert_eq!(c.whitelist.devices[0].count, 2);
    assert!(list_add_instances(&mut c, ListKind::Usb, "046d:c52b", 3).is_ok());
    assert_eq!(c.whitelist.devices[0].count, 3);
    // A person typing the same entry twice still hears about it.
    assert!(list_add(&mut c, ListKind::Usb, "046d:c52b").is_err());
    // A shape the config cannot store is refused either way.
    assert!(list_add_instances(&mut c, ListKind::Usb, "nonsense", 1).is_err());
    // A list with no count is added once and never duplicated.
    assert!(list_add_instances(&mut c, ListKind::Pci, "0000:01:00.0", 2).is_ok());
    assert!(list_add_instances(&mut c, ListKind::Pci, "0000:01:00.0", 2).is_ok());
    assert_eq!(c.pci.ignore, ["0000:01:00.0"]);
}

#[test]
fn test_a_second_device_of_one_model_raises_the_entry_it_does_not_refuse() {
    let mut c = Config::default();
    assert_eq!(
        list_cover_one(&mut c, ListKind::Usb, "046d:c52b", 2),
        Ok("046d:c52b".to_string())
    );
    assert_eq!(c.whitelist.devices[0].count, 1, "the first covers one");
    assert!(list_cover_one(&mut c, ListKind::Usb, "046d:c52b", 2).is_ok());
    assert_eq!(c.whitelist.devices[0].count, 2, "the second raises it");
    assert_eq!(c.whitelist.devices.len(), 1, "one entry, not two");

    // And stops there: a click may never authorise a device nobody has
    // plugged in, however often it is clicked.
    assert!(list_cover_one(&mut c, ListKind::Usb, "046d:c52b", 2).is_ok());
    assert_eq!(c.whitelist.devices[0].count, 2);

    // A list matching one device per entry keeps refusing a duplicate.
    assert!(list_cover_one(&mut c, ListKind::Pci, "0000:01:00.0", 2).is_ok());
    assert!(list_cover_one(&mut c, ListKind::Pci, "0000:01:00.0", 2).is_err());
    // As does a shape the config cannot store.
    assert!(list_cover_one(&mut c, ListKind::Usb, "a stick", 2).is_err());
}

#[test]
fn test_a_config_that_did_not_load_says_it_was_not_read() {
    // Nothing may be stated as the daemon's when the file never opened.
    let missing = Err("No such file or directory".to_string());
    let loaded = load("/nonexistent/plugkill.toml", missing, "");
    assert!(!loaded.read);
    assert!(!load("", Ok(String::new()), "").read);
}

#[test]
fn test_the_tables_edit_the_config_a_person_clicked() {
    let mut c = Config::default();
    // A typed entry, in the case a person types it.
    assert_eq!(
        list_add(&mut c, ListKind::Usb, " 1D6B:0002 "),
        Ok("1d6b:0002".to_string())
    );
    assert_eq!(c.whitelist.devices, vec![usb("1d6b", "0002", 1)]);
    assert!(
        list_add(&mut c, ListKind::Usb, "1d6b:0002").is_err(),
        "twice"
    );
    assert!(list_add(&mut c, ListKind::Usb, "a stick").is_err());
    assert!(list_add(&mut c, ListKind::Usb, "  ").is_err());

    list_add(&mut c, ListKind::Network, "eth0").expect("interface");
    list_add(&mut c, ListKind::Pci, "0000:01:00.0").expect("pci selector");
    assert_eq!(c.network.interfaces, vec!["eth0".to_string()]);
    assert_eq!(c.pci.ignore, vec!["0000:01:00.0".to_string()]);
    assert!(is_listed(&c, ListKind::Network, "eth0"));

    list_remove(&mut c, ListKind::Usb, "1d6b:0002");
    list_remove(&mut c, ListKind::Network, "eth0");
    assert!(c.whitelist.devices.is_empty());
    assert!(c.network.interfaces.is_empty());
}

#[test]
fn test_a_usb_entry_for_more_than_one_device_says_so_but_stores_the_pair() {
    let mut c = Config::default();
    c.whitelist.devices.push(usb("1d6b", "0002", 3));
    assert_eq!(
        list_entries(&c, ListKind::Usb),
        vec![("1d6b:0002".to_string(), "1d6b:0002  x3".to_string())]
    );
}

#[test]
fn test_a_selector_from_another_panel_lands_in_its_own_table() {
    assert_eq!(
        selector_entry("usb:1D6B:0002"),
        Ok((ListKind::Usb, "1d6b:0002".to_string()))
    );
    assert_eq!(
        selector_entry("thunderbolt:0001-1234"),
        Ok((ListKind::Thunderbolt, "0001-1234".to_string()))
    );
    assert_eq!(
        selector_entry("sdcard:0x1234abcd"),
        Ok((ListKind::SdCard, "0x1234abcd".to_string()))
    );
    assert_eq!(
        selector_entry("pci:0000:01:00.0"),
        Ok((ListKind::Pci, "0000:01:00.0".to_string()))
    );
    // A monitor and an event have no config entry to make.
    assert!(selector_entry("display:SAM:772d:811021873").is_err());
    assert!(selector_entry("lid:closed").is_err());
}

#[test]
fn test_a_table_row_names_the_selector_it_came_from() {
    for selector in [
        "usb:1d6b:0002",
        "thunderbolt:0001-1234",
        "sdcard:0x1234abcd",
        "pci:0000:01:00.0",
    ] {
        let (kind, entry) = selector_entry(selector).expect("a table takes it");
        assert_eq!(entry_selector(kind, &entry).as_deref(), Some(selector));
    }
    // Neither of these names a device the reply could know.
    assert_eq!(entry_selector(ListKind::Network, "eth0"), None);
    assert_eq!(entry_selector(ListKind::Display, "eDP-1"), None);
}

#[test]
fn test_the_diff_marks_only_the_lines_that_differ() {
    let (left, right) = diff("a\nb\nc\n", "a\nB\nc\n");
    assert_eq!(
        left.iter().map(|l| l.changed).collect::<Vec<_>>(),
        [false, true, false]
    );
    assert_eq!(
        right.iter().map(|l| l.changed).collect::<Vec<_>>(),
        [false, true, false]
    );
    assert_eq!(right[1].text, "B");

    // An added line marks itself and leaves the rest alone, which a
    // positional compare would not manage.
    let (left, right) = diff("a\nc\n", "a\nb\nc\n");
    assert!(left.iter().all(|l| !l.changed));
    assert_eq!(
        right.iter().map(|l| l.changed).collect::<Vec<_>>(),
        [false, true, false]
    );
}

#[test]
fn test_an_edit_shows_up_in_the_output_and_nothing_else_does() {
    let loaded = Config::default();
    let mut edited = loaded.copy();
    edited.general.dry_run = true;
    let out = build(&loaded, &edited);
    assert!(out.error.is_none());
    assert!(out.toml.contains("dry_run = true"));
    assert!(out.nix.contains("dry_run = true;"));
    let marked: Vec<&str> = out
        .emitted_lines
        .iter()
        .filter(|l| l.changed)
        .map(|l| l.text.as_str())
        .collect();
    assert_eq!(marked, ["dry_run = true"]);
    assert_eq!(
        out.loaded_lines
            .iter()
            .filter(|l| l.changed)
            .map(|l| l.text.as_str())
            .collect::<Vec<_>>(),
        ["dry_run = false"]
    );
}

#[test]
fn test_a_config_the_daemon_would_reject_is_never_offered() {
    let mut edited = Config::default();
    edited.whitelist.devices.push(usb("zzzz", "0002", 1));
    let out = build(&Config::default(), &edited);
    let error = out.error.expect("the loader rejects a non-hex vendor id");
    assert!(error.contains("vendor_id"), "{error}");
    assert!(out.toml.is_empty(), "nothing is offered to copy");
    assert!(out.nix.is_empty());
}

#[test]
fn test_a_clamped_value_is_shown_the_way_the_daemon_would_apply_it() {
    let mut edited = Config::default();
    edited.general.sleep_ms = 20;
    edited.lid.grace_secs = 900;
    let out = build(&Config::default(), &edited);
    assert_eq!(
        out.clamped,
        [
            "general.sleep_ms: 20 becomes 50".to_string(),
            "lid.grace_secs: 900 becomes 300".to_string()
        ]
    );
    assert!(out.toml.contains("sleep_ms = 50"), "{}", out.toml);
    assert!(out.toml.contains("grace_secs = 300"));
    assert!(!out.toml.contains("sleep_ms = 20"));
    assert_eq!(
        clamped_note(&out.clamped).as_deref(),
        Some(
            "The daemon clamps, and the output already shows it clamped: \
             general.sleep_ms: 20 becomes 50; lid.grace_secs: 900 becomes 300."
        )
    );
    assert_eq!(clamped_note(&[]), None);
}

#[test]
fn the_pane_is_made_from_what_came_back() {
    let edited = Config::default();
    let mut checked = edited.copy();
    checked.lid.grace_secs = 7;
    let out = compose(&edited, Ok(("a = 2".to_string(), checked)), "a = 1");
    assert_eq!(out.toml, "a = 2");
    assert!(out.nix.contains("grace_secs = 7;"), "{}", out.nix);
    assert_eq!(out.clamped, ["lid.grace_secs: 0 becomes 7"]);
    assert!(out.loaded_lines[0].changed && out.emitted_lines[0].changed);

    let out = compose(&edited, Err("no".to_string()), "a = 1");
    assert_eq!(out.error.as_deref(), Some("no"));
    assert!(out.toml.is_empty() && out.loaded_lines.is_empty());

    let mut huge = edited.copy();
    huge.power.grace_secs = u64::MAX;
    let out = compose(&edited, Ok((String::new(), huge)), "");
    assert_eq!(
        out.error.as_deref(),
        Some("failed to emit config as Nix: u64 value was too large")
    );
}

#[test]
fn test_an_unreadable_config_opens_on_defaults_and_says_so() {
    let loaded = load("/nowhere.toml", Err("no such file".to_string()), "");
    assert_eq!(loaded.config, Config::default());
    assert!(
        loaded.origin.starts_with("Cannot read"),
        "{}",
        loaded.origin
    );

    // An older daemon reports no path at all.
    let none = load("", Err(String::new()), "");
    assert_eq!(none.config, Config::default());
    assert!(none.origin.contains("defaults"));

    let loaded = load(
        "/bad.toml",
        Ok("[general]\nsleep_ms = \"soon\"\n".to_string()),
        "invalid type: string \"soon\", expected u64",
    );
    assert!(loaded.origin.contains("expected u64"), "{}", loaded.origin);
    assert_eq!(loaded.config, Config::default());
    assert!(loaded.origin.contains("did not parse"), "{}", loaded.origin);
}

#[test]
fn test_a_config_that_reads_is_the_one_the_editor_opens_on() {
    let loaded = load(
        "/etc/plugkill.toml",
        Ok(
            "[general]\nwatch_power = true\n\n[[whitelist.devices]]\n\
             vendor_id = \"1d6b\"\nproduct_id = \"0002\"\n"
                .to_string(),
        ),
        "",
    );
    assert!(loaded.config.general.watch_power);
    assert_eq!(
        list_entries(&loaded.config, ListKind::Usb),
        vec![("1d6b:0002".to_string(), "1d6b:0002".to_string())]
    );
    assert!(loaded.origin.contains("the daemon is running"));
}

#[test]
fn test_the_read_only_section_names_what_root_edits() {
    let mut c = Config::default();
    let text = readonly_text(&c);
    assert!(text.contains("none set"), "{text}");
    assert!(text.contains("Files shredded: none"));

    c.commands.kill_commands = vec![vec!["/sbin/poweroff".into(), "-f".into()]];
    c.destruction.files_to_remove = vec!["/root/secret".into()];
    let text = readonly_text(&c);
    assert!(text.contains("/sbin/poweroff -f"), "{text}");
    assert!(text.contains("Files shredded: /root/secret"));
}

#[test]
fn what_was_not_read_is_not_stated() {
    let loaded = open("/x", ReadFile::Unreadable("no".to_string()));
    assert_eq!(readonly_section(&loaded), UNREAD_READONLY);
    assert_eq!(pane_text("a = 1\n", true), "a = 1\n");
    assert_eq!(pane_text("a = 1\n", false), format!("{UNREAD_PREFIX}a = 1\n"));
    assert_eq!(pane_text("", false), "");
}

// ---- rules of a config ---------------------------------------------------

#[test]
fn a_config_keeps_the_rules_or_says_which_it_breaks() {
    let with = |f: &dyn Fn(&mut Config)| {
        let mut c = Config::default();
        f(&mut c);
        c.check()
    };
    assert!(with(&|_| {}).is_ok());
    let bad = |r: Result<(), String>, what: &str| assert!(r.unwrap_err().contains(what));
    bad(
        with(&|c| c.general.log_file = "plugkill.log".into()),
        "general.log_file",
    );
    bad(
        with(&|c| c.destruction.files_to_remove = vec!["/a/../b".into()]),
        "files_to_remove",
    );
    bad(
        with(&|c| c.destruction.folders_to_remove = vec!["b".into()]),
        "folders_to_remove",
    );
    bad(
        with(&|c| c.destruction.do_wipe_swap = true),
        "swap_device is required",
    );
    bad(
        with(&|c| c.destruction.swap_device = Some("sda2".into())),
        "destruction.swap_device",
    );
    bad(
        with(&|c| c.commands.kill_commands = vec![vec!["poweroff".into()]]),
        "kill_commands",
    );
    bad(
        with(&|c| c.commands.kill_commands = vec![vec![]]),
        "names no binary",
    );
    bad(
        with(&|c| c.whitelist.devices.push(usb("1d6b", "xyz", 1))),
        "product_id",
    );
    assert!(with(&|c| c.destruction.files_to_remove = vec!["/a/..b".into()]).is_ok());
}

// ---- form ----------------------------------------------------------------

#[test]
fn the_form_has_a_section_per_title() {
    let sections = build_sections();
    assert_eq!(sections.len(), SECTIONS.len());
    for (s, title) in sections.iter().zip(SECTIONS) {
        assert_eq!(s.title, title);
    }
    assert_eq!(
        sections[0].controls[0],
        Control::Number {
            label: "Poll interval, ms (default 250)".to_string(),
            max: MAX_SLEEP_MS,
            field: NumberField::SleepMs,
        }
    );
    assert_eq!(
        sections[8].controls[3],
        Control::Table {
            kind: ListKind::Display,
            placeholder: "eDP-1",
        }
    );
}

#[test]
fn a_control_edits_its_own_field() {
    let mut c = Config::default();
    let all = [
        SwitchField::DryRun,
        SwitchField::RequireAuth,
        SwitchField::WatchUsb,
        SwitchField::WatchThunderbolt,
        SwitchField::WatchSdCard,
        SwitchField::WatchPower,
        SwitchField::RequireLocked,
        SwitchField::WatchNetwork,
        SwitchField::WatchLid,
        SwitchField::WatchPci,
        SwitchField::WatchDisplay,
    ];
    for f in all {
        let before: Vec<bool> = all.iter().map(|g| g.get(&c)).collect();
        let v = !f.get(&c);
        f.set(&mut c, v);
        for (g, was) in all.iter().zip(before) {
            assert_eq!(g.get(&c), if *g == f { v } else { was });
        }
    }
    for f in [
        NumberField::SleepMs,
        NumberField::PowerGrace,
        NumberField::NetworkGrace,
        NumberField::LidGrace,
    ] {
        f.set(&mut c, 77);
        assert_eq!(f.get(&c), 77);
    }
    for f in [
        PolicyField::Power,
        PolicyField::Network,
        PolicyField::Lid,
        PolicyField::Pci,
        PolicyField::Display,
    ] {
        let last = f.options().len() - 1;
        f.set(&mut c, last);
        assert_eq!(f.get(&c), last);
        f.set(&mut c, 99);
        assert_eq!(f.get(&c), last, "no such choice");
    }
    set_log_file(&mut c, "/var/log/x");
    assert_eq!(c.general.log_file, "/var/log/x");
    assert!(c.commands.kill_commands.is_empty());
}

// ---- panel ---------------------------------------------------------------

#[test]
fn an_edited_config_is_not_thrown_away_by_a_status() {
    let mut e = Editor::new();
    assert!(!e.read);
    assert_eq!(e.require_auth(), None);
    assert_eq!(e.heed_status("/etc/a.toml"), Step::Open);
    e.open_on(open("/etc/a.toml", ReadFile::Parsed(Config::default())));
    assert_eq!(e.require_auth(), Some(false));
    assert_eq!(e.heed_status("/etc/a.toml"), Step::Nothing);
    e.add_whitelist_entry("usb:1d6b:0002", 1).unwrap();
    assert_eq!(e.whitelist_selectors(), ["usb:1d6b:0002"]);
    assert_eq!(
        e.heed_status("/etc/b.toml"),
        Step::Keep(
            "The daemon is running /etc/b.toml. Your edits are kept, so this window is \
             showing them and not that file."
                .to_string()
        )
    );
    assert!(e.add_whitelist_entry("lid:closed", 1).is_err());
}

#[test]
fn an_expansion_adds_every_model_behind_the_port() {
    let row = |path: &str, id: &str| {
        (
            path.to_string(),
            Row {
                text: id.to_string(),
                selector: Some(format!("usb:{id}")),
                name: None,
                action: Action::Add,
            },
        )
    };
    let nodes = tree(&vec![
        row("2-3", "05e3:0610"),
        row("2-3.1", "046d:c52b"),
        row("2-3.2", "046d:c52b"),
    ]);
    let mut e = Editor::new();
    assert_eq!(e.add_expansion(&expansion(&nodes[0])), None);
    assert_eq!(
        e.config.whitelist.devices,
        vec![usb("05e3", "0610", 1), usb("046d", "c52b", 2)]
    );
    assert!(e.add_whitelist_entries("display:SAM:772d", 1).is_err());
}

#[test]
fn panes_show_what_they_were_filled_with() {
    let lines = [
        Line {
            text: "a = 1".to_string(),
            changed: true,
        },
        Line {
            text: "b = 2".to_string(),
            changed: false,
        },
    ];
    assert_eq!(raw_text(&lines), "a = 1\nb = 2");
    let shown = diff_markup(&lines);
    assert_eq!(strip(&shown), "* a = 1\n  b = 2\n");
    assert_eq!(with_head(&lines, true).len(), 2);
    let headed = with_head(&lines, false);
    assert_eq!(headed.len(), 2 + UNREAD_PREFIX.lines().count());
    assert!(!headed[0].changed);
    let mut known = AttachedMap::new();
    known.insert("usb:1d6b:0002", "Hub");
    assert_eq!(
        row_label(ListKind::Usb, "1d6b:0002", "1d6b:0002  x2", Some(&known)),
        "1d6b:0002  x2  Hub"
    );
    assert_eq!(
        row_label(ListKind::Usb, "1d6b:0002", "1d6b:0002", None),
        "1d6b:0002"
    );
    assert_eq!(
        row_label(ListKind::Network, "eth0", "eth0", Some(&known)),
        "eth0"
    );
}

#[test]
fn markup_keeps_the_document() {
    let document = "[a]\nb = \"<x> & y\" # z\n\nc = 1\n";
    let mut plain = String::new();
    let mut inside = false;
    for c in markup(Lang::Toml, document).chars() {
        match c {
            '<' => inside = true,
            '>' => inside = false,
            c if !inside => plain.push(c),
            _ => {}
        }
    }
    let want: Vec<String> = document.lines().map(markup_escape).collect();
    assert_eq!(plain, want.join("\n"));
}
