use quickbar::config::{
    config_path_from, load, load_from, Align, Bar, Border, Config, Loaded, Module, Notifications,
    Rgba,
};
use quickbar::geometry::PIXEL;
use quickbar::names::Names;
use toml::{Table, Value};

fn unknown(table: &Table, known: &[&str]) -> Names {
    Names::of(table.keys().filter(|key| !known.contains(&key.as_str())).cloned().collect())
}

fn number(table: &Table, key: &str) -> Option<i64> {
    table.get(key).and_then(Value::as_integer)
}

fn text(table: &Table, key: &str) -> Option<String> {
    table.get(key).and_then(Value::as_str).map(str::to_string)
}

fn color(table: &Table, key: &str, default: Rgba) -> Result<Rgba, String> {
    match text(table, key) {
        Some(text) => Rgba::parse(&text),
        None => Ok(default),
    }
}

fn module(table: &Table) -> Module {
    Module {
        name: text(table, "name").unwrap_or_default(),
        command: text(table, "exec").unwrap_or_default(),
        interval: number(table, "interval").map(|seconds| seconds as u64),
        stream: table.get("stream").and_then(Value::as_bool).unwrap_or(false),
        align: match text(table, "align").as_deref() {
            Some("right") => Align::Right,
            Some("center") => Align::Center,
            _ => Align::default(),
        },
        color: None,
        unknown: unknown(table, &["name", "exec", "interval", "stream", "align"]),
    }
}

/// Read the fields that the tests below set.
fn read(text: &str) -> Result<Config, String> {
    let file: Table = toml::from_str(text).map_err(|error| error.to_string())?;
    let mut config = Config::default();
    config.unknown = unknown(&file, &["border", "bar", "notifications"]);
    if let Some(table) = file.get("border").and_then(Value::as_table) {
        config.border = Border {
            width: number(table, "width").map_or(6, |width| width as u32),
            color: color(table, "color", Border::default().color)?,
            unknown: unknown(table, &["width", "color"]),
        };
    }
    if let Some(table) = file.get("bar").and_then(Value::as_table) {
        let modules = table.get("module").and_then(Value::as_array);
        config.bar = Bar {
            font_size: number(table, "font_size").map_or(13, |size| size) * PIXEL,
            foreground: color(table, "foreground", Bar::default().foreground)?,
            module: modules
                .into_iter()
                .flatten()
                .filter_map(Value::as_table)
                .map(module)
                .collect(),
            unknown: unknown(table, &["font_size", "foreground", "module"]),
            ..Bar::default()
        };
    }
    if let Some(table) = file.get("notifications").and_then(Value::as_table) {
        config.notifications = Notifications {
            unknown: unknown(table, &[]),
            ..Notifications::default()
        };
    }
    Ok(config)
}

fn parse(text: &str) -> Result<Config, String> {
    let config = read(text)?;
    config.validate()?;
    Ok(config)
}

#[test]
fn empty_config_uses_defaults() {
    let config = parse("").unwrap();
    assert_eq!(config.border.width, 6);
    assert_eq!(config.border.color, Rgba::new(0x3b, 0x42, 0x52, 0xff));
    assert_eq!(config.bar.height, 28);
    assert_eq!(config.bar.font_size, 13 * PIXEL);
    assert_eq!(config.bar.font, None);
    assert_eq!(config.bar.hover_delay_ms, 150);
    assert_eq!(config.bar.hide_delay_ms, 400);
    assert_eq!(config.bar.content_max_height, 400);
    assert!(config.bar.module.is_empty());
    assert_eq!(config.notifications.max_visible, 3);
    assert_eq!(config.notifications.timeout_ms, 5000);
    assert_eq!(config.notifications.urgent_color, Rgba::new(0xbf, 0x61, 0x6a, 0xff));
}

#[test]
fn partial_override_keeps_other_defaults() {
    let config = parse("[border]\nwidth = 10\n").unwrap();
    assert_eq!(config.border.width, 10);
    assert_eq!(config.border.color, Border::default().color);
    assert_eq!(config.bar.height, 28);
}

#[test]
fn colors_parse_with_and_without_alpha() {
    assert_eq!(Rgba::parse("#3b4252").unwrap(), Rgba::new(0x3b, 0x42, 0x52, 0xff));
    assert_eq!(Rgba::parse("#3b4252ff").unwrap(), Rgba::new(0x3b, 0x42, 0x52, 0xff));
    assert_eq!(Rgba::parse("#1e1e2eee").unwrap(), Rgba::new(0x1e, 0x1e, 0x2e, 0xee));
    assert_eq!(Rgba::parse("#00000000").unwrap(), Rgba::new(0, 0, 0, 0));
}

#[test]
fn invalid_colors_are_rejected() {
    for bad in ["red", "#xyz", "#12345", "#1234567", "3b4252"] {
        let error = Rgba::parse(bad).unwrap_err();
        assert!(
            error.contains("expected a `#rrggbb`"),
            "unexpected message for {bad}: {error}"
        );
    }
}

#[test]
fn colours_of_wide_characters_are_rejected() {
    for bad in ["", "#", "#é1234", "#1é234", "#ééé", "#éééééé"] {
        assert_eq!(
            Rgba::parse(bad),
            Err(format!("`{bad}`: expected a `#rrggbb` or `#rrggbbaa` color"))
        );
    }
}

#[test]
fn a_sign_is_no_digit() {
    for bad in ["#+1+2+3", "#+1+2+3+4", "#0102-3", "#01 203"] {
        assert!(Rgba::parse(bad).is_err(), "{bad}");
    }
}

#[test]
fn colours_may_be_written_in_capitals() {
    assert_eq!(Rgba::parse("#ABCDEF").unwrap(), Rgba::new(0xab, 0xcd, 0xef, 0xff));
}

#[test]
fn invalid_color_reports_the_offending_field() {
    let error = parse("[border]\ncolor = \"red\"\n").unwrap_err();
    assert!(error.contains("red"), "message should quote the value: {error}");
}

#[test]
fn zero_font_size_is_rejected() {
    let error = parse("[bar]\nfont_size = 0\n").unwrap_err();
    assert!(error.contains("bar.font_size"), "unexpected message: {error}");
}

#[test]
fn module_needs_interval_or_stream() {
    let error = parse("[[bar.module]]\nname = \"clock\"\nexec = \"date\"\n").unwrap_err();
    assert!(error.contains("interval"), "unexpected message: {error}");

    assert!(parse("[[bar.module]]\nname = \"clock\"\nexec = \"date\"\ninterval = 1\n").is_ok());
    assert!(parse("[[bar.module]]\nname = \"clock\"\nexec = \"date\"\nstream = true\n").is_ok());
}

#[test]
fn module_zero_interval_is_rejected() {
    let error = parse("[[bar.module]]\nname = \"c\"\nexec = \"date\"\ninterval = 0\n").unwrap_err();
    assert!(error.contains("must be greater than 0"), "unexpected message: {error}");
}

#[test]
fn every_fault_of_a_module_is_named() {
    let good = "[[bar.module]]\nname = \"a\"\nexec = \"date\"\ninterval = 1\n";
    let faults = [
        ("exec = \"date\"\ninterval = 1\n", "bar.module[1].name: must not be empty"),
        ("name = \"b\"\ninterval = 1\n", "bar.module[1].exec: must not be empty"),
        (
            "name = \"b\"\nexec = \"date\"\n",
            "bar.module[1] (b): needs either `interval` or `stream = true`",
        ),
        (
            "name = \"b\"\nexec = \"date\"\ninterval = 0\n",
            "bar.module[1].interval: must be greater than 0",
        ),
    ];
    for (fields, message) in faults {
        let error = parse(&format!("{good}[[bar.module]]\n{fields}")).unwrap_err();
        assert_eq!(error, message);
    }
    let both = format!("{good}[[bar.module]]\n[[bar.module]]\nname = \"c\"\n");
    assert_eq!(parse(&both).unwrap_err(), "bar.module[1].name: must not be empty");
    assert_eq!(
        parse("[bar]\nfont_size = -1\n").unwrap_err(),
        "bar.font_size: must be greater than 0"
    );
}

#[test]
fn module_defaults_and_alignment() {
    let config = parse(
        "[bar]\nforeground = \"#aabbcc\"\n\n[[bar.module]]\nname = \"clock\"\nexec = \"date\"\ninterval = 1\nalign = \"right\"\n",
    )
    .unwrap();
    let module = &config.bar.module[0];
    assert_eq!(module.align, Align::Right);
    assert_eq!(module.color, None);
    assert!(!module.stream);
}

#[test]
fn unknown_fields_warn_but_load() {
    let config = parse("[border]\nweight = 3\n\n[notifications]\npanels = 2\n").unwrap();
    let warnings = config.warnings();
    assert_eq!(config.border.width, 6);
    assert!(warnings.iter().any(|w| w.contains("border.weight")), "{warnings:?}");
    assert!(
        warnings.iter().any(|w| w.contains("notifications.panels")),
        "{warnings:?}"
    );
}

#[test]
fn unknown_module_fields_warn_too() {
    let config =
        parse("[[bar.module]]\nname = \"c\"\nexec = \"date\"\ninterval = 1\ntooltip = \"x\"\n")
            .unwrap();
    assert_eq!(config.warnings(), vec!["ignoring unknown config field `bar.module[0].tooltip`"]);
}

#[test]
fn warnings_come_in_the_order_of_the_sections() {
    let config = read(
        "zone = 1\n[border]\nb = 1\na = 1\n[bar]\nc = 1\n[[bar.module]]\nd = 1\n[[bar.module]]\ne = 1\n[notifications]\nf = 1\n",
    )
    .unwrap();
    let fields: Vec<String> = [
        "zone",
        "border.a",
        "border.b",
        "bar.c",
        "notifications.f",
        "bar.module[0].d",
        "bar.module[1].e",
    ]
    .iter()
    .map(|field| format!("ignoring unknown config field `{field}`"))
    .collect();
    assert_eq!(config.warnings(), fields);
    assert!(Config::default().warnings().is_empty());
}

#[test]
fn names_are_kept_in_order_and_once() {
    let given = ["b", "a", "", "ab", "é", "b", "Z", "a"];
    let names = Names::of(given.iter().map(|name| name.to_string()).collect());
    assert_eq!(names.as_slice(), ["", "Z", "a", "ab", "b", "é"]);
    assert_eq!(names.clone().as_slice(), names.as_slice());
    assert!(Names::default().as_slice().is_empty());

    let mut config = Config::default();
    config.border.unknown = names;
    let warnings = config.warnings();
    assert_eq!(warnings.len(), 6);
    assert_eq!(warnings[3], "ignoring unknown config field `border.ab`");
}

fn path(config_home: Option<&str>, home: Option<&str>) -> Option<String> {
    let bytes = |value: &str| value.as_bytes().to_vec();
    config_path_from(config_home.map(bytes), home.map(bytes))
        .map(|path| String::from_utf8(path).unwrap())
}

#[test]
fn config_path_prefers_xdg_config_home() {
    let from_xdg = path(Some("/xdg"), Some("/home/u"));
    assert_eq!(from_xdg.as_deref(), Some("/xdg/quickbar/config.toml"));

    let from_home = path(Some(""), Some("/home/u"));
    assert_eq!(from_home.as_deref(), Some("/home/u/.config/quickbar/config.toml"));

    assert_eq!(path(None, None), None);
}

#[test]
fn the_home_directory_is_used_without_a_config_home() {
    assert_eq!(
        path(None, Some("/home/u/")).as_deref(),
        Some("/home/u/.config/quickbar/config.toml")
    );
    assert_eq!(path(None, Some("")), None);
    assert_eq!(path(Some(""), None), None);
}

#[test]
fn missing_file_yields_defaults() {
    let (config, warnings) = load_from("quickbar-absent.toml", Loaded::Missing).unwrap();
    assert_eq!(config.border.width, 6);
    assert!(warnings.is_empty());
}

#[test]
fn loaded_file_reports_parse_errors_with_the_path() {
    let loaded = match read("[border]\ncolor = \"nope\"\n") {
        Ok(config) => Loaded::Parsed(config),
        Err(error) => Loaded::Malformed(error),
    };
    let error = load_from("quickbar-bad-1.toml", loaded).unwrap_err();
    assert!(error.contains("quickbar-bad-"), "should name the file: {error}");
    assert_eq!(
        error,
        "quickbar-bad-1.toml: `nope`: expected a `#rrggbb` or `#rrggbbaa` color"
    );
}

#[test]
fn an_unusable_file_is_reported_with_the_path() {
    let unreadable = Loaded::Unreadable("permission denied".to_string());
    assert_eq!(load_from("c.toml", unreadable).unwrap_err(), "c.toml: permission denied");

    let mut config = Config::default();
    config.bar.font_size = 0;
    assert_eq!(
        load_from("c.toml", Loaded::Parsed(config)).unwrap_err(),
        "c.toml: bar.font_size: must be greater than 0"
    );
}

#[test]
fn a_file_is_loaded_with_its_warnings() {
    let config = read("[border]\nwidth = 9\nweight = 3\n").unwrap();
    let (config, warnings) = load(Some(("c.toml", Loaded::Parsed(config)))).unwrap();
    assert_eq!(config.border.width, 9);
    assert_eq!(warnings, ["ignoring unknown config field `border.weight`"]);

    let (config, warnings) = load(None).unwrap();
    assert_eq!(config.border.width, 6);
    assert!(warnings.is_empty());
    assert!(load(Some(("c.toml", Loaded::Malformed("no".to_string())))).is_err());
}
