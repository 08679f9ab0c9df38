//! Configuration: colours, defaults, validation, warnings, and where the file is.

use vstd::prelude::*;
use vstd::string::*;

use crate::geometry::PIXEL;
use crate::names::{ascending, nothing_comes_before_itself, Names};
use crate::text::{decimal, decimal_text};

verus! {

/// Path of the config file relative to the config home (e.g. `~/.config`), as the
/// bytes of `quickbar/config.toml`.
pub const FILE_NAME: [u8; 20] = [
    113, 117, 105, 99, 107, 98, 97, 114, 47, 99, 111, 110, 102, 105, 103, 46, 116, 111, 109, 108,
];

/// The config home relative to the home directory, as the bytes of `.config`.
pub const CONFIG_DIR: [u8; 7] = [46, 99, 111, 110, 102, 105, 103];

/// An 8-bit-per-channel RGBA color.
#[derive(Debug, Clone, Copy, PartialEq, Eq, Structural)]
pub struct Rgba {
    pub r: u8,
    pub g: u8,
    pub b: u8,
    pub a: u8,
}

/// The value of one hexadecimal digit, in either case.
pub open spec fn hex_digit(c: char) -> Option<int> {
    if '0' <= c <= '9' {
        Some(c as int - '0' as int)
    } else if 'a' <= c <= 'f' {
        Some(c as int - 'a' as int + 10)
    } else if 'A' <= c <= 'F' {
        Some(c as int - 'A' as int + 10)
    } else {
        None
    }
}

/// The value of a two-character channel: two hexadecimal digits.
pub open spec fn hex_byte(high: char, low: char) -> Option<int> {
    match (hex_digit(high), hex_digit(low)) {
        (Some(h), Some(l)) => Some(16 * h + l),
        _ => None,
    }
}

/// The channel at position `at` of `text`.
pub open spec fn channel(text: Seq<char>, at: int) -> Option<int> {
    hex_byte(text[at], text[at + 1])
}

/// The colour `text` writes as `#rrggbb` or `#rrggbbaa`, if it writes one.
pub open spec fn parsed_color(text: Seq<char>) -> Option<Rgba> {
    if (text.len() == 7 || text.len() == 9) && text[0] == '#' && channel(text, 1) is Some
        && channel(text, 3) is Some && channel(text, 5) is Some && (text.len() == 9 ==> channel(
        text,
        7,
    ) is Some) {
        Some(
            Rgba {
                r: channel(text, 1)->0 as u8,
                g: channel(text, 3)->0 as u8,
                b: channel(text, 5)->0 as u8,
                a: if text.len() == 9 {
                    channel(text, 7)->0 as u8
                } else {
                    0xff
                },
            },
        )
    } else {
        None
    }
}

/// What is reported for a text that is not a colour.
pub open spec fn color_error(text: Seq<char>) -> Seq<char> {
    "`"@ + text + "`: expected a `#rrggbb` or `#rrggbbaa` color"@
}

fn hex_digit_value(c: char) -> (value: Option<u8>)
    ensures
        value is Some <==> hex_digit(c) is Some,
        value is Some ==> value->0 == hex_digit(c)->0 && value->0 < 16,
{
    let u: u32 = c as u32;
    if '0' <= c && c <= '9' {
        Some((u - 48) as u8)
    } else if 'a' <= c && c <= 'f' {
        Some((u - 97 + 10) as u8)
    } else if 'A' <= c && c <= 'F' {
        Some((u - 65 + 10) as u8)
    } else {
        None
    }
}

fn channel_value(text: &str, at: usize) -> (value: Option<u8>)
    requires
        at <= 7,
        at + 1 < text@.len(),
    ensures
        value is Some <==> channel(text@, at as int) is Some,
        value is Some ==> value->0 == channel(text@, at as int)->0,
        channel(text@, at as int) is Some ==> 0 <= channel(text@, at as int)->0 <= 255,
{
    let high = text.get_char(at);
    let low = text.get_char(at + 1);
    match (hex_digit_value(high), hex_digit_value(low)) {
        (Some(h), Some(l)) => Some(16 * h + l),
        _ => None,
    }
}

impl Rgba {
    pub fn new(r: u8, g: u8, b: u8, a: u8) -> (color: Self)
        ensures
            color == (Rgba { r, g, b, a }),
    {
        Rgba { r, g, b, a }
    }

    /// Parse `#rrggbb` or `#rrggbbaa`.
    pub fn parse(text: &str) -> (parsed: Result<Self, String>)
        ensures
            parsed is Ok <==> parsed_color(text@) is Some,
            parsed matches Ok(color) ==> Some(color) == parsed_color(text@),
            parsed matches Err(message) ==> message@ == color_error(text@),
    {
        let color = Self::read(text);
        match color {
            Some(color) => Ok(color),
            None => {
                let mut message = "`".to_owned();
                message.append(text);
                message.append("`: expected a `#rrggbb` or `#rrggbbaa` color");
                Err(message)
            },
        }
    }

    fn read(text: &str) -> (color: Option<Self>)
        ensures
            color == parsed_color(text@),
    {
        let length: usize = text.unicode_len();
        if length != 7 && length != 9 {
            return None;
        }
        if text.get_char(0) != '#' {
            return None;
        }
        let (r, g, b) = match (
            channel_value(text, 1),
            channel_value(text, 3),
            channel_value(text, 5),
        ) {
            (Some(r), Some(g), Some(b)) => (r, g, b),
            _ => {
                return None;
            },
        };
        if length == 7 {
            return Some(Rgba { r, g, b, a: 0xff });
        }
        match channel_value(text, 7) {
            Some(a) => Some(Rgba { r, g, b, a }),
            None => None,
        }
    }
}

/// Where a status-bar module's content is anchored.
#[derive(Debug, Clone, Copy, PartialEq, Eq, Structural)]
pub enum Align {
    Left,
    Center,
    Right,
}

impl Default for Align {
    fn default() -> (align: Self)
        ensures
            align == Align::Left,
    {
        Align::Left
    }
}

/// A status-bar module backed by an external command.
#[derive(Debug, Clone)]
pub struct Module {
    pub name: String,
    /// The shell command line that produces the content (`exec` in the file).
    pub command: String,
    /// Re-run the command every N seconds and use its last line of output.
    pub interval: Option<u64>,
    /// Keep the command running and update on every line it prints.
    pub stream: bool,
    pub align: Align,
    /// Defaults to `bar.foreground` when absent.
    pub color: Option<Rgba>,
    /// Fields of the file that are not part of a module.
    pub unknown: Names,
}

impl Module {
    /// True of the module that sets nothing.
    pub open spec fn is_default(self) -> bool {
        &&& self.name@ == Seq::<char>::empty()
        &&& self.command@ == Seq::<char>::empty()
        &&& self.interval is None
        &&& !self.stream
        &&& self.align == Align::Left
        &&& self.color is None
        &&& self.unknown@ == Seq::<Seq<char>>::empty()
    }
}

impl Default for Module {
    fn default() -> (module: Self)
        ensures
            module.is_default(),
    {
        Module {
            name: String::new(),
            command: String::new(),
            interval: None,
            stream: false,
            align: Align::Left,
            color: None,
            unknown: Names::new(),
        }
    }
}

#[derive(Debug, Clone)]
pub struct Border {
    /// In pixels.
    pub width: u32,
    pub color: Rgba,
    pub unknown: Names,
}

impl Border {
    pub open spec fn is_default(self) -> bool {
        &&& self.width == 6
        &&& self.color == Rgba { r: 0x3b, g: 0x42, b: 0x52, a: 0xff }
        &&& self.unknown@ == Seq::<Seq<char>>::empty()
    }
}

impl Default for Border {
    fn default() -> (border: Self)
        ensures
            border.is_default(),
    {
        Border { width: 6, color: Rgba::new(0x3b, 0x42, 0x52, 0xff), unknown: Names::new() }
    }
}

#[derive(Debug, Clone)]
pub struct Bar {
    /// In pixels.
    pub height: u32,
    pub background: Rgba,
    /// Font family name; `None` selects the system monospace family.
    pub font: Option<String>,
    /// A length, not a number of pixels.
    pub font_size: i64,
    pub foreground: Rgba,
    pub hover_delay_ms: u64,
    pub hide_delay_ms: u64,
    /// Height of the bottom edge surface above the border, in pixels.
    pub content_max_height: u32,
    pub module: Vec<Module>,
    pub unknown: Names,
}

impl Bar {
    pub open spec fn is_default(self) -> bool {
        &&& self.height == 28
        &&& self.background == Rgba { r: 0x1e, g: 0x1e, b: 0x2e, a: 0xee }
        &&& self.font is None
        &&& self.font_size == 13 * PIXEL
        &&& self.foreground == Rgba { r: 0xd8, g: 0xde, b: 0xe9, a: 0xff }
        &&& self.hover_delay_ms == 150
        &&& self.hide_delay_ms == 400
        &&& self.content_max_height == 400
        &&& self.module@ == Seq::<Module>::empty()
        &&& self.unknown@ == Seq::<Seq<char>>::empty()
    }
}

impl Default for Bar {
    fn default() -> (bar: Self)
        ensures
            bar.is_default(),
    {
        Bar {
            height: 28,
            background: Rgba::new(0x1e, 0x1e, 0x2e, 0xee),
            font: None,
            font_size: 13 * PIXEL,
            foreground: Rgba::new(0xd8, 0xde, 0xe9, 0xff),
            hover_delay_ms: 150,
            hide_delay_ms: 400,
            content_max_height: 400,
            module: Vec::new(),
            unknown: Names::new(),
        }
    }
}

#[derive(Debug, Clone)]
pub struct Notifications {
    pub max_visible: usize,
    pub timeout_ms: u64,
    pub background: Rgba,
    pub text_color: Rgba,
    pub urgent_color: Rgba,
    pub unknown: Names,
}

impl Notifications {
    pub open spec fn is_default(self) -> bool {
        &&& self.max_visible == 3
        &&& self.timeout_ms == 5000
        &&& self.background == Rgba { r: 0x1e, g: 0x1e, b: 0x2e, a: 0xee }
        &&& self.text_color == Rgba { r: 0xd8, g: 0xde, b: 0xe9, a: 0xff }
        &&& self.urgent_color == Rgba { r: 0xbf, g: 0x61, b: 0x6a, a: 0xff }
        &&& self.unknown@ == Seq::<Seq<char>>::empty()
    }
}

impl Default for Notifications {
    fn default() -> (notifications: Self)
        ensures
            notifications.is_default(),
    {
        Notifications {
            max_visible: 3,
            timeout_ms: 5000,
            background: Rgba::new(0x1e, 0x1e, 0x2e, 0xee),
            text_color: Rgba::new(0xd8, 0xde, 0xe9, 0xff),
            urgent_color: Rgba::new(0xbf, 0x61, 0x6a, 0xff),
            unknown: Names::new(),
        }
    }
}

#[derive(Debug, Clone)]
pub struct Config {
    pub border: Border,
    pub bar: Bar,
    pub notifications: Notifications,
    pub unknown: Names,
}

impl Default for Config {
    fn default() -> (config: Self)
        ensures
            config.is_default(),
    {
        Config {
            border: Border::default(),
            bar: Bar::default(),
            notifications: Notifications::default(),
            unknown: Names::new(),
        }
    }
}

/// The characters of each text.
pub open spec fn texts(strings: Seq<String>) -> Seq<Seq<char>> {
    Seq::new(strings.len(), |i: int| strings[i]@)
}

/// How the field `field` of the module at `index` is referred to in a message.
pub open spec fn module_field(index: nat, field: Seq<char>) -> Seq<char> {
    "bar.module["@ + decimal(index) + "]."@ + field
}

/// Why the module at `index` is unusable, if it is.
pub open spec fn module_fault(module: Module, index: nat) -> Option<Seq<char>> {
    if module.name@.len() == 0 {
        Some(module_field(index, "name"@) + ": must not be empty"@)
    } else if module.command@.len() == 0 {
        Some(module_field(index, "exec"@) + ": must not be empty"@)
    } else if module.interval is None && !module.stream {
        Some(
            "bar.module["@ + decimal(index) + "] ("@ + module.name@
                + "): needs either `interval` or `stream = true`"@,
        )
    } else if module.interval == Some(0u64) {
        Some(module_field(index, "interval"@) + ": must be greater than 0"@)
    } else {
        None
    }
}

/// The fault of the first unusable module from `from` on, if there is one.
pub open spec fn first_fault(modules: Seq<Module>, from: nat) -> Option<Seq<char>>
    decreases modules.len() - from,
{
    if from >= modules.len() {
        None
    } else if module_fault(modules[from as int], from) is Some {
        module_fault(modules[from as int], from)
    } else {
        first_fault(modules, from + 1)
    }
}

/// The warning for a field that is not part of the config.
pub open spec fn unknown_warning(prefix: Seq<char>, key: Seq<char>) -> Seq<char> {
    "ignoring unknown config field `"@ + prefix + key + "`"@
}

/// The warnings for one section's unknown fields.
pub open spec fn section_warnings(prefix: Seq<char>, unknown: Seq<Seq<char>>) -> Seq<Seq<char>> {
    Seq::new(unknown.len(), |i: int| unknown_warning(prefix, unknown[i]))
}

/// The warnings for the unknown fields of the first `count` modules.
pub open spec fn module_warnings(modules: Seq<Module>, count: nat) -> Seq<Seq<char>>
    decreases count,
{
    if count == 0 {
        Seq::empty()
    } else {
        module_warnings(modules, (count - 1) as nat) + section_warnings(
            module_field((count - 1) as nat, Seq::empty()),
            modules[count - 1].unknown@,
        )
    }
}

impl Config {
    /// True of the configuration in which every field has its default.
    pub open spec fn is_default(self) -> bool {
        &&& self.border.is_default()
        &&& self.bar.is_default()
        &&& self.notifications.is_default()
        &&& self.unknown@ == Seq::<Seq<char>>::empty()
    }

    /// Why the configuration is unusable, if it is.
    pub open spec fn fault(self) -> Option<Seq<char>> {
        if self.bar.font_size <= 0 {
            Some("bar.font_size: must be greater than 0"@)
        } else {
            first_fault(self.bar.module@, 0)
        }
    }

    /// True when the unknown fields of each table are in order, and none is there
    /// twice.
    pub open spec fn names_ascend(self) -> bool {
        &&& ascending(self.unknown@)
        &&& ascending(self.border.unknown@)
        &&& ascending(self.bar.unknown@)
        &&& ascending(self.notifications.unknown@)
        &&& forall|i: int|
            0 <= i < self.bar.module@.len() ==> ascending((#[trigger] self.bar.module@[i]).unknown@)
    }

    /// Every warning, in the order of the sections.
    pub open spec fn all_warnings(self) -> Seq<Seq<char>> {
        section_warnings(""@, self.unknown@) + section_warnings("border."@, self.border.unknown@)
            + section_warnings("bar."@, self.bar.unknown@) + section_warnings(
            "notifications."@,
            self.notifications.unknown@,
        ) + module_warnings(self.bar.module@, self.bar.module@.len())
    }

    /// Reject configurations whose values are well-formed but unusable.
    pub fn validate(&self) -> (checked: Result<(), String>)
        ensures
            checked is Ok <==> self.fault() is None,
            checked matches Err(message) ==> Some(message@) == self.fault(),
    {
        if self.bar.font_size <= 0 {
            return Err("bar.font_size: must be greater than 0".to_owned());
        }
        let mut index: usize = 0;
        while index < self.bar.module.len()
            invariant
                0 <= index <= self.bar.module@.len(),
                self.bar.font_size > 0,
                first_fault(self.bar.module@, 0) == first_fault(self.bar.module@, index as nat),
            decreases self.bar.module.len() - index,
        {
            match check_module(&self.bar.module[index], index) {
                Some(message) => {
                    return Err(message);
                },
                None => {},
            }
            index = index + 1;
        }
        Ok(())
    }

    /// Fields that were present in the file but are not part of the config: one
    /// warning each, table by table, and in the order of their names within a table.
    pub fn warnings(&self) -> (warnings: Vec<String>)
        ensures
            texts(warnings@) == self.all_warnings(),
            self.names_ascend(),
    {
        let mut warnings: Vec<String> = Vec::new();
        collect_unknown(&mut warnings, "", &self.unknown);
        collect_unknown(&mut warnings, "border.", &self.border.unknown);
        collect_unknown(&mut warnings, "bar.", &self.bar.unknown);
        collect_unknown(&mut warnings, "notifications.", &self.notifications.unknown);
        let ghost sections = texts(warnings@);
        assert(sections =~= section_warnings(""@, self.unknown@) + section_warnings(
            "border."@,
            self.border.unknown@,
        ) + section_warnings("bar."@, self.bar.unknown@) + section_warnings(
            "notifications."@,
            self.notifications.unknown@,
        ));
        let mut index: usize = 0;
        assert(texts(warnings@) =~= sections + module_warnings(self.bar.module@, 0));
        while index < self.bar.module.len()
            invariant
                0 <= index <= self.bar.module@.len(),
                texts(warnings@) == sections + module_warnings(self.bar.module@, index as nat),
                forall|i: int|
                    0 <= i < index ==> ascending((#[trigger] self.bar.module@[i]).unknown@),
            decreases self.bar.module.len() - index,
        {
            let prefix = field_name(index, "");
            proof {
                reveal_strlit("");
                assert(""@ =~= Seq::<char>::empty());
            }
            collect_unknown(&mut warnings, prefix.as_str(), &self.bar.module[index].unknown);
            index = index + 1;
            assert(texts(warnings@) =~= sections + module_warnings(
                self.bar.module@,
                index as nat,
            ));
        }
        warnings
    }
}

fn field_name(index: usize, field: &str) -> (name: String)
    ensures
        name@ == module_field(index as nat, field@),
{
    let mut name = "bar.module[".to_owned();
    name.append(decimal_text(index).as_str());
    name.append("].");
    name.append(field);
    name
}

fn check_module(module: &Module, index: usize) -> (fault: Option<String>)
    ensures
        fault is Some <==> module_fault(*module, index as nat) is Some,
        fault matches Some(message) ==> Some(message@) == module_fault(*module, index as nat),
{
    if module.name.as_str().is_empty() {
        let mut message = field_name(index, "name");
        message.append(": must not be empty");
        return Some(message);
    }
    if module.command.as_str().is_empty() {
        let mut message = field_name(index, "exec");
        message.append(": must not be empty");
        return Some(message);
    }
    match module.interval {
        None => {
            if !module.stream {
                let mut message = "bar.module[".to_owned();
                message.append(decimal_text(index).as_str());
                message.append("] (");
                message.append(module.name.as_str());
                message.append("): needs either `interval` or `stream = true`");
                return Some(message);
            }
        },
        Some(seconds) => {
            if seconds == 0 {
                let mut message = field_name(index, "interval");
                message.append(": must be greater than 0");
                return Some(message);
            }
        },
    }
    None
}

fn collect_unknown(out: &mut Vec<String>, prefix: &str, unknown: &Names)
    ensures
        texts(final(out)@) == texts(old(out)@) + section_warnings(prefix@, unknown@),
        ascending(unknown@),
{
    let ghost held = texts(out@);
    let ghost lines = section_warnings(prefix@, unknown@);
    let names = unknown.as_slice();
    let mut index: usize = 0;
    assert(texts(out@) =~= held + lines.take(0));
    while index < names.len()
        invariant
            0 <= index <= names@.len(),
            texts(names@) == unknown@,
            lines == section_warnings(prefix@, unknown@),
            texts(out@) == held + lines.take(index as int),
        decreases names.len() - index,
    {
        let mut warning = "ignoring unknown config field `".to_owned();
        warning.append(prefix);
        warning.append(names[index].as_str());
        warning.append("`");
        let ghost earlier = texts(out@);
        assert(unknown@[index as int] == names@[index as int]@);
        out.push(warning);
        index = index + 1;
        assert(texts(out@) =~= earlier.push(warning@));
        assert(texts(out@) =~= held + lines.take(index as int));
    }
    assert(lines.take(index as int) =~= lines);
}

/// A path below another one: a slash comes between the two, unless there is one.
pub open spec fn joined(base: Seq<u8>, name: Seq<u8>) -> Seq<u8> {
    if base.len() > 0 && base.last() != 47 {
        base.push(47) + name
    } else {
        base + name
    }
}

/// True of a variable of the environment that is set to something.
pub open spec fn is_set(value: Option<Vec<u8>>) -> bool {
    value is Some && value->0@.len() > 0
}

/// Where the config file is, given `XDG_CONFIG_HOME` and `HOME`.
pub open spec fn config_file(config_home: Option<Vec<u8>>, home: Option<Vec<u8>>) -> Option<
    Seq<u8>,
> {
    if is_set(config_home) {
        Some(joined(config_home->0@, FILE_NAME@))
    } else if is_set(home) {
        Some(joined(joined(home->0@, CONFIG_DIR@), FILE_NAME@))
    } else {
        None
    }
}

fn append_bytes(path: &mut Vec<u8>, bytes: &[u8])
    ensures
        final(path)@ == old(path)@ + bytes@,
{
    let mut index: usize = 0;
    assert(path@ =~= old(path)@ + bytes@.take(0));
    while index < bytes.len()
        invariant
            0 <= index <= bytes@.len(),
            path@ == old(path)@ + bytes@.take(index as int),
        decreases bytes.len() - index,
    {
        path.push(bytes[index]);
        index = index + 1;
        assert(path@ =~= old(path)@ + bytes@.take(index as int));
    }
    assert(bytes@.take(index as int) =~= bytes@);
}

fn join(base: Vec<u8>, name: &[u8]) -> (path: Vec<u8>)
    ensures
        path@ == joined(base@, name@),
{
    let mut path = base;
    let length: usize = path.len();
    if length > 0 && path[length - 1] != 47 {
        path.push(47);
    }
    append_bytes(&mut path, name);
    path
}

/// The config path that the environment gives, or `None` when neither
/// `XDG_CONFIG_HOME` nor `HOME` is set. A variable set to nothing counts as unset.
pub fn config_path_from(config_home: Option<Vec<u8>>, home: Option<Vec<u8>>) -> (path: Option<
    Vec<u8>,
>)
    ensures
        path is Some <==> config_file(config_home, home) is Some,
        path matches Some(path) ==> Some(path@) == config_file(config_home, home),
{
    let base = match config_home {
        Some(base) => if base.len() > 0 {
            Some(base)
        } else {
            None
        },
        None => None,
    };
    match base {
        Some(base) => Some(join(base, &FILE_NAME)),
        None => match home {
            Some(home) => if home.len() > 0 {
                Some(join(join(home, &CONFIG_DIR), &FILE_NAME))
            } else {
                None
            },
            None => None,
        },
    }
}

/// What became of reading a config file.
#[derive(Debug, Clone)]
pub enum Loaded {
    /// There is no such file.
    Missing,
    /// The file is there but could not be read, for this reason.
    Unreadable(String),
    /// The file is not a config file, for this reason.
    Malformed(String),
    Parsed(Config),
}

/// A message about a file.
pub open spec fn about(path: Seq<char>, error: Seq<char>) -> Seq<char> {
    path + ": "@ + error
}

/// What is wrong with a config file, if anything is.
pub open spec fn load_error(path: Seq<char>, loaded: Loaded) -> Option<Seq<char>> {
    match loaded {
        Loaded::Missing => None,
        Loaded::Unreadable(error) => Some(about(path, error@)),
        Loaded::Malformed(error) => Some(about(path, error@)),
        Loaded::Parsed(config) => match config.fault() {
            Some(fault) => Some(about(path, fault)),
            None => None,
        },
    }
}

fn message_about(path: &str, error: &str) -> (message: String)
    ensures
        message@ == about(path@, error@),
{
    let mut message = path.to_owned();
    message.append(": ");
    message.append(error);
    message
}

/// The config that a file gives, and any non-fatal warnings, or what is wrong with
/// the file.
///
/// A missing file is not an error: every field falls back to its default.
pub fn load_from(path: &str, loaded: Loaded) -> (result: Result<(Config, Vec<String>), String>)
    ensures
        result is Ok <==> load_error(path@, loaded) is None,
        result matches Err(message) ==> Some(message@) == load_error(path@, loaded),
        result matches Ok((config, warnings)) ==> match loaded {
            Loaded::Parsed(parsed) => config == parsed && texts(warnings@)
                == parsed.all_warnings() && parsed.names_ascend(),
            _ => config.is_default() && warnings@ == Seq::<String>::empty(),
        },
{
    match loaded {
        Loaded::Missing => Ok((Config::default(), Vec::new())),
        Loaded::Unreadable(error) => Err(message_about(path, error.as_str())),
        Loaded::Malformed(error) => Err(message_about(path, error.as_str())),
        Loaded::Parsed(config) => match config.validate() {
            Ok(()) => {
                let warnings = config.warnings();
                Ok((config, warnings))
            },
            Err(error) => Err(message_about(path, error.as_str())),
        },
    }
}

/// What is wrong with the config file, where there is a place to look for one.
pub open spec fn found_error(found: Option<(&str, Loaded)>) -> Option<Seq<char>> {
    match found {
        Some((path, loaded)) => load_error(path@, loaded),
        None => None,
    }
}

/// The config, given where its file is and what became of reading it. Without a
/// place to look every field falls back to its default.
pub fn load(found: Option<(&str, Loaded)>) -> (result: Result<(Config, Vec<String>), String>)
    ensures
        result is Ok <==> found_error(found) is None,
        result matches Err(message) ==> Some(message@) == found_error(found),
        result matches Ok((config, warnings)) ==> match found {
            Some((_, Loaded::Parsed(parsed))) => config == parsed && texts(warnings@)
                == parsed.all_warnings() && parsed.names_ascend(),
            _ => config.is_default() && warnings@ == Seq::<String>::empty(),
        },
{
    match found {
        Some((path, loaded)) => load_from(path, loaded),
        None => Ok((Config::default(), Vec::new())),
    }
}

/// A list of modules has no fault exactly if none of them has one, and the fault
/// that is reported is the first module's that has one.
pub proof fn the_first_fault_is_reported(modules: Seq<Module>, from: nat)
    requires
        from <= modules.len(),
    ensures
        first_fault(modules, from) is None <==> forall|i: int|
            from <= i < modules.len() ==> module_fault(#[trigger] modules[i], i as nat) is None,
        first_fault(modules, from) matches Some(fault) ==> exists|i: int|
            from <= i < modules.len() && Some(fault) == module_fault(
                #[trigger] modules[i],
                i as nat,
            ) && forall|j: int|
                from <= j < i ==> module_fault(#[trigger] modules[j], j as nat) is None,
    decreases modules.len() - from,
{
    if from < modules.len() {
        the_first_fault_is_reported(modules, from + 1);
        if module_fault(modules[from as int], from) is None {
            if first_fault(modules, from + 1) is Some {
                let fault = first_fault(modules, from + 1)->0;
                let i = choose|i: int|
                    from + 1 <= i < modules.len() && Some(fault) == module_fault(
                        #[trigger] modules[i],
                        i as nat,
                    ) && forall|j: int|
                        from + 1 <= j < i ==> module_fault(#[trigger] modules[j], j as nat) is None;
                assert(Some(fault) == module_fault(modules[i], i as nat));
                assert forall|j: int| from <= j < i implies module_fault(
                    #[trigger] modules[j],
                    j as nat,
                ) is None by {}
            }
        } else {
            assert(Some(first_fault(modules, from)->0) == module_fault(
                modules[from as int],
                from,
            ));
        }
    }
}

/// True of a module that can be run.
pub open spec fn runnable(module: Module) -> bool {
    &&& module.name@.len() > 0
    &&& module.command@.len() > 0
    &&& module.interval is Some || module.stream
    &&& module.interval != Some(0u64)
}

/// A configuration is usable exactly if its font has a size and each of its
/// modules has a name, a command, and a way to be run that is not a zero interval.
pub proof fn exactly_usable_configurations_are_accepted(config: Config)
    ensures
        config.fault() is None <==> config.bar.font_size > 0 && forall|i: int|
            0 <= i < config.bar.module@.len() ==> runnable(#[trigger] config.bar.module@[i]),
{
    let modules = config.bar.module@;
    the_first_fault_is_reported(modules, 0);
    assert forall|i: int| 0 <= i < modules.len() implies (module_fault(
        #[trigger] modules[i],
        i as nat,
    ) is None <==> runnable(modules[i])) by {}
}

/// Every default is usable and gives no warning.
pub proof fn the_defaults_are_usable(config: Config)
    requires
        config.is_default(),
    ensures
        config.fault() is None,
        config.all_warnings() == Seq::<Seq<char>>::empty(),
{
    assert(config.all_warnings() =~= Seq::<Seq<char>>::empty());
}

proof fn lemma_module_warned(modules: Seq<Module>, count: nat, i: int, k: int)
    requires
        0 <= i < count <= modules.len(),
        0 <= k < modules[i].unknown@.len(),
    ensures
        module_warnings(modules, count).contains(
            unknown_warning(module_field(i as nat, Seq::empty()), modules[i].unknown@[k]),
        ),
    decreases count,
{
    let earlier = module_warnings(modules, (count - 1) as nat);
    let last = section_warnings(
        module_field((count - 1) as nat, Seq::empty()),
        modules[count - 1].unknown@,
    );
    let warning = unknown_warning(module_field(i as nat, Seq::empty()), modules[i].unknown@[k]);
    if i == count - 1 {
        assert(last[k] == warning);
        assert((earlier + last)[earlier.len() + k] == warning);
    } else {
        lemma_module_warned(modules, (count - 1) as nat, i, k);
        let at = choose|at: int| 0 <= at < earlier.len() && earlier[at] == warning;
        assert((earlier + last)[at] == warning);
    }
}

/// Every unknown field of a module is warned about, by the module's position.
pub proof fn unknown_module_fields_are_warned_about(config: Config, i: int, k: int)
    requires
        0 <= i < config.bar.module@.len(),
        0 <= k < config.bar.module@[i].unknown@.len(),
    ensures
        config.all_warnings().contains(
            unknown_warning(
                module_field(i as nat, Seq::empty()),
                config.bar.module@[i].unknown@[k],
            ),
        ),
{
    let modules = config.bar.module@;
    let warning = unknown_warning(module_field(i as nat, Seq::empty()), modules[i].unknown@[k]);
    lemma_module_warned(modules, modules.len(), i, k);
    let own = module_warnings(modules, modules.len());
    let at = choose|at: int| 0 <= at < own.len() && own[at] == warning;
    let before = config.all_warnings().len() - own.len();
    assert(config.all_warnings()[before + at] == warning);
}

/// Every unknown field outside the modules is warned about, under its section.
pub proof fn unknown_fields_are_warned_about(config: Config, k: int)
    ensures
        0 <= k < config.unknown@.len() ==> config.all_warnings().contains(
            unknown_warning(""@, config.unknown@[k]),
        ),
        0 <= k < config.border.unknown@.len() ==> config.all_warnings().contains(
            unknown_warning("border."@, config.border.unknown@[k]),
        ),
        0 <= k < config.bar.unknown@.len() ==> config.all_warnings().contains(
            unknown_warning("bar."@, config.bar.unknown@[k]),
        ),
        0 <= k < config.notifications.unknown@.len() ==> config.all_warnings().contains(
            unknown_warning("notifications."@, config.notifications.unknown@[k]),
        ),
{
    let all = config.all_warnings();
    let root = config.unknown@.len() as int;
    let border = config.border.unknown@.len() as int;
    let bar = config.bar.unknown@.len() as int;
    if 0 <= k < root {
        assert(all[k] == unknown_warning(""@, config.unknown@[k]));
    }
    if 0 <= k < border {
        assert(all[root + k] == unknown_warning("border."@, config.border.unknown@[k]));
    }
    if 0 <= k < bar {
        assert(all[root + border + k] == unknown_warning("bar."@, config.bar.unknown@[k]));
    }
    if 0 <= k < config.notifications.unknown@.len() {
        assert(all[root + border + bar + k] == unknown_warning(
            "notifications."@,
            config.notifications.unknown@[k],
        ));
    }
}

/// One table's warnings: one for each of its unknown fields, in the order of the
/// fields, and no two alike.
pub proof fn a_table_warns_once_for_each_name(
    prefix: Seq<char>,
    names: Seq<Seq<char>>,
    i: int,
    j: int,
)
    requires
        ascending(names),
        0 <= i < j < names.len(),
    ensures
        section_warnings(prefix, names).len() == names.len(),
        section_warnings(prefix, names)[i] == unknown_warning(prefix, names[i]),
        section_warnings(prefix, names)[i] != section_warnings(prefix, names)[j],
{
    let start = "ignoring unknown config field `"@ + prefix;
    let (a, b) = (unknown_warning(prefix, names[i]), unknown_warning(prefix, names[j]));
    if a == b {
        let length = a.len() - "`"@.len();
        assert(a.subrange(start.len() as int, length) =~= names[i]);
        assert(b.subrange(start.len() as int, length) =~= names[j]);
        nothing_comes_before_itself(names[i]);
    }
}

proof fn lemma_module_warnings_empty(modules: Seq<Module>, count: nat)
    requires
        count <= modules.len(),
    ensures
        module_warnings(modules, count).len() == 0 <==> forall|i: int|
            0 <= i < count ==> (#[trigger] modules[i]).unknown@.len() == 0,
    decreases count,
{
    if count > 0 {
        lemma_module_warnings_empty(modules, (count - 1) as nat);
        let last = modules[count - 1];
        if forall|i: int| 0 <= i < count - 1 ==> (#[trigger] modules[i]).unknown@.len() == 0 {
            assert forall|i: int| 0 <= i < count && last.unknown@.len() == 0 implies (
            #[trigger] modules[i]).unknown@.len() == 0 by {}
        }
    }
}

/// There is no warning exactly if no table has an unknown field.
pub proof fn nothing_unknown_is_no_warning(config: Config)
    ensures
        config.all_warnings().len() == 0 <==> {
            &&& config.unknown@.len() == 0
            &&& config.border.unknown@.len() == 0
            &&& config.bar.unknown@.len() == 0
            &&& config.notifications.unknown@.len() == 0
            &&& forall|i: int|
                0 <= i < config.bar.module@.len() ==> (
                #[trigger] config.bar.module@[i]).unknown@.len() == 0
        },
{
    lemma_module_warnings_empty(config.bar.module@, config.bar.module@.len());
}

/// The config home wins over the home directory, and there is a path unless
/// neither is set.
pub proof fn the_config_home_is_preferred(config_home: Option<Vec<u8>>, home: Option<Vec<u8>>)
    ensures
        config_file(config_home, home) is None <==> !is_set(config_home) && !is_set(home),
        is_set(config_home) ==> config_file(config_home, home) == config_file(config_home, None),
{
}

/// True of a character that is the hexadecimal digit for a value, in either case.
pub open spec fn is_digit(c: char, value: int) -> bool {
    0 <= value < 16 && (c == "0123456789abcdef"@[value] || c == "0123456789ABCDEF"@[value])
}

/// True of two characters that are the hexadecimal digits of a byte.
pub open spec fn spells(high: char, low: char, byte: u8) -> bool {
    is_digit(high, byte as int / 16) && is_digit(low, byte as int % 16)
}

proof fn lemma_digits(c: char, value: int)
    ensures
        hex_digit(c) == Some(value) <==> is_digit(c, value),
        hex_digit(c) matches Some(digit) ==> 0 <= digit < 16,
{
    reveal_strlit("0123456789abcdef");
    reveal_strlit("0123456789ABCDEF");
    let lower = "0123456789abcdef"@;
    let upper = "0123456789ABCDEF"@;
    assert(lower[0] == '0' && lower[1] == '1' && lower[2] == '2' && lower[3] == '3' && lower[4]
        == '4' && lower[5] == '5' && lower[6] == '6' && lower[7] == '7' && lower[8] == '8'
        && lower[9] == '9' && lower[10] == 'a' && lower[11] == 'b' && lower[12] == 'c' && lower[13]
        == 'd' && lower[14] == 'e' && lower[15] == 'f');
    assert(upper[0] == '0' && upper[1] == '1' && upper[2] == '2' && upper[3] == '3' && upper[4]
        == '4' && upper[5] == '5' && upper[6] == '6' && upper[7] == '7' && upper[8] == '8'
        && upper[9] == '9' && upper[10] == 'A' && upper[11] == 'B' && upper[12] == 'C' && upper[13]
        == 'D' && upper[14] == 'E' && upper[15] == 'F');
    if 0 <= value < 16 {
        assert(value == 0 || value == 1 || value == 2 || value == 3 || value == 4 || value == 5
            || value == 6 || value == 7 || value == 8 || value == 9 || value == 10 || value == 11
            || value == 12 || value == 13 || value == 14 || value == 15);
    }
}

proof fn lemma_spelling(text: Seq<char>, at: int, byte: u8)
    ensures
        channel(text, at) == Some(byte as int) <==> spells(text[at], text[at + 1], byte),
        channel(text, at) matches Some(value) ==> 0 <= value <= 255,
{
    let (high, low) = (text[at], text[at + 1]);
    lemma_digits(high, byte as int / 16);
    lemma_digits(low, byte as int % 16);
    if hex_digit(high) is Some {
        lemma_digits(high, hex_digit(high)->0);
    }
    if hex_digit(low) is Some {
        lemma_digits(low, hex_digit(low)->0);
    }
}

/// A text is read as a colour exactly if it spells that colour: behind a hash sign the
/// red, the green and the blue, two hexadecimal digits each and in either case, and then
/// the alpha in the same way, or no alpha, which is an opaque colour.
pub proof fn a_colour_is_read_as_it_is_spelt(text: Seq<char>, color: Rgba)
    ensures
        parsed_color(text) == Some(color) <==> {
            &&& text.len() == 7 && color.a == 0xff || text.len() == 9 && spells(
                text[7],
                text[8],
                color.a,
            )
            &&& text[0] == '#'
            &&& spells(text[1], text[2], color.r)
            &&& spells(text[3], text[4], color.g)
            &&& spells(text[5], text[6], color.b)
        },
{
    lemma_spelling(text, 1, color.r);
    lemma_spelling(text, 3, color.g);
    lemma_spelling(text, 5, color.b);
    lemma_spelling(text, 7, color.a);
}

/// A text that is no colour is named in the message, and so is what was expected.
pub proof fn a_text_that_is_no_colour_is_named(text: Seq<char>)
    ensures
        color_error(text) == "`"@ + text + "`: expected a `#rrggbb` or `#rrggbbaa` color"@,
{
}

/// What is wrong with a module is said by its place in the list: that it has no name,
/// or else no command, or else neither an interval nor a stream, or else an interval of
/// nothing.
pub proof fn what_is_wrong_with_a_module_is_said(module: Module, index: nat)
    ensures
        ({
            let place = "bar.module["@ + decimal(index) + "]"@;
            let unnamed = module.name@.len() == 0;
            let idle = module.command@.len() == 0;
            let lost = module.interval is None && !module.stream;
            &&& unnamed ==> module_fault(module, index) == Some(
                place + ".name: must not be empty"@,
            )
            &&& !unnamed && idle ==> module_fault(module, index) == Some(
                place + ".exec: must not be empty"@,
            )
            &&& !unnamed && !idle && lost ==> module_fault(module, index) == Some(
                place + " ("@ + module.name@ + "): needs either `interval` or `stream = true`"@,
            )
            &&& !unnamed && !idle && module.interval == Some(0u64) ==> module_fault(module, index)
                == Some(place + ".interval: must be greater than 0"@)
            &&& !unnamed && !idle && !lost && module.interval != Some(0u64) ==> module_fault(
                module,
                index,
            ) is None
        }),
{
    reveal_strlit("]");
    reveal_strlit("].");
    reveal_strlit("] (");
    reveal_strlit(" (");
    reveal_strlit("name");
    reveal_strlit("exec");
    reveal_strlit("interval");
    reveal_strlit(": must not be empty");
    reveal_strlit(": must be greater than 0");
    reveal_strlit(".name: must not be empty");
    reveal_strlit(".exec: must not be empty");
    reveal_strlit(".interval: must be greater than 0");
    let open = "bar.module["@ + decimal(index);
    let place = open + "]"@;
    assert(module_field(index, "name"@) + ": must not be empty"@ =~= place
        + ".name: must not be empty"@);
    assert(module_field(index, "exec"@) + ": must not be empty"@ =~= place
        + ".exec: must not be empty"@);
    assert(module_field(index, "interval"@) + ": must be greater than 0"@ =~= place
        + ".interval: must be greater than 0"@);
    assert(open + "] ("@ =~= place + " ("@);
    assert(open + "] ("@ + module.name@ + "): needs either `interval` or `stream = true`"@ =~= place
        + " ("@ + module.name@ + "): needs either `interval` or `stream = true`"@);
}

/// A configuration is refused for its font's size before any module, and for the first
/// module that something is wrong with before any later one.
pub proof fn the_first_thing_wrong_is_said(config: Config, i: int)
    ensures
        config.bar.font_size <= 0 ==> config.fault() == Some(
            "bar.font_size: must be greater than 0"@,
        ),
        config.bar.font_size > 0 && 0 <= i < config.bar.module@.len() && !runnable(
            config.bar.module@[i],
        ) && (forall|j: int| 0 <= j < i ==> runnable(#[trigger] config.bar.module@[j]))
            ==> config.fault() == module_fault(config.bar.module@[i], i as nat),
{
    let modules = config.bar.module@;
    the_first_fault_is_reported(modules, 0);
    if config.bar.font_size > 0 && 0 <= i < modules.len() && !runnable(modules[i]) && (forall|j: int|
        0 <= j < i ==> runnable(#[trigger] modules[j])) {
        assert(module_fault(modules[i], i as nat) is Some);
        let fault = first_fault(modules, 0)->0;
        let k = choose|k: int|
            0 <= k < modules.len() && Some(fault) == module_fault(#[trigger] modules[k], k as nat)
                && forall|j: int|
                0 <= j < k ==> module_fault(#[trigger] modules[j], j as nat) is None;
        if k < i {
            assert(runnable(modules[k]));
        } else if i < k {
            assert(module_fault(modules[i], i as nat) is None);
        }
    }
}

/// A module can be run exactly if it has a name, a command, and a way to be run.
pub proof fn what_can_be_run(module: Module)
    ensures
        runnable(module) <==> module.name@.len() > 0 && module.command@.len() > 0 && (
        module.interval matches Some(seconds) && seconds > 0 || module.interval is None
            && module.stream),
{
}

/// The tables of a configuration: the file itself, the border, the bar, the
/// notifications, and then the modules.
pub open spec fn table_names(config: Config, table: int) -> Seq<Seq<char>> {
    if table == 0 {
        config.unknown@
    } else if table == 1 {
        config.border.unknown@
    } else if table == 2 {
        config.bar.unknown@
    } else if table == 3 {
        config.notifications.unknown@
    } else {
        config.bar.module@[table - 4].unknown@
    }
}

/// How the fields of a table are referred to.
pub open spec fn table_prefix(table: int) -> Seq<char> {
    if table == 0 {
        ""@
    } else if table == 1 {
        "border."@
    } else if table == 2 {
        "bar."@
    } else if table == 3 {
        "notifications."@
    } else {
        "bar.module["@ + decimal((table - 4) as nat) + "]."@
    }
}

/// The warning for the `k`-th unknown field of a table.
pub open spec fn table_warning(config: Config, table: int, k: int) -> Seq<char> {
    "ignoring unknown config field `"@ + table_prefix(table) + table_names(config, table)[k] + "`"@
}

/// True when `origin` says where each of the warnings comes from: each from a field of
/// a table before `tables`, table by table and field by field, and none is left out.
pub open spec fn warned(
    config: Config,
    warnings: Seq<Seq<char>>,
    tables: int,
    origin: Seq<(int, int)>,
) -> bool {
    &&& origin.len() == warnings.len()
    &&& forall|w: int|
        0 <= w < origin.len() ==> {
            let (table, k) = #[trigger] origin[w];
            &&& 0 <= table < tables
            &&& 0 <= k < table_names(config, table).len()
            &&& warnings[w] == table_warning(config, table, k)
        }
    &&& forall|v: int, w: int|
        0 <= v < w < origin.len() ==> (#[trigger] origin[v]).0 < (#[trigger] origin[w]).0
            || origin[v].0 == origin[w].0 && origin[v].1 < origin[w].1
    &&& forall|table: int, k: int|
        0 <= table < tables && 0 <= k < table_names(config, table).len() ==> origin.contains(
            #[trigger] pair(table, k),
        )
}

/// Two numbers.
pub open spec fn pair(a: int, b: int) -> (int, int) {
    (a, b)
}

proof fn lemma_one_table_more(
    config: Config,
    warnings: Seq<Seq<char>>,
    table: int,
    origin: Seq<(int, int)>,
    more: Seq<Seq<char>>,
) -> (all: Seq<(int, int)>)
    requires
        0 <= table,
        warned(config, warnings, table, origin),
        more.len() == table_names(config, table).len(),
        forall|k: int| 0 <= k < more.len() ==> #[trigger] more[k] == table_warning(config, table, k),
    ensures
        warned(config, warnings + more, table + 1, all),
{
    let fresh = Seq::new(more.len(), |k: int| pair(table, k));
    let all = origin + fresh;
    assert forall|w: int| 0 <= w < all.len() implies {
        let (t, k) = #[trigger] all[w];
        &&& 0 <= t < table + 1
        &&& 0 <= k < table_names(config, t).len()
        &&& (warnings + more)[w] == table_warning(config, t, k)
    } by {
        if w < origin.len() {
            assert(all[w] == origin[w]);
        } else {
            assert(all[w] == fresh[w - origin.len()]);
        }
    }
    assert forall|v: int, w: int| 0 <= v < w < all.len() implies (#[trigger] all[v]).0 < (
    #[trigger] all[w]).0 || all[v].0 == all[w].0 && all[v].1 < all[w].1 by {
        if w < origin.len() {
            assert(all[v] == origin[v] && all[w] == origin[w]);
        } else {
            assert(all[w] == fresh[w - origin.len()]);
            if v < origin.len() {
                assert(all[v] == origin[v]);
            } else {
                assert(all[v] == fresh[v - origin.len()]);
            }
        }
    }
    assert forall|t: int, k: int|
        0 <= t < table + 1 && 0 <= k < table_names(config, t).len() implies all.contains(
        #[trigger] pair(t, k),
    ) by {
        if t == table {
            assert(all[origin.len() + k] == pair(t, k));
        } else {
            let w = choose|w: int| 0 <= w < origin.len() && origin[w] == pair(t, k);
            assert(all[w] == pair(t, k));
        }
    }
    all
}

proof fn lemma_modules_warned(
    config: Config,
    warnings: Seq<Seq<char>>,
    origin: Seq<(int, int)>,
    count: nat,
) -> (all: Seq<(int, int)>)
    requires
        warned(config, warnings, 4, origin),
        count <= config.bar.module@.len(),
    ensures
        warned(config, warnings + module_warnings(config.bar.module@, count), 4 + count as int, all),
    decreases count,
{
    let modules = config.bar.module@;
    if count == 0 {
        assert(warnings + module_warnings(modules, 0) =~= warnings);
        origin
    } else {
        let last = (count - 1) as nat;
        let before = lemma_modules_warned(config, warnings, origin, last);
        let own = section_warnings(module_field(last, Seq::empty()), modules[count - 1].unknown@);
        let table = 4 + last as int;
        assert(module_field(last, Seq::empty()) =~= table_prefix(table));
        let all = lemma_one_table_more(
            config,
            warnings + module_warnings(modules, last),
            table,
            before,
            own,
        );
        assert(warnings + module_warnings(modules, last) + own =~= warnings + module_warnings(
            modules,
            count,
        ));
        all
    }
}

/// There is one warning for each unknown field of each table and no other: table by
/// table, in the order of the fields, each naming the field by where it stands. The
/// answer says which warning is for which field.
pub proof fn each_unknown_field_is_warned_about_once(config: Config) -> (origin: Seq<(int, int)>)
    ensures
        warned(config, config.all_warnings(), 4 + config.bar.module@.len() as int, origin),
{
    let none = Seq::<Seq<char>>::empty();
    let nowhere = Seq::<(int, int)>::empty();
    let root = section_warnings(""@, config.unknown@);
    let border = section_warnings("border."@, config.border.unknown@);
    let bar = section_warnings("bar."@, config.bar.unknown@);
    let notifications = section_warnings("notifications."@, config.notifications.unknown@);
    assert(warned(config, none, 0, nowhere));
    let a = lemma_one_table_more(config, none, 0, nowhere, root);
    assert(none + root =~= root);
    let b = lemma_one_table_more(config, root, 1, a, border);
    let c = lemma_one_table_more(config, root + border, 2, b, bar);
    let d = lemma_one_table_more(config, root + border + bar, 3, c, notifications);
    lemma_modules_warned(config, root + border + bar + notifications, d, config.bar.module@.len())
}

/// The config file is below the config home, or else below `.config` in the home
/// directory, with exactly one slash between each two parts where the first does not
/// bring its own. There is none without either of the two; one that is set to nothing
/// counts for nothing.
pub proof fn where_the_config_file_is(config_home: Option<Vec<u8>>, home: Option<Vec<u8>>)
    ensures
        ({
            let found = config_file(config_home, home);
            let preferred = config_home is Some && config_home->0@.len() > 0;
            let fallback = !preferred && home is Some && home->0@.len() > 0;
            let slash = seq![47u8];
            &&& preferred && config_home->0@.last() != 47 ==> found == Some(
                config_home->0@ + slash + FILE_NAME@,
            )
            &&& preferred && config_home->0@.last() == 47 ==> found == Some(
                config_home->0@ + FILE_NAME@,
            )
            &&& fallback && home->0@.last() != 47 ==> found == Some(
                home->0@ + slash + CONFIG_DIR@ + slash + FILE_NAME@,
            )
            &&& fallback && home->0@.last() == 47 ==> found == Some(
                home->0@ + CONFIG_DIR@ + slash + FILE_NAME@,
            )
            &&& !preferred && !fallback ==> found is None
        }),
{
    let slash = seq![47u8];
    assert(CONFIG_DIR@.len() == 7 && CONFIG_DIR@[6] == 103);
    if config_home is Some {
        let base = config_home->0@;
        assert(base.push(47) + FILE_NAME@ =~= base + slash + FILE_NAME@);
    }
    if home is Some {
        let base = home->0@;
        let apart = base.push(47) + CONFIG_DIR@;
        let joined_up = base + CONFIG_DIR@;
        assert(apart.last() == 103 && joined_up.last() == 103);
        assert(apart.push(47) + FILE_NAME@ =~= base + slash + CONFIG_DIR@ + slash + FILE_NAME@);
        assert(joined_up.push(47) + FILE_NAME@ =~= base + CONFIG_DIR@ + slash + FILE_NAME@);
    }
}

/// The parts of the path, as they are written.
pub proof fn how_the_path_is_written(i: int)
    ensures
        FILE_NAME@.len() == "quickbar/config.toml"@.len(),
        0 <= i < FILE_NAME@.len() ==> FILE_NAME@[i] as int == "quickbar/config.toml"@[i] as int,
        CONFIG_DIR@.len() == ".config"@.len(),
        0 <= i < CONFIG_DIR@.len() ==> CONFIG_DIR@[i] as int == ".config"@[i] as int,
{
    reveal_strlit("quickbar/config.toml");
    reveal_strlit(".config");
    let name = "quickbar/config.toml"@;
    let dir = ".config"@;
    if 0 <= i < 20 {
        assert(i == 0 || i == 1 || i == 2 || i == 3 || i == 4 || i == 5 || i == 6 || i == 7 || i
            == 8 || i == 9 || i == 10 || i == 11 || i == 12 || i == 13 || i == 14 || i == 15 || i
            == 16 || i == 17 || i == 18 || i == 19);
    }
}

/// A file that is missing is no error. One that cannot be read, that is no config file,
/// or that something is wrong with is refused, and the message names the file and what
/// is wrong.
pub proof fn what_is_wrong_with_a_file_is_said(path: Seq<char>, loaded: Loaded)
    ensures
        loaded is Missing ==> load_error(path, loaded) is None,
        loaded matches Loaded::Unreadable(error) ==> load_error(path, loaded) == Some(
            path + ": "@ + error@,
        ),
        loaded matches Loaded::Malformed(error) ==> load_error(path, loaded) == Some(
            path + ": "@ + error@,
        ),
        loaded matches Loaded::Parsed(config) ==> {
            &&& config.fault() is None ==> load_error(path, loaded) is None
            &&& config.fault() matches Some(fault) ==> load_error(path, loaded) == Some(
                path + ": "@ + fault,
            )
        },
{
}

/// Without a place to look for a file there is no error, and with one it is the file's.
pub proof fn no_place_to_look_is_no_error(path: &str, loaded: Loaded)
    ensures
        found_error(None) is None,
        found_error(Some((path, loaded))) == load_error(path@, loaded),
{
}

/// The defaults, field by field.
pub proof fn what_the_defaults_are(config: Config)
    requires
        config.is_default(),
    ensures
        config.border.width == 6,
        config.border.color == (Rgba { r: 0x3b, g: 0x42, b: 0x52, a: 0xff }),
        config.bar.height == 28,
        config.bar.background == (Rgba { r: 0x1e, g: 0x1e, b: 0x2e, a: 0xee }),
        config.bar.foreground == (Rgba { r: 0xd8, g: 0xde, b: 0xe9, a: 0xff }),
        config.bar.font is None,
        config.bar.font_size == 13 * PIXEL,
        config.bar.hover_delay_ms == 150,
        config.bar.hide_delay_ms == 400,
        config.bar.content_max_height == 400,
        config.bar.module@.len() == 0,
        config.notifications.max_visible == 3,
        config.notifications.timeout_ms == 5000,
        config.notifications.background == (Rgba { r: 0x1e, g: 0x1e, b: 0x2e, a: 0xee }),
        config.notifications.text_color == (Rgba { r: 0xd8, g: 0xde, b: 0xe9, a: 0xff }),
        config.notifications.urgent_color == (Rgba { r: 0xbf, g: 0x61, b: 0x6a, a: 0xff }),
        config.unknown@.len() == 0,
        config.border.unknown@.len() == 0,
        config.bar.unknown@.len() == 0,
        config.notifications.unknown@.len() == 0,
{
}

/// A module of which nothing was said has no name, no command and no way to be run.
pub proof fn what_a_module_is_by_default(module: Module)
    requires
        module.is_default(),
    ensures
        module.name@.len() == 0,
        module.command@.len() == 0,
        module.interval is None,
        !module.stream,
        module.align == Align::Left,
        module.color is None,
        module.unknown@.len() == 0,
{
}

/// A list of texts is its characters, one for one.
pub proof fn texts_are_their_characters(strings: Seq<String>, i: int)
    requires
        0 <= i < strings.len(),
    ensures
        texts(strings).len() == strings.len(),
        texts(strings)[i] == strings[i]@,
{
}

} // verus!
