//! What the user configured of the display: where a setting comes from, what it may be,
//! and how it is stored.
use crate::json;
use crate::text;
use crate::text::{cat3, parse_up_to, str_eq, str_lower, str_trim};
use vstd::prelude::*;

verus! {

/// How many turns a finished TODO item stays on show: the turn that it is finished in and
/// four more.
pub const DEFAULT_TODO_TTL: u64 = 5;

/// The most rows that the input box grows to.
pub const INPUT_MAX_ROWS: u16 = 5;

/// How many entries the scrollback keeps.
pub const DEFAULT_SCROLLBACK: usize = 500;

/// What is configured of the display.
#[derive(Debug, Clone, PartialEq, Eq)]
pub struct UiConfig<S = String> {
    /// Vim-like input.
    pub vim_mode: bool,
    /// A theme file; `None` for the theme that comes with the program.
    pub theme: Option<S>,
    /// The icon set.
    pub icons: Option<S>,
    /// How each message's time is shown: see [`TimestampStyle`].
    pub timestamps: Option<S>,
    /// How the status bar behaves: see [`StatusBarMode`].
    pub statusbar: Option<S>,
    /// Ring the bell when a long turn is over.
    pub bell: bool,
    /// Take up the last session of the directory on start.
    pub auto_resume: bool,
    /// How many turns a finished TODO item stays on show.
    pub todo_ttl: u64,
    /// Show the model's reasoning.
    pub show_thinking: bool,
    /// How many entries the scrollback keeps.
    pub scrollback: usize,
}

impl View for UiConfig<String> {
    type V = UiConfig<Seq<char>>;

    open spec fn view(&self) -> UiConfig<Seq<char>> {
        UiConfig {
            vim_mode: self.vim_mode,
            theme: json::opt_view(self.theme),
            icons: json::opt_view(self.icons),
            timestamps: json::opt_view(self.timestamps),
            statusbar: json::opt_view(self.statusbar),
            bell: self.bell,
            auto_resume: self.auto_resume,
            todo_ttl: self.todo_ttl,
            show_thinking: self.show_thinking,
            scrollback: self.scrollback,
        }
    }
}

/// What the configuration file says of the display. Settings that it does not name are
/// `None`.
#[derive(Debug, Clone, PartialEq, Eq)]
pub struct UiFileConfig<S = String> {
    pub vim: Option<bool>,
    pub theme: Option<S>,
    pub icons: Option<S>,
    pub timestamps: Option<S>,
    pub statusbar: Option<S>,
    pub bell: Option<bool>,
    pub auto_resume: Option<bool>,
    pub todo_ttl: Option<u64>,
    pub show_thinking: Option<bool>,
    pub scrollback: Option<usize>,
}

impl View for UiFileConfig<String> {
    type V = UiFileConfig<Seq<char>>;

    open spec fn view(&self) -> UiFileConfig<Seq<char>> {
        UiFileConfig {
            vim: self.vim,
            theme: json::opt_view(self.theme),
            icons: json::opt_view(self.icons),
            timestamps: json::opt_view(self.timestamps),
            statusbar: json::opt_view(self.statusbar),
            bell: self.bell,
            auto_resume: self.auto_resume,
            todo_ttl: self.todo_ttl,
            show_thinking: self.show_thinking,
            scrollback: self.scrollback,
        }
    }
}

/// What the environment says of the display: the values of the variables that are set,
/// and of the switches what those values mean. A switch that means nothing is `None`.
#[derive(Debug, Clone, PartialEq, Eq)]
pub struct UiEnv<S = String> {
    pub theme: Option<S>,
    pub icons: Option<S>,
    pub timestamps: Option<S>,
    pub statusbar: Option<S>,
    pub bell: Option<bool>,
    pub auto_resume: Option<bool>,
    pub todo_ttl: Option<S>,
    pub show_thinking: Option<bool>,
    pub scrollback: Option<S>,
}

impl View for UiEnv<String> {
    type V = UiEnv<Seq<char>>;

    open spec fn view(&self) -> UiEnv<Seq<char>> {
        UiEnv {
            theme: json::opt_view(self.theme),
            icons: json::opt_view(self.icons),
            timestamps: json::opt_view(self.timestamps),
            statusbar: json::opt_view(self.statusbar),
            bell: self.bell,
            auto_resume: self.auto_resume,
            todo_ttl: json::opt_view(self.todo_ttl),
            show_thinking: self.show_thinking,
            scrollback: json::opt_view(self.scrollback),
        }
    }
}

/// The settings where nothing is configured.
pub open spec fn defaults() -> UiConfig<Seq<char>> {
    UiConfig {
        vim_mode: false,
        theme: None,
        icons: None,
        timestamps: None,
        statusbar: None,
        bell: true,
        auto_resume: true,
        todo_ttl: DEFAULT_TODO_TTL,
        show_thinking: true,
        scrollback: DEFAULT_SCROLLBACK,
    }
}

/// `new`, or `old` where there is no `new`.
pub open spec fn over<T>(new: Option<T>, old: T) -> T {
    match new {
        Some(v) => v,
        None => old,
    }
}

/// `new`, or `old` where there is no `new`.
pub open spec fn over_option<T>(new: Option<T>, old: Option<T>) -> Option<T> {
    match new {
        Some(v) => Some(v),
        None => old,
    }
}

/// The number that a variable's value spells, or `old` where it spells none.
pub open spec fn over_number(new: Option<Seq<char>>, old: nat, max: nat) -> nat {
    match new {
        Some(v) => over(text::parse_unsigned(v, max), old),
        None => old,
    }
}

/// The settings with what the file says put over them.
pub open spec fn with_file(
    c: UiConfig<Seq<char>>,
    f: UiFileConfig<Seq<char>>,
) -> UiConfig<Seq<char>> {
    UiConfig {
        vim_mode: over(f.vim, c.vim_mode),
        theme: over_option(f.theme, c.theme),
        icons: over_option(f.icons, c.icons),
        timestamps: over_option(f.timestamps, c.timestamps),
        statusbar: over_option(f.statusbar, c.statusbar),
        bell: over(f.bell, c.bell),
        auto_resume: over(f.auto_resume, c.auto_resume),
        todo_ttl: over(f.todo_ttl, c.todo_ttl),
        show_thinking: over(f.show_thinking, c.show_thinking),
        scrollback: over(f.scrollback, c.scrollback),
    }
}

/// The settings with what the environment says put over them.
pub open spec fn with_env(c: UiConfig<Seq<char>>, e: UiEnv<Seq<char>>) -> UiConfig<Seq<char>> {
    UiConfig {
        vim_mode: c.vim_mode,
        theme: over_option(e.theme, c.theme),
        icons: over_option(e.icons, c.icons),
        timestamps: over_option(e.timestamps, c.timestamps),
        statusbar: over_option(e.statusbar, c.statusbar),
        bell: over(e.bell, c.bell),
        auto_resume: over(e.auto_resume, c.auto_resume),
        todo_ttl: over_number(e.todo_ttl, c.todo_ttl as nat, u64::MAX as nat) as u64,
        show_thinking: over(e.show_thinking, c.show_thinking),
        scrollback: over_number(e.scrollback, c.scrollback as nat, usize::MAX as nat) as usize,
    }
}

/// The settings: the environment over the file over the defaults. A file that cannot be
/// read, or does not parse, is `None`.
pub open spec fn resolved(
    file: Option<UiFileConfig<Seq<char>>>,
    env: UiEnv<Seq<char>>,
) -> UiConfig<Seq<char>> {
    with_env(
        match file {
            Some(f) => with_file(defaults(), f),
            None => defaults(),
        },
        env,
    )
}

/// The view of an optional file.
pub open spec fn file_view(f: Option<UiFileConfig>) -> Option<UiFileConfig<Seq<char>>> {
    match f {
        Some(f) => Some(f@),
        None => None,
    }
}

/// A setting's value as it is compared: without white space around it, in lower case.
pub open spec fn compared(raw: Seq<char>) -> Seq<char> {
    text::lower(text::trim(raw))
}

/// Whether `v` names an icon set.
pub open spec fn is_icon_set(v: Seq<char>) -> bool {
    v == "nerd"@ || v == "unicode"@ || v == "ascii"@
}

/// Whether `v` names a way to show times.
pub open spec fn is_timestamp_style(v: Seq<char>) -> bool {
    hides_timestamps(v) || v == "relative"@ || exact_timestamps(v)
}

/// Whether `v` says to show no times.
pub open spec fn hides_timestamps(v: Seq<char>) -> bool {
    v == "none"@ || v == "off"@ || v == "hidden"@ || v == "false"@ || v == "0"@
}

/// Whether `v` says to show times exactly.
pub open spec fn exact_timestamps(v: Seq<char>) -> bool {
    v == "exact"@ || v == "absolute"@ || v == "abs"@
}

/// Whether `v` names a behaviour of the status bar.
pub open spec fn is_statusbar_mode(v: Seq<char>) -> bool {
    hides_statusbar(v) || v == "truncate"@ || v == "wrap"@
}

/// Whether `v` says to show no status bar.
pub open spec fn hides_statusbar(v: Seq<char>) -> bool {
    v == "none"@ || v == "off"@ || v == "hidden"@
}

/// What the user is told of a value that a setting cannot have.
pub open spec fn unknown_value(
    field: Seq<char>,
    raw: Seq<char>,
    options: Seq<char>,
) -> Seq<char> {
    field + " = \""@ + raw + "\" is not a known value (valid: "@ + options
        + "); using the default"@
}

/// The complaint about one setting, if there is one to make.
pub open spec fn complaint(
    value: Option<Seq<char>>,
    good: spec_fn(Seq<char>) -> bool,
    field: Seq<char>,
    options: Seq<char>,
) -> Seq<Seq<char>> {
    match value {
        Some(raw) => if good(compared(raw)) {
            Seq::empty()
        } else {
            seq![unknown_value(field, raw, options)]
        },
        None => Seq::empty(),
    }
}

/// The complaints about all settings.
pub open spec fn complaints(c: UiConfig<Seq<char>>) -> Seq<Seq<char>> {
    complaint(c.icons, |v: Seq<char>| is_icon_set(v), "icons"@, "nerd, unicode, ascii"@)
        + complaint(
        c.timestamps,
        |v: Seq<char>| is_timestamp_style(v),
        "timestamps"@,
        "none, relative, exact"@,
    ) + complaint(
        c.statusbar,
        |v: Seq<char>| is_statusbar_mode(v),
        "statusbar"@,
        "none, truncate, wrap"@,
    )
}

fn compared_value(raw: &str) -> (r: String)
    ensures
        r@ == compared(raw@),
{
    str_lower(str_trim(raw).as_str())
}

fn value_hides_timestamps(v: &str) -> (r: bool)
    ensures
        r == hides_timestamps(v@),
{
    str_eq(v, "none") || str_eq(v, "off") || str_eq(v, "hidden") || str_eq(v, "false") || str_eq(v, "0")
}

fn value_is_exact(v: &str) -> (r: bool)
    ensures
        r == exact_timestamps(v@),
{
    str_eq(v, "exact") || str_eq(v, "absolute") || str_eq(v, "abs")
}

fn value_hides_statusbar(v: &str) -> (r: bool)
    ensures
        r == hides_statusbar(v@),
{
    str_eq(v, "none") || str_eq(v, "off") || str_eq(v, "hidden")
}

fn number_over(new: Option<String>, old: u64, max: u64) -> (r: u64)
    requires
        old <= max,
    ensures
        r == over_number(json::opt_view(new), old as nat, max as nat),
        r <= max,
{
    if let Some(v) = new {
        if let Some(n) = parse_up_to(v.as_str(), max) {
            return n;
        }
    }
    old
}

fn complain(field: &str, raw: &str, options: &str) -> (r: String)
    ensures
        r@ == unknown_value(field@, raw@, options@),
{
    let mut s = cat3(field, " = \"", raw);
    s.append("\" is not a known value (valid: ");
    s.append(options);
    s.append("); using the default");
    s
}

impl Default for UiConfig {
    fn default() -> (r: Self)
        ensures
            r@ == defaults(),
    {
        UiConfig {
            vim_mode: false,
            theme: None,
            icons: None,
            timestamps: None,
            statusbar: None,
            bell: true,
            auto_resume: true,
            todo_ttl: DEFAULT_TODO_TTL,
            show_thinking: true,
            scrollback: DEFAULT_SCROLLBACK,
        }
    }
}

impl Default for UiFileConfig {
    fn default() -> (r: Self)
        ensures
            r@ == (UiFileConfig::<Seq<char>> {
                vim: None,
                theme: None,
                icons: None,
                timestamps: None,
                statusbar: None,
                bell: None,
                auto_resume: None,
                todo_ttl: None,
                show_thinking: None,
                scrollback: None,
            }),
    {
        UiFileConfig {
            vim: None,
            theme: None,
            icons: None,
            timestamps: None,
            statusbar: None,
            bell: None,
            auto_resume: None,
            todo_ttl: None,
            show_thinking: None,
            scrollback: None,
        }
    }
}

impl UiConfig {
    /// The settings that a file and the environment give.
    pub fn load(file: Option<UiFileConfig>, env: UiEnv) -> (r: Self)
        ensures
            r@ == resolved(file_view(file), env@),
    {
        UiConfig::load_diagnosed(file, env).0
    }

    /// The settings that a file and the environment give, and the complaints about them.
    pub fn load_diagnosed(file: Option<UiFileConfig>, env: UiEnv) -> (r: (Self, Vec<String>))
        ensures
            r.0@ == resolved(file_view(file), env@),
            text::views(r.1@) == complaints(r.0@),
    {
        let mut cfg = UiConfig::default();
        if let Some(f) = file {
            cfg.apply_file(f);
        }
        cfg.apply_env(env);
        let warnings = cfg.validate();
        (cfg, warnings)
    }

    /// The complaints about settings with values that they cannot have, each with the
    /// values that they can. Such a setting takes its default.
    pub fn validate(&self) -> (r: Vec<String>)
        ensures
            text::views(r@) == complaints(self@),
    {
        let mut out: Vec<String> = Vec::new();
        assert(text::views(out@) =~= Seq::empty());
        if let Some(raw) = &self.icons {
            let v = compared_value(raw.as_str());
            if !(str_eq(v.as_str(), "nerd") || str_eq(v.as_str(), "unicode") || str_eq(v.as_str(), "ascii")) {
                out.push(complain("icons", raw.as_str(), "nerd, unicode, ascii"));
            }
        }
        let ghost first = complaint(
            self@.icons,
            |v: Seq<char>| is_icon_set(v),
            "icons"@,
            "nerd, unicode, ascii"@,
        );
        assert(text::views(out@) =~= first);
        if let Some(raw) = &self.timestamps {
            let v = compared_value(raw.as_str());
            if !(value_hides_timestamps(v.as_str()) || str_eq(v.as_str(), "relative")
                || value_is_exact(v.as_str())) {
                out.push(complain("timestamps", raw.as_str(), "none, relative, exact"));
            }
        }
        let ghost second = complaint(
            self@.timestamps,
            |v: Seq<char>| is_timestamp_style(v),
            "timestamps"@,
            "none, relative, exact"@,
        );
        assert(text::views(out@) =~= first + second);
        if let Some(raw) = &self.statusbar {
            let v = compared_value(raw.as_str());
            if !(value_hides_statusbar(v.as_str()) || str_eq(v.as_str(), "truncate") || str_eq(
                v.as_str(),
                "wrap",
            )) {
                out.push(complain("statusbar", raw.as_str(), "none, truncate, wrap"));
            }
        }
        assert(text::views(out@) =~= complaints(self@));
        out
    }

    /// Put what the file says over the settings.
    pub fn apply_file(&mut self, f: UiFileConfig)
        ensures
            final(self)@ == with_file(old(self)@, f@),
    {
        if let Some(v) = f.vim {
            self.vim_mode = v;
        }
        if let Some(v) = f.theme {
            self.theme = Some(v);
        }
        if let Some(v) = f.icons {
            self.icons = Some(v);
        }
        if let Some(v) = f.timestamps {
            self.timestamps = Some(v);
        }
        if let Some(v) = f.statusbar {
            self.statusbar = Some(v);
        }
        if let Some(v) = f.bell {
            self.bell = v;
        }
        if let Some(v) = f.auto_resume {
            self.auto_resume = v;
        }
        if let Some(v) = f.todo_ttl {
            self.todo_ttl = v;
        }
        if let Some(v) = f.show_thinking {
            self.show_thinking = v;
        }
        if let Some(v) = f.scrollback {
            self.scrollback = v;
        }
    }

    /// Put what the environment says over the settings. A number that does not parse
    /// says nothing.
    pub fn apply_env(&mut self, e: UiEnv)
        ensures
            final(self)@ == with_env(old(self)@, e@),
    {
        if let Some(v) = e.theme {
            self.theme = Some(v);
        }
        if let Some(v) = e.icons {
            self.icons = Some(v);
        }
        if let Some(v) = e.timestamps {
            self.timestamps = Some(v);
        }
        if let Some(v) = e.statusbar {
            self.statusbar = Some(v);
        }
        if let Some(v) = e.bell {
            self.bell = v;
        }
        if let Some(v) = e.auto_resume {
            self.auto_resume = v;
        }
        self.todo_ttl = number_over(e.todo_ttl, self.todo_ttl, u64::MAX);
        if let Some(v) = e.show_thinking {
            self.show_thinking = v;
        }
        let kept: u64 = number_over(e.scrollback, self.scrollback as u64, usize::MAX as u64);
        self.scrollback = kept as usize;
    }
}

/// What the environment says wins over what the file says, and what the file says over
/// the default.
pub proof fn law_environment_wins(
    file: UiFileConfig<Seq<char>>,
    env: UiEnv<Seq<char>>,
    empty: UiFileConfig<Seq<char>>,
)
    requires
        empty == (UiFileConfig::<Seq<char>> {
            vim: None,
            theme: None,
            icons: None,
            timestamps: None,
            statusbar: None,
            bell: None,
            auto_resume: None,
            todo_ttl: None,
            show_thinking: None,
            scrollback: None,
        }),
    ensures
        env.theme is Some ==> resolved(Some(file), env).theme == env.theme,
        env.theme is None && file.theme is Some ==> resolved(Some(file), env).theme == file.theme,
        env.theme is None && file.theme is None ==> resolved(Some(file), env).theme is None,
        env.bell is Some ==> resolved(Some(file), env).bell == env.bell->0,
        env.bell is None && file.bell is Some ==> resolved(Some(file), env).bell == file.bell->0,
        resolved(Some(empty), env) == resolved(None, env),
{
}

// ---------------------------------------------------------------------------
// Settings with few values
// ---------------------------------------------------------------------------

/// How each message's time is shown.
#[derive(Debug, Clone, Copy, PartialEq, Eq, Hash, Structural)]
pub enum TimestampStyle {
    /// Not at all.
    Hidden,
    /// As the time that has passed.
    Relative,
    /// As the hour and the minute.
    Exact,
}

/// The style that a setting names; times are relative where it names none.
pub open spec fn timestamp_style(s: Option<Seq<char>>) -> TimestampStyle {
    match s {
        Some(raw) => if hides_timestamps(compared(raw)) {
            TimestampStyle::Hidden
        } else if exact_timestamps(compared(raw)) {
            TimestampStyle::Exact
        } else {
            TimestampStyle::Relative
        },
        None => TimestampStyle::Relative,
    }
}

/// The view of an optional string slice.
pub open spec fn opt_str_view(s: Option<&str>) -> Option<Seq<char>> {
    match s {
        Some(t) => Some(t@),
        None => None,
    }
}

impl TimestampStyle {
    /// The style's name in the configuration.
    pub open spec fn name(self) -> Seq<char> {
        match self {
            TimestampStyle::Hidden => "none"@,
            TimestampStyle::Relative => "relative"@,
            TimestampStyle::Exact => "exact"@,
        }
    }

    /// The style that a setting names; times are relative where it names none.
    pub fn from_config(s: Option<&str>) -> (r: Self)
        ensures
            r == timestamp_style(opt_str_view(s)),
    {
        if let Some(raw) = s {
            let v = compared_value(raw);
            if value_hides_timestamps(v.as_str()) {
                return TimestampStyle::Hidden;
            }
            if value_is_exact(v.as_str()) {
                return TimestampStyle::Exact;
            }
        }
        TimestampStyle::Relative
    }

    /// The style's name in the configuration.
    pub fn as_config_str(self) -> (r: &'static str)
        ensures
            r@ == self.name(),
    {
        match self {
            TimestampStyle::Hidden => "none",
            TimestampStyle::Relative => "relative",
            TimestampStyle::Exact => "exact",
        }
    }
}

/// How the status bar behaves where it does not fit.
#[derive(Debug, Clone, Copy, PartialEq, Eq, Structural)]
pub enum StatusBarMode {
    /// There is none.
    Hidden,
    /// Its least important parts are left out.
    Truncate,
    /// It takes more rows.
    Wrap,
}

/// The mode that a setting names; the bar is truncated where it names none.
pub open spec fn statusbar_mode(s: Option<Seq<char>>) -> StatusBarMode {
    match s {
        Some(raw) => if hides_statusbar(compared(raw)) {
            StatusBarMode::Hidden
        } else if compared(raw) == "wrap"@ {
            StatusBarMode::Wrap
        } else {
            StatusBarMode::Truncate
        },
        None => StatusBarMode::Truncate,
    }
}

impl StatusBarMode {
    /// The mode's name in the configuration.
    pub open spec fn name(self) -> Seq<char> {
        match self {
            StatusBarMode::Hidden => "none"@,
            StatusBarMode::Truncate => "truncate"@,
            StatusBarMode::Wrap => "wrap"@,
        }
    }

    /// The mode that a setting names; the bar is truncated where it names none.
    pub fn from_config(s: Option<&str>) -> (r: Self)
        ensures
            r == statusbar_mode(opt_str_view(s)),
    {
        if let Some(raw) = s {
            let v = compared_value(raw);
            if value_hides_statusbar(v.as_str()) {
                return StatusBarMode::Hidden;
            }
            if str_eq(v.as_str(), "wrap") {
                return StatusBarMode::Wrap;
            }
        }
        StatusBarMode::Truncate
    }

    /// The mode's name in the configuration.
    pub fn as_config_str(self) -> (r: &'static str)
        ensures
            r@ == self.name(),
    {
        match self {
            StatusBarMode::Hidden => "none",
            StatusBarMode::Truncate => "truncate",
            StatusBarMode::Wrap => "wrap",
        }
    }
}

/// A style or mode that is stored is read back as it was.
pub proof fn law_config_strings_round_trip(style: TimestampStyle, mode: StatusBarMode)
    ensures
        timestamp_style(Some(style.name())) == style,
        statusbar_mode(Some(mode.name())) == mode,
{
    reveal_strlit("none");
    reveal_strlit("relative");
    reveal_strlit("exact");
    reveal_strlit("truncate");
    reveal_strlit("wrap");
    reveal_strlit("off");
    reveal_strlit("hidden");
    reveal_strlit("false");
    reveal_strlit("0");
    reveal_strlit("absolute");
    reveal_strlit("abs");
    text::lemma_plain("none"@);
    text::lemma_plain("relative"@);
    text::lemma_plain("exact"@);
    text::lemma_plain("truncate"@);
    text::lemma_plain("wrap"@);
    assert("exact"@[0] != "false"@[0]);
    assert("relative"@[0] != "absolute"@[0]);
    assert("wrap"@[0] != "none"@[0]);
}

/// A setting without a complaint has the meaning that its value names, never a default
/// that stands in for it.
pub proof fn law_good_values_are_kept(c: UiConfig<Seq<char>>)
    requires
        complaints(c).len() == 0,
    ensures
        c.timestamps matches Some(raw) ==> (timestamp_style(c.timestamps) == TimestampStyle::Relative
            ==> compared(raw) == "relative"@),
        c.statusbar matches Some(raw) ==> (statusbar_mode(c.statusbar) == StatusBarMode::Truncate
            ==> compared(raw) == "truncate"@),
{
}

/// Every setting comes from its own place and no other: the environment's where that says
/// something of it, else the file's, else the default. A number in the environment that is
/// none is passed over.
pub proof fn law_every_setting_comes_from_its_own_place(
    file: Option<UiFileConfig<Seq<char>>>,
    env: UiEnv<Seq<char>>,
    n: u64,
)
    ensures
        ({
            let c = resolved(file, env);
            &&& c.theme == (match (env.theme, file) {
                (Some(v), _) => Some(v),
                (None, Some(f)) => f.theme,
                (None, None) => None,
            })
            &&& c.icons == (match (env.icons, file) {
                (Some(v), _) => Some(v),
                (None, Some(f)) => f.icons,
                (None, None) => None,
            })
            &&& c.timestamps == (match (env.timestamps, file) {
                (Some(v), _) => Some(v),
                (None, Some(f)) => f.timestamps,
                (None, None) => None,
            })
            &&& c.statusbar == (match (env.statusbar, file) {
                (Some(v), _) => Some(v),
                (None, Some(f)) => f.statusbar,
                (None, None) => None,
            })
            &&& c.bell == (match (env.bell, file) {
                (Some(v), _) => v,
                (None, Some(f)) => (match f.bell {
                    Some(v) => v,
                    None => true,
                }),
                (None, None) => true,
            })
            &&& c.auto_resume == (match (env.auto_resume, file) {
                (Some(v), _) => v,
                (None, Some(f)) => (match f.auto_resume {
                    Some(v) => v,
                    None => true,
                }),
                (None, None) => true,
            })
            &&& c.show_thinking == (match (env.show_thinking, file) {
                (Some(v), _) => v,
                (None, Some(f)) => (match f.show_thinking {
                    Some(v) => v,
                    None => true,
                }),
                (None, None) => true,
            })
            &&& c.vim_mode == (match file {
                Some(f) => (match f.vim {
                    Some(v) => v,
                    None => false,
                }),
                None => false,
            })
            &&& env.todo_ttl == Some(text::decimal(n as nat)) ==> c.todo_ttl == n
            &&& env.todo_ttl is None ==> (file matches Some(f) ==> (f.todo_ttl matches Some(t)
                ==> c.todo_ttl == t))
            &&& n <= usize::MAX && env.scrollback == Some(text::decimal(n as nat))
                ==> c.scrollback == n
            &&& env.scrollback is None ==> (file matches Some(f) ==> (f.scrollback matches Some(s)
                ==> c.scrollback == s))
        }),
{
    text::law_decimal_reads_back(n as nat, u64::MAX as nat);
    if n <= usize::MAX {
        text::law_decimal_reads_back(n as nat, usize::MAX as nat);
    }
}

/// The values, letter by letter.
proof fn lemma_values()
    ensures
        "none"@.len() == 4,
        "none"@ == seq!['n', 'o', 'n', 'e'],
        "off"@.len() == 3,
        "off"@ == seq!['o', 'f', 'f'],
        "hidden"@.len() == 6,
        "hidden"@ == seq!['h', 'i', 'd', 'd', 'e', 'n'],
        "false"@.len() == 5,
        "false"@ == seq!['f', 'a', 'l', 's', 'e'],
        "0"@.len() == 1,
        "0"@ == seq!['0'],
        "relative"@.len() == 8,
        "relative"@ == seq!['r', 'e', 'l', 'a', 't', 'i', 'v', 'e'],
        "exact"@.len() == 5,
        "exact"@ == seq!['e', 'x', 'a', 'c', 't'],
        "absolute"@.len() == 8,
        "absolute"@ == seq!['a', 'b', 's', 'o', 'l', 'u', 't', 'e'],
        "abs"@.len() == 3,
        "abs"@ == seq!['a', 'b', 's'],
        "truncate"@.len() == 8,
        "truncate"@ == seq!['t', 'r', 'u', 'n', 'c', 'a', 't', 'e'],
        "wrap"@.len() == 4,
        "wrap"@ == seq!['w', 'r', 'a', 'p'],
        "nerd"@.len() == 4,
        "nerd"@ == seq!['n', 'e', 'r', 'd'],
        "unicode"@.len() == 7,
        "unicode"@ == seq!['u', 'n', 'i', 'c', 'o', 'd', 'e'],
        "ascii"@.len() == 5,
        "ascii"@ == seq!['a', 's', 'c', 'i', 'i'],
        "icons"@.len() == 5,
        "icons"@ == seq!['i', 'c', 'o', 'n', 's'],
        "timestamps"@.len() == 10,
        "timestamps"@ == seq!['t', 'i', 'm', 'e', 's', 't', 'a', 'm', 'p', 's'],
        "statusbar"@.len() == 9,
        "statusbar"@ == seq!['s', 't', 'a', 't', 'u', 's', 'b', 'a', 'r'],
{
    reveal_strlit("none");
    reveal_strlit("off");
    reveal_strlit("hidden");
    reveal_strlit("false");
    reveal_strlit("0");
    reveal_strlit("relative");
    reveal_strlit("exact");
    reveal_strlit("absolute");
    reveal_strlit("abs");
    reveal_strlit("truncate");
    reveal_strlit("wrap");
    reveal_strlit("nerd");
    reveal_strlit("unicode");
    reveal_strlit("ascii");
    reveal_strlit("icons");
    reveal_strlit("timestamps");
    reveal_strlit("statusbar");
    assert("none"@ =~= seq!['n', 'o', 'n', 'e']);
    assert("off"@ =~= seq!['o', 'f', 'f']);
    assert("hidden"@ =~= seq!['h', 'i', 'd', 'd', 'e', 'n']);
    assert("false"@ =~= seq!['f', 'a', 'l', 's', 'e']);
    assert("0"@ =~= seq!['0']);
    assert("relative"@ =~= seq!['r', 'e', 'l', 'a', 't', 'i', 'v', 'e']);
    assert("exact"@ =~= seq!['e', 'x', 'a', 'c', 't']);
    assert("absolute"@ =~= seq!['a', 'b', 's', 'o', 'l', 'u', 't', 'e']);
    assert("abs"@ =~= seq!['a', 'b', 's']);
    assert("truncate"@ =~= seq!['t', 'r', 'u', 'n', 'c', 'a', 't', 'e']);
    assert("wrap"@ =~= seq!['w', 'r', 'a', 'p']);
    assert("nerd"@ =~= seq!['n', 'e', 'r', 'd']);
    assert("unicode"@ =~= seq!['u', 'n', 'i', 'c', 'o', 'd', 'e']);
    assert("ascii"@ =~= seq!['a', 's', 'c', 'i', 'i']);
    assert("icons"@ =~= seq!['i', 'c', 'o', 'n', 's']);
    assert("timestamps"@ =~= seq!['t', 'i', 'm', 'e', 's', 't', 'a', 'm', 'p', 's']);
    assert("statusbar"@ =~= seq!['s', 't', 'a', 't', 'u', 's', 'b', 'a', 'r']);
}

/// A value is complained of exactly where it names nothing, by the setting that has it and
/// as it was written; neither the case of its letters nor white space around it matters.
#[verifier::rlimit(40)]
pub proof fn law_only_unknown_values_are_complained_of(
    raw: Seq<char>,
    good: spec_fn(Seq<char>) -> bool,
    field: Seq<char>,
    options: Seq<char>,
    other: Seq<char>,
)
    ensures
        complaint(None, good, field, options).len() == 0,
        good(text::lower(text::trim(raw))) ==> complaint(Some(raw), good, field, options).len() == 0,
        !good(text::lower(text::trim(raw))) ==> complaint(Some(raw), good, field, options).len() == 1
            && text::contains(complaint(Some(raw), good, field, options)[0], raw)
            && text::starts_with(complaint(Some(raw), good, field, options)[0], field)
            && text::contains(complaint(Some(raw), good, field, options)[0], options),
        text::lower(text::trim(raw)) == text::lower(text::trim(other)) ==> timestamp_style(Some(raw))
            == timestamp_style(Some(other)) && statusbar_mode(Some(raw)) == statusbar_mode(
            Some(other),
        ),
{
    let before = field + " = \""@;
    let named = before + raw;
    let asked = named + "\" is not a known value (valid: "@;
    let listed = asked + options;
    let t = listed + "); using the default"@;
    text::lemma_holds_itself(raw);
    text::lemma_holds_itself(options);
    text::lemma_sum_holds(before, raw, raw);
    text::lemma_sum_holds(named, "\" is not a known value (valid: "@, raw);
    text::lemma_sum_holds(asked, options, raw);
    text::lemma_sum_holds(listed, "); using the default"@, raw);
    text::lemma_sum_holds(asked, options, options);
    text::lemma_sum_holds(listed, "); using the default"@, options);
    assert(t == unknown_value(field, raw, options));
    assert(t.take(field.len() as int) =~= field);
}

/// The values that are known to each setting are those under which a style, a mode or an
/// icon set is stored, and the ones that say to show nothing: none of them is complained
/// of.
pub proof fn law_stored_values_are_not_complained_of(c: UiConfig<Seq<char>>)
    requires
        c.timestamps matches Some(t) ==> exists|s: TimestampStyle| #[trigger] s.name() == t,
        c.statusbar matches Some(t) ==> exists|m: StatusBarMode| #[trigger] m.name() == t,
        c.icons is None,
    ensures
        complaints(c).len() == 0,
{
    lemma_values();
    if let Some(t) = c.timestamps {
        let s = choose|s: TimestampStyle| #[trigger] s.name() == t;
        text::lemma_plain("none"@);
        text::lemma_plain("relative"@);
        text::lemma_plain("exact"@);
        assert(is_timestamp_style(compared(t)));
    }
    if let Some(t) = c.statusbar {
        let m = choose|m: StatusBarMode| #[trigger] m.name() == t;
        text::lemma_plain("none"@);
        text::lemma_plain("truncate"@);
        text::lemma_plain("wrap"@);
        assert(is_statusbar_mode(compared(t)));
    }
}

/// Every word for a style or a mode is read as that style or mode, whatever the case of
/// its letters and the white space around it; any other is read as the default.
pub proof fn law_every_word_for_a_style_is_read(raw: Seq<char>)
    ensures
        ({
            let v = text::lower(text::trim(raw));
            let style = timestamp_style(Some(raw));
            let mode = statusbar_mode(Some(raw));
            &&& v == "none"@ || v == "off"@ || v == "hidden"@ ==> style == TimestampStyle::Hidden && mode
                == StatusBarMode::Hidden
            &&& v == "false"@ || v == "0"@ ==> style == TimestampStyle::Hidden
            &&& v == "exact"@ || v == "absolute"@ || v == "abs"@ ==> style == TimestampStyle::Exact
            &&& v == "relative"@ ==> style == TimestampStyle::Relative
            &&& v == "wrap"@ ==> mode == StatusBarMode::Wrap
            &&& v == "truncate"@ ==> mode == StatusBarMode::Truncate
            &&& v.len() == 0 ==> style == TimestampStyle::Relative && mode == StatusBarMode::Truncate
        }),
        timestamp_style(None) == TimestampStyle::Relative,
        statusbar_mode(None) == StatusBarMode::Truncate,
{
    lemma_values();
}

} // verus!
