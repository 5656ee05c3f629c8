//! Settings and line format of the panel's own log file.

use vstd::prelude::*;
use vstd::string::StringExecFns;
use crate::text::{
    chars_eq_str, chars_of, decimal, decimal_string, lower, lower_chars, replace_all, replace_chars,
    string_of, trim, trim_chars, trimmed, upper, upper_chars,
};

verus! {

/// The setting under which the log settings are stored.
pub const SETTING_KEY: &'static str = "system_log_config";

/// How much the panel logs to its file, how big the file may grow, how many rotated copies
/// are kept, and the line format.
#[derive(Debug, Clone)]
pub struct SystemLogConfig {
    pub debug_mode: bool,
    pub level: String,
    pub max_size_mb: u64,
    pub max_backups: u64,
    pub format: String,
}

pub open spec fn default_format_spec() -> Seq<char> {
    "[%(levelname)s] %(asctime)s - %(message)s"@
}

pub fn default_log_level() -> (r: String)
    ensures
        r@ == "info"@,
{
    String::from_str("info")
}

pub fn default_max_size_mb() -> (r: u64)
    ensures
        r == 5,
{
    5
}

pub fn default_max_backups() -> (r: u64)
    ensures
        r == 10,
{
    10
}

pub fn default_format() -> (r: String)
    ensures
        r@ == default_format_spec(),
{
    String::from_str("[%(levelname)s] %(asctime)s - %(message)s")
}

impl SystemLogConfig {
    /// Level `info`, 5 MB files, 10 backups, the default format, no debug mode.
    pub fn default_config() -> (r: Self)
        ensures
            !r.debug_mode,
            r.level@ == "info"@,
            r.max_size_mb == 5,
            r.max_backups == 10,
            r.format@ == default_format_spec(),
    {
        SystemLogConfig {
            debug_mode: false,
            level: default_log_level(),
            max_size_mb: default_max_size_mb(),
            max_backups: default_max_backups(),
            format: default_format(),
        }
    }
}

impl Default for SystemLogConfig {
    fn default() -> (r: Self)
        ensures
            !r.debug_mode,
            r.level@ == "info"@,
            r.max_size_mb == 5,
            r.max_backups == 10,
            r.format@ == default_format_spec(),
    {
        SystemLogConfig::default_config()
    }
}

/// The level a configured level name stands for.
pub open spec fn normalize_level_spec(level: Seq<char>) -> Seq<char> {
    let l = lower(trim(level));
    if l == "debug"@ {
        "debug"@
    } else if l == "warn"@ || l == "warning"@ {
        "warning"@
    } else if l == "error"@ {
        "error"@
    } else if l == "critical"@ {
        "critical"@
    } else {
        "info"@
    }
}

/// `debug`, `warning`, `error`, `critical` or `info` (the fallback); `warn` means `warning`.
pub fn normalize_level(level: &str) -> (r: String)
    ensures
        r@ == normalize_level_spec(level@),
{
    let t = trimmed(level);
    let l = lower_chars(&t);
    if chars_eq_str(&l, "debug") {
        String::from_str("debug")
    } else if chars_eq_str(&l, "warn") || chars_eq_str(&l, "warning") {
        String::from_str("warning")
    } else if chars_eq_str(&l, "error") {
        String::from_str("error")
    } else if chars_eq_str(&l, "critical") {
        String::from_str("critical")
    } else {
        String::from_str("info")
    }
}

/// The weight of a level: debug 10, info 20, warning (or warn) 30, error 40, critical 50;
/// unknown levels weigh as info.
pub open spec fn level_weight_spec(level: Seq<char>) -> u8 {
    let l = lower(trim(level));
    if l == "debug"@ {
        10
    } else if l == "warn"@ || l == "warning"@ {
        30
    } else if l == "error"@ {
        40
    } else if l == "critical"@ {
        50
    } else {
        20
    }
}

pub fn level_weight(level: &str) -> (r: u8)
    ensures
        r == level_weight_spec(level@),
{
    let t = trimmed(level);
    let l = lower_chars(&t);
    if chars_eq_str(&l, "debug") {
        10
    } else if chars_eq_str(&l, "warn") || chars_eq_str(&l, "warning") {
        30
    } else if chars_eq_str(&l, "error") {
        40
    } else if chars_eq_str(&l, "critical") {
        50
    } else {
        20
    }
}

/// A line of `level` is written when the level weighs at least as much as the configured one.
pub fn level_enabled(level: &str, config: &SystemLogConfig) -> (r: bool)
    ensures
        r == (level_weight_spec(level@) >= level_weight_spec(config.level@)),
{
    level_weight(level) >= level_weight(config.level.as_str())
}

pub open spec fn clamp_u64_spec(v: u64, lo: u64, hi: u64) -> u64 {
    if v < lo {
        lo
    } else if v > hi {
        hi
    } else {
        v
    }
}

/// The settings made usable: the level normalized, the size clamped to 1–1024 MB, the
/// backups to 1–99, a blank format replaced by the default, debug mode on exactly at level
/// `debug`.
pub fn normalize_config(config: SystemLogConfig) -> (r: SystemLogConfig)
    ensures
        r.level@ == normalize_level_spec(config.level@),
        r.max_size_mb == clamp_u64_spec(config.max_size_mb, 1, 1024),
        r.max_backups == clamp_u64_spec(config.max_backups, 1, 99),
        r.format@ == if trim(config.format@).len() == 0 {
            default_format_spec()
        } else {
            config.format@
        },
        r.debug_mode == (r.level@ == "debug"@),
{
    let mut config = config;
    config.level = normalize_level(config.level.as_str());
    config.max_size_mb = if config.max_size_mb < 1 {
        1
    } else if config.max_size_mb > 1024 {
        1024
    } else {
        config.max_size_mb
    };
    config.max_backups = if config.max_backups < 1 {
        1
    } else if config.max_backups > 99 {
        99
    } else {
        config.max_backups
    };
    if trimmed(config.format.as_str()).len() == 0 {
        config.format = default_format();
    }
    config.debug_mode = crate::client_control::str_eq_lit(&config.level, "debug");
    config
}

/// The path of the `index`th rotated copy of the log at `path`: `path.index`.
pub fn backup_path(path: &str, index: u64) -> (r: String)
    ensures
        r@ == path@ + "."@ + decimal(index as nat),
{
    let mut r = String::from_str(path);
    r.append(".");
    let n = decimal_string(index);
    r.append(n.as_str());
    r
}

/// A log line from the format: the level upper-cased, the time `asctime` and the message
/// and detail joined by a space and trimmed put in place of their placeholders, one after
/// the other.
pub open spec fn render_line_spec(
    format: Seq<char>,
    level: Seq<char>,
    asctime: Seq<char>,
    message: Seq<char>,
    detail: Seq<char>,
) -> Seq<char> {
    let a = replace_all(format, "%(levelname)s"@, upper(level));
    let b = replace_all(a, "%(asctime)s"@, asctime);
    replace_all(b, "%(message)s"@, trim(message + " "@ + detail))
}

/// Renders a log line at the time `asctime` (see [`render_line_spec`]).
pub fn render_line(config: &SystemLogConfig, level: &str, message: &str, detail: &str, asctime: &str) -> (r:
    String)
    ensures
        r@ == render_line_spec(config.format@, level@, asctime@, message@, detail@),
{
    proof {
        reveal_strlit("%(levelname)s");
        reveal_strlit("%(asctime)s");
        reveal_strlit("%(message)s");
    }
    let format = chars_of(config.format.as_str());
    let lv = chars_of(level);
    let up = upper_chars(&lv);
    let p1 = chars_of("%(levelname)s");
    let a = replace_chars(&format, &p1, &up);
    let p2 = chars_of("%(asctime)s");
    let t = chars_of(asctime);
    let b = replace_chars(&a, &p2, &t);
    let mut m = String::from_str(message);
    m.append(" ");
    m.append(detail);
    let mv = trimmed(m.as_str());
    let p3 = chars_of("%(message)s");
    let c = replace_chars(&b, &p3, &mv);
    string_of(&c)
}

/// Whether the log file has reached its size limit: `max(1, max_size_mb)` MiB.
pub fn rotation_due(config: &SystemLogConfig, size: u64) -> (r: bool)
    ensures
        r == (size as int >= (if config.max_size_mb < 1 {
            1
        } else {
            config.max_size_mb as int
        }) * 1048576),
{
    let mb: u128 = if config.max_size_mb < 1 {
        1
    } else {
        config.max_size_mb as u128
    };
    (size as u128) >= mb * 1048576
}


/// One step of rotating the log files.
#[derive(Debug, Clone, Copy, PartialEq, Eq, Structural)]
pub enum RotationStep {
    /// Remove the `n`th rotated copy, if it exists.
    Remove(u64),
    /// Rename the `n`th rotated copy, if it exists, to the `n + 1`th.
    Shift(u64),
    /// Rename the live log, if it exists, to the first rotated copy.
    ShiftLive,
}

/// The backups kept: `max_backups` held between 1 and 99.
pub open spec fn kept_backups(max_backups: u64) -> int {
    if max_backups < 1 {
        1
    } else if max_backups > 99 {
        99
    } else {
        max_backups as int
    }
}

/// The steps of a rotation, in order: the oldest kept copy is removed, every other copy
/// moves one place up, newest last, and the live log becomes the first copy.
pub open spec fn rotation_steps_spec(max_backups: u64) -> Seq<RotationStep> {
    let n = kept_backups(max_backups);
    Seq::new((n + 1) as nat, |k: int| if k == 0 {
        RotationStep::Remove(n as u64)
    } else if k < n {
        RotationStep::Shift((n - k) as u64)
    } else {
        RotationStep::ShiftLive
    })
}

/// The steps that rotate the log files, keeping at most `max_backups` copies (1 to 99).
pub fn rotation_steps(max_backups: u64) -> (r: Vec<RotationStep>)
    ensures
        r@ == rotation_steps_spec(max_backups),
{
    let n: u64 = if max_backups < 1 {
        1
    } else if max_backups > 99 {
        99
    } else {
        max_backups
    };
    let mut steps: Vec<RotationStep> = Vec::new();
    steps.push(RotationStep::Remove(n));
    let mut index: u64 = n;
    while index > 1
        invariant
            1 <= index <= n,
            n == kept_backups(max_backups),
            steps@.len() == n - index + 1,
            forall|k: int|
                0 <= k < steps@.len() ==> #[trigger] steps@[k] == rotation_steps_spec(max_backups)[k],
        decreases index,
    {
        index = index - 1;
        steps.push(RotationStep::Shift(index));
    }
    steps.push(RotationStep::ShiftLive);
    assert(steps@ =~= rotation_steps_spec(max_backups));
    steps
}

/// The size the log file is counted at after a line of `written` bytes went in, saturating.
pub fn size_after_write(size: u64, written: usize) -> (r: u64)
    ensures
        r == if size + written > u64::MAX {
            u64::MAX as int
        } else {
            size + written
        },
{
    if written as u128 > (u64::MAX - size) as u128 {
        u64::MAX
    } else {
        size + written as u64
    }
}

} // verus!
