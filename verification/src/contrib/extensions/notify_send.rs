//! Notifications with the notify-send program: the arguments it is run with.
use vstd::prelude::*;
use vstd::string::StringExecFns;

use crate::{decimal_string, decimal_text, error_text, Error};

verus! {

/// A notification level when calling notify-send
///
/// The effect of this on the generated notification will depend on the notification
/// daemon that you are using.
#[derive(Debug, Copy, Clone, PartialEq, Eq, Hash, PartialOrd, Ord, Structural)]
pub enum NotifyLevel {
    /// Low priority
    Low,
    /// Normal priority
    Normal,
    /// Critical / high priority
    Critical,
}

/// The name notify-send knows a level by.
pub open spec fn level_text(level: NotifyLevel) -> Seq<char> {
    match level {
        NotifyLevel::Low => "low"@,
        NotifyLevel::Normal => "normal"@,
        NotifyLevel::Critical => "critical"@,
    }
}

impl NotifyLevel {
    /// The name notify-send knows this level by.
    pub fn as_text(&self) -> (r: &'static str)
        ensures
            r@ == level_text(*self),
    {
        match self {
            NotifyLevel::Low => "low",
            NotifyLevel::Normal => "normal",
            NotifyLevel::Critical => "critical",
        }
    }
}

/// Notification configuration
#[derive(Debug, Clone, Copy)]
pub struct NotifyConfig {
    /// The urgency level of the generated notification
    pub level: NotifyLevel,
    /// Duration in milliseconds that the notification should be displayed for
    pub duration: usize,
}

impl Default for NotifyConfig {
    fn default() -> (r: Self)
        ensures
            r.level == NotifyLevel::Normal,
            r.duration == 5000,
    {
        Self { level: NotifyLevel::Normal, duration: 5000 }
    }
}

/// The arguments of notify-send for a notification: the level, the duration, the
/// title and the body.
pub open spec fn notify_args_text(title: Seq<char>, body: Seq<char>, config: NotifyConfig) -> Seq<Seq<char>> {
    seq!["-u"@, level_text(config.level), "-t"@, decimal_text(config.duration as nat), title, body]
}

/// The arguments to run notify-send with to show `body` under `title`.
pub fn notify_send_args(title: String, body: String, config: NotifyConfig) -> (r: Vec<String>)
    ensures
        r@.map_values(|s: String| s@) == notify_args_text(title@, body@, config),
{
    let mut args: Vec<String> = Vec::new();
    args.push("-u".to_owned());
    args.push(config.level.as_text().to_owned());
    args.push("-t".to_owned());
    args.push(decimal_string(config.duration));
    args.push(title);
    args.push(body);
    assert(args@.map_values(|s: String| s@) =~= notify_args_text(title@, body@, config));
    args
}

/// The arguments to run notify-send with to show an unhandled error: critical, for
/// ten seconds.
pub fn error_notification_args(e: &Error) -> (r: Vec<String>)
    ensures
        r@.map_values(|s: String| s@) == notify_args_text(
            "Unhandled Error"@,
            error_text(*e),
            NotifyConfig { level: NotifyLevel::Critical, duration: 10000 },
        ),
{
    notify_send_args(
        "Unhandled Error".to_owned(),
        e.message(),
        NotifyConfig { level: NotifyLevel::Critical, duration: 10000 },
    )
}

} // verus!
