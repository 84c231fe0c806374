//! Where this client writes what it did.

use crate::reading::{characters, number, read_number};
use crate::text::{joined, joined3};
use vstd::prelude::*;

verus! {

/// How many records the writer may hold before it drops any.
pub const QUEUE_CAPACITY: usize = 65_536;

/// Logging configuration.
#[derive(Debug, PartialEq)]
pub struct LogConfig {
    /// Directory for log files. `None` = console only.
    pub log_dir: Option<String>,
    /// Filter directive (e.g. `"info"`, `"ibkr_dx=debug,warn"`).
    pub level: Option<String>,
    /// Non-blocking channel capacity (records before dropping).
    pub queue_capacity: usize,
}

impl Default for LogConfig {
    fn default() -> (r: Self)
        ensures
            r == (LogConfig { log_dir: None, level: None, queue_capacity: 65_536 }),
    {
        LogConfig { log_dir: None, level: None, queue_capacity: QUEUE_CAPACITY }
    }
}

/// What a session's settings state about logging.
#[derive(Debug, PartialEq)]
pub struct LogSettings {
    pub log_dir: Option<String>,
    pub log_level: Option<String>,
    pub log_queue: Option<usize>,
}

/// The queue a text states: the default where it states no number.
pub open spec fn queue_stated(text: Option<Seq<char>>) -> nat {
    match text {
        Some(text) => match number(text, usize::MAX as nat) {
            Some(n) => n,
            None => 65_536,
        },
        None => 65_536,
    }
}

/// What is stated and not empty.
pub open spec fn named(stated: Option<String>) -> Option<String> {
    match stated {
        Some(text) => if text@.len() > 0 {
            stated
        } else {
            None
        },
        None => None,
    }
}

/// What is stated and not empty, or what stands otherwise.
pub open spec fn named_or(stated: Option<String>, otherwise: Option<String>) -> Option<String> {
    if named(stated) is Some {
        named(stated)
    } else {
        otherwise
    }
}

fn name_or(stated: &Option<String>, otherwise: Option<String>) -> (r: Option<String>)
    ensures
        r == named_or(*stated, otherwise),
{
    match stated {
        Some(text) => if text.as_str().unicode_len() > 0 {
            stated.clone()
        } else {
            otherwise
        },
        None => otherwise,
    }
}

impl LogConfig {
    /// The configuration the environment holds: the directory under
    /// `IBKR_DX_LOG_DIR`, the filter directive under `IBKR_DX_LOG_LEVEL` and
    /// the buffer's capacity under `IBKR_DX_LOG_QUEUE`, where they are set.
    pub fn from_env(
        log_dir: Option<String>,
        level: Option<String>,
        queue: Option<&str>,
    ) -> (r: Self)
        ensures
            r.log_dir == log_dir,
            r.level == level,
            r.queue_capacity == queue_stated(
                match queue {
                    Some(text) => Some(text@),
                    None => None,
                },
            ),
    {
        let queue_capacity: usize = match queue {
            Some(text) => match read_number(text, usize::MAX as u64) {
                Some(n) => n as usize,
                None => QUEUE_CAPACITY,
            },
            None => QUEUE_CAPACITY,
        };
        LogConfig { log_dir, level, queue_capacity }
    }

    /// The logging a caller stated, else what the environment holds.
    ///
    /// The same order every other setting resolves in: what the caller states
    /// wins over the environment, which wins over the default.
    pub fn stated(settings: &LogSettings, environment: LogConfig) -> (r: Self)
        ensures
            r.log_dir == named_or(settings.log_dir, environment.log_dir),
            r.level == named_or(settings.log_level, environment.level),
            r.queue_capacity == (match settings.log_queue {
                Some(n) => n,
                None => environment.queue_capacity,
            }),
    {
        LogConfig {
            log_dir: name_or(&settings.log_dir, environment.log_dir),
            level: name_or(&settings.log_level, environment.level),
            queue_capacity: match settings.log_queue {
                Some(n) => n,
                None => environment.queue_capacity,
            },
        }
    }
}

/// So many stars.
pub open spec fn stars(n: nat) -> Seq<char> {
    Seq::new(n, |i: int| '*')
}

/// An identifier as a log may carry it: nothing of one up to four characters,
/// and of a longer one its first two.
pub open spec fn hidden(identifier: Seq<char>) -> Seq<char> {
    if identifier.len() <= 4 {
        stars(identifier.len())
    } else {
        identifier.take(2) + stars((identifier.len() - 2) as nat)
    }
}

/// An account identifier as a log may carry it: enough to tell two logins apart
/// in a log, and no more.
pub fn redacted(identifier: &str) -> (text: String)
    ensures
        text@ == hidden(identifier@),
{
    let chars: Vec<char> = characters(identifier);
    let kept: usize = if chars.len() <= 4 {
        0
    } else {
        2
    };
    let mut text: String = String::new();
    let mut at: usize = 0;
    let ghost shown = Seq::new(
        identifier@.len(),
        |i: int|
            if i < kept {
                identifier@[i]
            } else {
                '*'
            },
    );
    while at < chars.len()
        invariant
            at <= chars@.len(),
            chars@ == identifier@,
            kept <= chars@.len(),
            shown == Seq::new(
                identifier@.len(),
                |i: int|
                    if i < kept {
                        identifier@[i]
                    } else {
                        '*'
                    },
            ),
            text@ == shown.take(at as int),
        decreases chars@.len() - at,
    {
        if at < kept {
            text.push(chars[at]);
        } else {
            text.push('*');
        }
        proof {
            assert(text@ =~= shown.take(at + 1));
        }
        at = at + 1;
    }
    proof {
        assert(shown.take(at as int) =~= shown);
        assert(shown =~= hidden(identifier@));
    }
    text
}

/// The names of the settings a session states, in the order they are named.
pub open spec fn names_stated(settings: LogSettings) -> Seq<Seq<char>> {
    let level = if settings.log_level is Some {
        seq!["log_level"@]
    } else {
        Seq::empty()
    };
    let dir = if settings.log_dir is Some {
        level.push("log_dir"@)
    } else {
        level
    };
    if settings.log_queue is Some {
        dir.push("log_queue"@)
    } else {
        dir
    }
}

/// Texts with a separator between them.
pub open spec fn listed(names: Seq<Seq<char>>) -> Seq<char>
    decreases names.len(),
{
    if names.len() == 0 {
        Seq::empty()
    } else if names.len() == 1 {
        names[0]
    } else {
        listed(names.drop_last()) + ", "@ + names.last()
    }
}

/// What is said of settings that came too late to be applied.
pub open spec fn too_late(names: Seq<Seq<char>>) -> Seq<char> {
    listed(names)
        + " stated after this process installed its logger, and a process has one: logging is settled before the first session opens, and this session runs under the logger that is already installed"@
}

fn list_name(list: &mut String, any: &mut bool, stated: bool, name: &str, names: Ghost<Seq<Seq<char>>>)
    requires
        *old(any) == (names@.len() > 0),
        old(list)@ == listed(names@),
    ensures
        *final(any) == (*old(any) || stated),
        final(list)@ == (if stated {
            listed(names@.push(name@))
        } else {
            listed(names@)
        }),
{
    if stated {
        let ghost all = names@.push(name@);
        proof {
            assert(all.drop_last() =~= names@);
        }
        if *any {
            *list = joined3(list.as_str(), ", ", name);
        } else {
            *list = name.to_owned();
        }
        *any = true;
    }
}

/// What a session's settings ask of the process's logger.
#[derive(Debug, PartialEq)]
pub enum Asked {
    /// Nothing: a program that installs its own logger keeps it.
    Nothing,
    /// To install it so, with what is said where one is installed already.
    Install { config: LogConfig, otherwise: String },
}

/// What a session's settings ask of the process's logger, as the session opens.
/// One that states none of the three asks for nothing. A process has one
/// logger, so what a session states later is named in a warning instead.
pub fn apply(settings: &LogSettings, environment: LogConfig) -> (asked: Asked)
    ensures
        if names_stated(*settings).len() == 0 {
            asked is Nothing
        } else {
            &&& asked matches Asked::Install { config, otherwise }
                && otherwise@ == too_late(names_stated(*settings)) && config.log_dir == named_or(
                settings.log_dir,
                environment.log_dir,
            ) && config.level == named_or(settings.log_level, environment.level)
                && config.queue_capacity == (match settings.log_queue {
                Some(n) => n,
                None => environment.queue_capacity,
            })
        },
{
    let mut list: String = String::new();
    let mut any: bool = false;
    let ghost mut names: Seq<Seq<char>> = Seq::empty();
    proof {
        assert(list@ =~= Seq::empty());
    }
    list_name(&mut list, &mut any, settings.log_level.is_some(), "log_level", Ghost(names));
    proof {
        if settings.log_level is Some {
            names = names.push("log_level"@);
        }
    }
    list_name(&mut list, &mut any, settings.log_dir.is_some(), "log_dir", Ghost(names));
    proof {
        if settings.log_dir is Some {
            names = names.push("log_dir"@);
        }
    }
    list_name(&mut list, &mut any, settings.log_queue.is_some(), "log_queue", Ghost(names));
    proof {
        if settings.log_queue is Some {
            names = names.push("log_queue"@);
        }
        assert(names =~= names_stated(*settings));
    }
    if !any {
        return Asked::Nothing;
    }
    let otherwise: String = joined(
        list.as_str(),
        " stated after this process installed its logger, and a process has one: logging is settled before the first session opens, and this session runs under the logger that is already installed",
    );
    Asked::Install { config: LogConfig::stated(settings, environment), otherwise }
}

/// What a log carries of an identifier is as long as the identifier.
pub proof fn a_log_tells_how_long_a_name_is(identifier: Seq<char>)
    ensures
        hidden(identifier).len() == identifier.len(),
{
}

/// Nothing past the first two characters of an identifier reaches a log.
pub proof fn a_log_carries_no_more_than_two_letters(identifier: Seq<char>, i: int)
    requires
        2 <= i < identifier.len(),
    ensures
        hidden(identifier)[i] == '*',
{
}

} // verus!
