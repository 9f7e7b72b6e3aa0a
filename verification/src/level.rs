use vstd::prelude::*;

verus! {

/// Severity level of a log entry.
///
/// Variants are ordered by severity: `Error` is the most severe and `Trace`
/// the least. A level threshold keeps every entry whose level is at most as
/// verbose as the threshold.
#[derive(Debug, Clone, Copy, PartialEq, Eq, Structural, PartialOrd, Ord, Hash)]
pub enum LogLevel {
    /// Error conditions that usually require immediate attention.
    Error,
    /// Warning conditions that may need investigation.
    Warn,
    /// Normal operational information.
    Info,
    /// Verbose diagnostic information for development.
    Debug,
    /// The most detailed diagnostic information.
    Trace,
}

impl LogLevel {
    /// Position of the level in the severity order: 0 for `Error`, 4 for `Trace`.
    pub open spec fn rank(self) -> nat {
        match self {
            LogLevel::Error => 0,
            LogLevel::Warn => 1,
            LogLevel::Info => 2,
            LogLevel::Debug => 3,
            LogLevel::Trace => 4,
        }
    }

    /// The upper-case name of the level.
    pub open spec fn name(self) -> Seq<char> {
        match self {
            LogLevel::Error => seq!['E', 'R', 'R', 'O', 'R'],
            LogLevel::Warn => seq!['W', 'A', 'R', 'N'],
            LogLevel::Info => seq!['I', 'N', 'F', 'O'],
            LogLevel::Debug => seq!['D', 'E', 'B', 'U', 'G'],
            LogLevel::Trace => seq!['T', 'R', 'A', 'C', 'E'],
        }
    }

    /// The ANSI color code used for the level when colors are on.
    pub open spec fn color_code(self) -> Seq<char> {
        match self {
            LogLevel::Error => seq!['3', '1'],
            LogLevel::Warn => seq!['3', '3'],
            LogLevel::Info => seq!['3', '2'],
            LogLevel::Debug => seq!['3', '4'],
            LogLevel::Trace => seq!['3', '6'],
        }
    }

    /// The position of the level in the severity order (0 for `Error`).
    pub fn severity(&self) -> (r: u8)
        ensures
            r == self.rank(),
    {
        match self {
            LogLevel::Error => 0,
            LogLevel::Warn => 1,
            LogLevel::Info => 2,
            LogLevel::Debug => 3,
            LogLevel::Trace => 4,
        }
    }

    /// Whether `self` passes the threshold `max`: it is at least as severe.
    pub fn is_within(&self, max: LogLevel) -> (r: bool)
        ensures
            r == (self.rank() <= max.rank()),
    {
        self.severity() <= max.severity()
    }

    /// The upper-case name of the level, as it appears in rendered lines.
    pub fn as_str(&self) -> (r: &'static str)
        ensures
            r@ == self.name(),
    {
        match self {
            LogLevel::Error => {
                proof {
                    reveal_strlit("ERROR");
                }
                "ERROR"
            },
            LogLevel::Warn => {
                proof {
                    reveal_strlit("WARN");
                }
                "WARN"
            },
            LogLevel::Info => {
                proof {
                    reveal_strlit("INFO");
                }
                "INFO"
            },
            LogLevel::Debug => {
                proof {
                    reveal_strlit("DEBUG");
                }
                "DEBUG"
            },
            LogLevel::Trace => {
                proof {
                    reveal_strlit("TRACE");
                }
                "TRACE"
            },
        }
    }

    /// The ANSI color code of the level (red, yellow, green, blue, cyan).
    pub fn ansi_color(&self) -> (r: &'static str)
        ensures
            r@ == self.color_code(),
    {
        match self {
            LogLevel::Error => {
                proof {
                    reveal_strlit("31");
                }
                "31"
            },
            LogLevel::Warn => {
                proof {
                    reveal_strlit("33");
                }
                "33"
            },
            LogLevel::Info => {
                proof {
                    reveal_strlit("32");
                }
                "32"
            },
            LogLevel::Debug => {
                proof {
                    reveal_strlit("34");
                }
                "34"
            },
            LogLevel::Trace => {
                proof {
                    reveal_strlit("36");
                }
                "36"
            },
        }
    }
}

/// The severity order is total: any two levels are comparable, and two levels
/// of equal rank are the same level.
pub proof fn severity_order_is_total(a: LogLevel, b: LogLevel)
    ensures
        a.rank() <= b.rank() || b.rank() <= a.rank(),
        a.rank() == b.rank() ==> a == b,
{
}

/// Severity follows the declared order of the levels: `Error` is the most
/// severe (rank 0), then `Warn`, `Info`, `Debug`, and `Trace` the least (rank
/// 4). A threshold passes exactly the levels declared at or before it.
pub proof fn severity_follows_declared_order()
    ensures
        LogLevel::Error.rank() == 0,
        LogLevel::Warn.rank() == 1,
        LogLevel::Info.rank() == 2,
        LogLevel::Debug.rank() == 3,
        LogLevel::Trace.rank() == 4,
        LogLevel::Error.rank() < LogLevel::Warn.rank(),
        LogLevel::Warn.rank() < LogLevel::Info.rank(),
        LogLevel::Info.rank() < LogLevel::Debug.rank(),
        LogLevel::Debug.rank() < LogLevel::Trace.rank(),
        forall|a: LogLevel| #[trigger] a.rank() <= LogLevel::Info.rank() <==> (a == LogLevel::Error || a
            == LogLevel::Warn || a == LogLevel::Info),
        forall|a: LogLevel| #[trigger] a.rank() <= LogLevel::Warn.rank() <==> (a == LogLevel::Error || a
            == LogLevel::Warn),
{
}

} // verus!
