use super::level::{severity, Level};
use vstd::prelude::*;

verus! {

/// I/O errors as `std::io` reports them; carried through, never inspected.
#[verifier::external_type_specification]
#[verifier::external_body]
pub struct ExIoError(std::io::Error);

/// A destination for log records. Implement it to create a custom logger.
pub trait Logger {
    /// Whether writing `msg` at `level` may take the logger from `before` to
    /// `after` with the result `r`. A logger states here what its writes do;
    /// one that states nothing promises nothing.
    open spec fn writes(before: &Self, after: &Self, msg: Seq<char>, level: Level, r: std::io::Result<()>) -> bool {
        true
    }

    /// Emits `msg` with the given severity.
    fn write(&mut self, msg: String, level: Level) -> (r: std::io::Result<()>)
        ensures
            Self::writes(old(self), final(self), msg@, level, r),
    ;

    /// Clears whatever the logger has emitted; by default there is nothing to
    /// clear, the logger is left as it is and the result is `Ok`.
    fn clear(&mut self) -> (r: std::io::Result<()>)
        default_ensures
            r is Ok,
            &*final(self) == &*old(self),
    {
        Ok(())
    }

    /// Emits `msg` at level `Log`: a write at that level.
    fn log(&mut self, msg: String) -> (r: std::io::Result<()>)
        ensures
            Self::writes(old(self), final(self), msg@, Level::Log, r),
    {
        self.write(msg, Level::Log)
    }

    /// Emits `msg` at level `Error`: a write at that level.
    fn error(&mut self, msg: String) -> (r: std::io::Result<()>)
        ensures
            Self::writes(old(self), final(self), msg@, Level::Error, r),
    {
        self.write(msg, Level::Error)
    }

    /// Emits `msg` at level `Warning`: a write at that level.
    fn warn(&mut self, msg: String) -> (r: std::io::Result<()>)
        ensures
            Self::writes(old(self), final(self), msg@, Level::Warning, r),
    {
        self.write(msg, Level::Warning)
    }
}

/// The logging state: the installed logger, if any, and the level below which
/// records are dropped. `forwarded` lists, in order, the records that were
/// passed on to the installed logger's `write`.
pub struct LogState<L> {
    logger: Option<L>,
    level: Level,
    forwarded: Ghost<Seq<(Seq<char>, Level)>>,
}

impl<L> LogState<L> {
    /// The level below which records are dropped.
    pub closed spec fn threshold(&self) -> Level {
        self.level
    }

    /// The installed logger.
    pub closed spec fn installed(&self) -> Option<L> {
        self.logger
    }

    /// The records passed on to the installed logger's `write` so far, oldest first.
    pub closed spec fn forwarded(&self) -> Seq<(Seq<char>, Level)> {
        self.forwarded@
    }

    /// A state with no logger, the threshold at `Log`, and nothing forwarded.
    pub fn new() -> (s: Self)
        ensures
            s.threshold() == Level::Log,
            s.installed() is None,
            s.forwarded() == Seq::<(Seq<char>, Level)>::empty(),
    {
        LogState { logger: None, level: Level::Log, forwarded: Ghost(Seq::empty()) }
    }

    /// The current threshold.
    pub fn level(&self) -> (l: Level)
        ensures
            l == self.threshold(),
    {
        self.level
    }

    /// The installed logger, if any.
    pub fn logger(&self) -> (l: Option<&L>)
        ensures
            l == (match self.installed() {
                Some(x) => Some(&x),
                None => None::<&L>,
            }),
    {
        self.logger.as_ref()
    }
}

/// Whether a record of severity `level` is handed to the logger of `s`:
/// a logger is installed and `level` is not below the threshold.
pub open spec fn forwards<L>(s: LogState<L>, level: Level) -> bool {
    &&& s.installed() is Some
    &&& severity(s.threshold()) <= severity(level)
}

/// `s` with `l` installed as its logger, in place of any earlier one.
pub closed spec fn with_logger<L>(s: LogState<L>, l: L) -> LogState<L> {
    LogState { logger: Some(l), ..s }
}

/// `s` with its threshold set to `level`.
pub closed spec fn with_threshold<L>(s: LogState<L>, level: Level) -> LogState<L> {
    LogState { level, ..s }
}

/// Installs `new_logger`, replacing the logger installed before, if any.
pub fn set_logger<L: Logger>(out: &mut LogState<L>, new_logger: L)
    ensures
        *final(out) == with_logger(*old(out), new_logger),
        final(out).installed() == Some(new_logger),
        final(out).threshold() == old(out).threshold(),
        final(out).forwarded() == old(out).forwarded(),
{
    out.logger = Some(new_logger);
}

/// Sets the level below which records are dropped.
pub fn set_level<L>(out: &mut LogState<L>, level: Level)
    ensures
        *final(out) == with_threshold(*old(out), level),
        final(out).threshold() == level,
        final(out).installed() == old(out).installed(),
        final(out).forwarded() == old(out).forwarded(),
{
    out.level = level;
}

/// What writing `msg` at `level` may lead to from `before`: a record that is
/// not forwarded is dropped, with the result `Ok` and the state unchanged; a
/// forwarded one is written by the installed logger, whose new state and
/// result are those of its `write`, and is added to `forwarded`; the threshold
/// stays.
pub open spec fn write_post<L: Logger>(
    before: LogState<L>,
    after: LogState<L>,
    msg: Seq<char>,
    level: Level,
    r: std::io::Result<()>,
) -> bool {
    if forwards(before, level) {
        &&& after.installed() is Some
        &&& after.threshold() == before.threshold()
        &&& after.forwarded() == before.forwarded().push((msg, level))
        &&& L::writes(&before.installed()->0, &after.installed()->0, msg, level, r)
    } else {
        r is Ok && after == before
    }
}

/// Hands `msg` to the installed logger if `level` is not below the threshold,
/// and returns what the logger returned; otherwise drops it and returns `Ok`.
pub fn write<L: Logger>(out: &mut LogState<L>, msg: String, level: Level) -> (r: std::io::Result<()>)
    ensures
        write_post(*old(out), *final(out), msg@, level, r),
{
    if matches!(level.compare(&out.level), std::cmp::Ordering::Less) {
        return Ok(());
    }
    let ghost text = msg@;
    match &mut out.logger {
        Some(s) => {
            proof {
                out.forwarded@ = out.forwarded@.push((text, level));
            }
            s.write(msg, level)
        },
        None => Ok(()),
    }
}

/// Writes `msg` at level `Log`.
pub fn log_f<L: Logger>(out: &mut LogState<L>, msg: String) -> (r: std::io::Result<()>)
    ensures
        write_post(*old(out), *final(out), msg@, Level::Log, r),
{
    write(out, msg, Level::Log)
}

/// Writes `msg` at level `Warning`.
pub fn warn_f<L: Logger>(out: &mut LogState<L>, msg: String) -> (r: std::io::Result<()>)
    ensures
        write_post(*old(out), *final(out), msg@, Level::Warning, r),
{
    write(out, msg, Level::Warning)
}

/// Writes `msg` at level `Error`.
pub fn error_f<L: Logger>(out: &mut LogState<L>, msg: String) -> (r: std::io::Result<()>)
    ensures
        write_post(*old(out), *final(out), msg@, Level::Error, r),
{
    write(out, msg, Level::Error)
}

/// A record written right after a logger is installed is written by that
/// logger exactly when it is not below the threshold; then the result and the
/// logger's new state are those of its `write`.
pub proof fn lemma_installed_logger_writes<L: Logger>(
    s: LogState<L>,
    l: L,
    after: LogState<L>,
    msg: Seq<char>,
    level: Level,
    r: std::io::Result<()>,
)
    requires
        write_post(with_logger(s, l), after, msg, level, r),
    ensures
        forwards(with_logger(s, l), level) <==> severity(s.threshold()) <= severity(level),
        severity(s.threshold()) <= severity(level) ==> L::writes(&l, &after.installed()->0, msg, level, r),
        severity(level) < severity(s.threshold()) ==> r is Ok && after == with_logger(s, l),
{
}

/// Installing a logger replaces the one installed before: after two
/// installations the second logger is the installed one, and the state is as
/// if only the second had been installed.
pub proof fn lemma_last_logger_wins<L>(s: LogState<L>, a: L, b: L)
    ensures
        with_logger(with_logger(s, a), b) == with_logger(s, b),
        with_logger(with_logger(s, a), b).installed() == Some(b),
{
}

/// Setting the threshold twice leaves the second threshold, and the threshold
/// and the logger are set independently of each other.
pub proof fn lemma_threshold_and_logger_independent<L>(s: LogState<L>, l: L, a: Level, b: Level)
    ensures
        with_threshold(with_threshold(s, a), b) == with_threshold(s, b),
        with_threshold(with_logger(s, l), a) == with_logger(with_threshold(s, a), l),
{
}

/// Records below the threshold are never handed to the logger; with a logger
/// installed, every record at or above the threshold is.
pub proof fn lemma_filtering<L>(s: LogState<L>, level: Level)
    ensures
        severity(level) < severity(s.threshold()) ==> !forwards(s, level),
        s.installed() is Some && severity(s.threshold()) <= severity(level) ==> forwards(s, level),
        s.installed() is None ==> !forwards(s, level),
{
}

/// With a logger installed, errors always reach it, whatever the threshold,
/// and a record that reaches it would still reach it at a higher severity.
pub proof fn lemma_forwarding_monotonic<L>(s: LogState<L>, a: Level, b: Level)
    ensures
        s.installed() is Some ==> forwards(s, Level::Error),
        forwards(s, a) && severity(a) <= severity(b) ==> forwards(s, b),
{
}

/// After `set_level(level)` and `set_logger(l)`, in either order, a record is
/// handed to `l` exactly when its severity is at least `level`.
pub proof fn lemma_configured_forwarding<L>(s: LogState<L>, l: L, level: Level, r: Level)
    ensures
        forwards(with_logger(with_threshold(s, level), l), r) <==> severity(level) <= severity(r),
        forwards(with_threshold(with_logger(s, l), level), r) <==> severity(level) <= severity(r),
{
}

} // verus!
