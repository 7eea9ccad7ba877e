//! A dummy renderer ([`Logger`]) that just logs [`Command`]s without rendering anything.

use vstd::prelude::*;

use super::Renderer;
use crate::error;
use crate::font;
use crate::metrics;

verus! {

/// Enumeration of rendering commands.
#[derive(Debug, Eq, PartialEq)]
pub enum Command<FontId, FgId, BgId> {
    /// Represents a `write` command.
    Write(FontId, FgId, font::layout::String),
    /// Represents a `fill` command.
    Fill(metrics::Rect, BgId),
    /// Represents a `clear` command.
    Clear(BgId),
    /// Represents a `present` command.
    Present,
}

/// A renderer that just logs rendering commands, rather than executing them.
///
/// Useful for testing.
#[derive(Debug)]
pub struct Logger<FontId, FgId, BgId> {
    /// Log of commands requested on this renderer.
    pub log: Vec<Command<FontId, FgId, BgId>>,
}

/// The default logger has logged nothing.
impl<FontId, FgId, BgId> Default for Logger<FontId, FgId, BgId> {
    fn default() -> (logger: Self)
        ensures
            logger.log@.len() == 0,
    {
        Logger { log: Vec::new() }
    }
}

impl<FontId, FgId, BgId> Renderer<FontId, FgId, BgId> for Logger<FontId, FgId, BgId> {
    /// Logs a `write` command with a copy of `str`.
    fn write(&mut self, font: FontId, fg: FgId, str: &font::layout::String) -> (result:
        error::Result<()>)
        ensures
            result is Ok,
            final(self).log@.len() == old(self).log@.len() + 1,
            final(self).log@.drop_last() == old(self).log@,
            final(self).log@.last() matches Command::Write(logged_font, logged_fg, logged)
                && logged_font == font && logged_fg == fg && logged.string@ == str.string@
                && logged.bounds == str.bounds && logged.glyphs@ == str.glyphs@,
    {
        self.log.push(Command::Write(font, fg, str.clone()));
        proof {
            assert(self.log@.drop_last() =~= old(self).log@);
        }
        Ok(())
    }

    /// Logs a `fill` command.
    fn fill(&mut self, rect: metrics::Rect, colour: BgId) -> (result: error::Result<()>)
        ensures
            result is Ok,
            final(self).log@ == old(self).log@.push(Command::Fill(rect, colour)),
    {
        self.log.push(Command::Fill(rect, colour));
        Ok(())
    }

    /// Logs a `clear` command.
    fn clear(&mut self, colour: BgId) -> (result: error::Result<()>)
        ensures
            result is Ok,
            final(self).log@ == old(self).log@.push(Command::Clear(colour)),
    {
        self.log.push(Command::Clear(colour));
        Ok(())
    }

    /// Logs a `present` command.
    fn present(&mut self)
        ensures
            final(self).log@ == old(self).log@.push(Command::Present),
    {
        self.log.push(Command::Present);
    }
}

} // verus!
