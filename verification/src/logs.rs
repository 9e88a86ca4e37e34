use crate::text::Text;
use vstd::prelude::*;

verus! {

/// A ring buffer of the most recent log lines. A process-wide sink outside
/// this crate feeds it one formatted record at a time.
#[derive(Clone, Debug, PartialEq, Eq)]
pub struct LogScroller {
    /// Oldest first; never longer than `capacity`.
    pub lines: Vec<String>,
    pub capacity: usize,
}

impl LogScroller {
    pub open spec fn wf(&self) -> bool {
        self.capacity >= 1 && self.lines@.len() <= self.capacity
    }

    pub fn new_with_capacity(capacity: usize) -> (s: LogScroller)
        requires
            capacity >= 1,
        ensures
            s.wf(),
            s.lines@.len() == 0,
            s.capacity == capacity,
    {
        LogScroller { lines: Vec::new(), capacity }
    }

    /// Append a line; when the buffer is full the oldest line falls out.
    pub fn add_line(&mut self, line: &str)
        requires
            old(self).wf(),
        ensures
            final(self).wf(),
            final(self).capacity == old(self).capacity,
            final(self).lines@.len() == if old(self).lines@.len() < old(self).capacity {
                old(self).lines@.len() + 1int
            } else {
                old(self).capacity as int
            },
            final(self).lines@.last()@ == line@,
            forall|i: int|
                0 <= i < final(self).lines@.len() - 1 ==> final(self).lines@[i] == old(
                    self,
                ).lines@[i + (old(self).lines@.len() + 1 - final(self).lines@.len())],
    {
        if self.lines.len() == self.capacity {
            self.lines.remove(0);
        }
        self.lines.push(line.to_owned());
    }

    /// Scroll keys are handled by the shell; the scroller itself only
    /// reports when the viewer should close.
    pub fn event(&self, key: crate::menu::KeyPress) -> (done: bool)
        ensures
            done == (key is Enter || key is Escape),
    {
        matches!(key, crate::menu::KeyPress::Enter | crate::menu::KeyPress::Escape)
    }

    /// Lay out the newest `can_fit` lines (or all of them, if fewer).
    pub fn draw(&self, can_fit: usize) -> (t: Text)
        requires
            can_fit >= 1,
        ensures
            t.lines@.len() == if self.lines@.len() <= can_fit {
                self.lines@.len() as int
            } else {
                can_fit as int
            },
            forall|i: int|
                0 <= i < t.lines@.len() ==> (#[trigger] t.lines@[i]).line == self.lines@[
                    self.lines@.len() - t.lines@.len() + i
                ] && !t.lines@[i].highlighted,
    {
        let shown: usize = if self.lines.len() <= can_fit {
            self.lines.len()
        } else {
            can_fit
        };
        let start: usize = self.lines.len() - shown;
        let mut t = Text::new();
        let mut j: usize = start;
        while j < self.lines.len()
            invariant
                start + shown == self.lines@.len(),
                start <= j <= self.lines@.len(),
                t.lines@.len() == j - start,
                forall|k: int|
                    0 <= k < t.lines@.len() ==> (#[trigger] t.lines@[k]).line == self.lines@[
                        start + k
                    ] && !t.lines@[k].highlighted,
            decreases self.lines@.len() - j,
        {
            t.add_line(self.lines[j].clone());
            j += 1;
        }
        t
    }
}

/// The log-viewer plugin's own state: whether the viewer is open. The
/// process-wide sink registration lives with the shell, not here.
#[derive(Clone, Copy, Debug, PartialEq, Eq, Structural, Hash)]
pub struct DisplayLogs {
    pub active: bool,
}

impl DisplayLogs {
    pub fn new() -> (d: DisplayLogs)
        ensures
            !d.active,
    {
        DisplayLogs { active: false }
    }

    /// One round of plugin dispatch: opening on request when closed,
    /// closing when the scroller says it is done. Returns whether the
    /// plugin consumed the event.
    pub fn event(&mut self, show_logs_requested: bool, scroller_done: bool) -> (consumed: bool)
        ensures
            !old(self).active ==> (final(self).active == show_logs_requested && consumed
                == show_logs_requested),
            old(self).active ==> (final(self).active == !scroller_done && consumed == !scroller_done),
    {
        if !self.active {
            if show_logs_requested {
                self.active = true;
                return true;
            }
            return false;
        }
        if scroller_done {
            self.active = false;
        }
        self.active
    }

    /// The viewer draws only while it is open.
    pub fn draw(&self, scroller: &LogScroller, can_fit: usize) -> (t: Option<Text>)
        requires
            can_fit >= 1,
        ensures
            t is Some <==> self.active,
    {
        if self.active {
            Some(scroller.draw(can_fit))
        } else {
            None
        }
    }
}

/// The text of one log record as the sink prints it:
/// `[LEVEL] [target] message`.
pub fn format_log_line(level: &str, target: &str, message: &str) -> (r: String)
    ensures
        r@ == "["@ + level@ + "] ["@ + target@ + "] "@ + message@,
{
    let mut s = String::new();
    s.append("[");
    s.append(level);
    s.append("] [");
    s.append(target);
    s.append("] ");
    s.append(message);
    proof {
        reveal_strlit("[");
        reveal_strlit("] [");
        reveal_strlit("] ");
        assert(s@ =~= "["@ + level@ + "] ["@ + target@ + "] "@ + message@);
    }
    s
}

} // verus!
