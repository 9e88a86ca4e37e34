use vstd::prelude::*;

verus! {

/// The keys the widgets react to, delivered by a window shell outside this
/// crate.
#[derive(Clone, Copy, Debug, PartialEq, Eq, Structural, Hash)]
pub enum KeyPress {
    UpArrow,
    DownArrow,
    Enter,
    Escape,
    Other,
}

/// What a round of menu input produced.
#[derive(Clone, Debug, PartialEq, Eq)]
pub enum InputResult<T> {
    Canceled,
    StillActive,
    Done(String, T),
}

/// A list of named choices with a cursor; stores some associated data with
/// each choice.
#[derive(Clone, Debug, PartialEq, Eq)]
pub struct Menu<T> {
    pub prompt: String,
    pub choices: Vec<(String, T)>,
    pub current_idx: usize,
}

impl<T: Clone> Menu<T> {
    /// The cursor always rests on a real choice.
    pub open spec fn wf(&self) -> bool {
        self.choices@.len() >= 1 && self.current_idx < self.choices@.len()
    }

    /// A menu needs at least one choice.
    pub fn new(prompt: &str, choices: Vec<(String, T)>) -> (m: Menu<T>)
        requires
            choices@.len() >= 1,
        ensures
            m.wf(),
            m.prompt@ == prompt@,
            m.choices@ == choices@,
            m.current_idx == 0,
    {
        Menu { prompt: prompt.to_owned(), choices, current_idx: 0 }
    }

    /// Advance the menu by one key press. Escape cancels; Enter picks the
    /// current choice; the arrows move the cursor, saturating at both ends;
    /// anything else leaves the menu as it was.
    pub fn event(&mut self, key: KeyPress) -> (r: InputResult<T>)
        requires
            old(self).wf(),
        ensures
            final(self).wf(),
            final(self).prompt == old(self).prompt,
            final(self).choices == old(self).choices,
            key is Escape ==> r is Canceled && final(self).current_idx == old(self).current_idx,
            key is Enter ==> (r matches InputResult::Done(name, item)
                && name == old(self).choices@[old(self).current_idx as int].0
                && vstd::pervasive::cloned(
                old(self).choices@[old(self).current_idx as int].1,
                item,
            ) && final(self).current_idx == old(self).current_idx),
            key is UpArrow ==> r is StillActive && final(self).current_idx as int == if old(
                self,
            ).current_idx == 0 {
                0int
            } else {
                old(self).current_idx - 1
            },
            key is DownArrow ==> r is StillActive && final(self).current_idx as int == if old(
                self,
            ).current_idx + 1 == old(self).choices@.len() {
                old(self).current_idx as int
            } else {
                old(self).current_idx + 1
            },
            key is Other ==> r is StillActive && final(self).current_idx == old(self).current_idx,
    {
        match key {
            KeyPress::Escape => InputResult::Canceled,
            KeyPress::Enter => {
                let name = self.choices[self.current_idx].0.clone();
                let item = self.choices[self.current_idx].1.clone();
                InputResult::Done(name, item)
            },
            KeyPress::UpArrow => {
                if self.current_idx > 0 {
                    self.current_idx -= 1;
                }
                InputResult::StillActive
            },
            KeyPress::DownArrow => {
                if self.current_idx < self.choices.len() - 1 {
                    self.current_idx += 1;
                }
                InputResult::StillActive
            },
            KeyPress::Other => InputResult::StillActive,
        }
    }

    /// Which slice of the choices a window `can_fit` lines tall shows: the
    /// menu scrolls so the cursor stays visible, pinned near the middle.
    pub open spec fn spec_low_idx(&self, can_fit: int) -> int {
        if self.choices@.len() <= can_fit {
            0
        } else {
            let middle = can_fit / 2;
            if self.current_idx >= middle {
                let a = self.current_idx - middle;
                let b = self.choices@.len() - (middle * 2);
                if a <= b {
                    a
                } else {
                    b
                }
            } else {
                0
            }
        }
    }

    /// Lay the menu out as text: the prompt (highlighted), then the visible
    /// window of choices with the current one highlighted. A display shell
    /// outside this crate renders the result.
    pub fn draw(&self, can_fit: usize) -> (t: crate::text::Text)
        requires
            self.wf(),
            can_fit >= 1,
        ensures
            t.lines@.len() >= 1,
            t.lines@[0].line == self.prompt,
            t.lines@[0].highlighted,
            t.lines@.len() <= 2 + can_fit,
            t.lines@.len() == 1 + (if self.choices@.len() - self.spec_low_idx(can_fit as int)
                <= can_fit + 1 {
                self.choices@.len() - self.spec_low_idx(can_fit as int)
            } else {
                can_fit + 1
            }),
            self.choices@.len() <= can_fit ==> t.lines@.len() == 1 + self.choices@.len(),
            forall|i: int|
                1 <= i < t.lines@.len() ==> (#[trigger] t.lines@[i]).line == self.choices@[
                    self.spec_low_idx(can_fit as int) + i - 1
                ].0,
            forall|i: int|
                1 <= i < t.lines@.len() ==> ((#[trigger] t.lines@[i]).highlighted <==> (
                self.spec_low_idx(can_fit as int) + i - 1 == self.current_idx)),
    {
        let mut txt = crate::text::Text::new();
        txt.add_styled_line(self.prompt.clone());
        let low_idx: usize = if self.choices.len() <= can_fit {
            0
        } else {
            let middle = can_fit / 2;
            if self.current_idx >= middle {
                let a = self.current_idx - middle;
                let b = self.choices.len() - (middle * 2);
                if a <= b {
                    a
                } else {
                    b
                }
            } else {
                0
            }
        };
        let mut idx = low_idx;
        while idx < self.choices.len() && idx - low_idx <= can_fit
            invariant
                self.wf(),
                low_idx == self.spec_low_idx(can_fit as int),
                low_idx <= idx,
                idx <= self.choices@.len(),
                idx <= low_idx + can_fit + 1,
                txt.lines@.len() == 1 + idx - low_idx,
                txt.lines@[0].line == self.prompt,
                txt.lines@[0].highlighted,
                forall|i: int|
                    1 <= i < txt.lines@.len() ==> (#[trigger] txt.lines@[i]).line == self.choices@[
                        low_idx + i - 1
                    ].0,
                forall|i: int|
                    1 <= i < txt.lines@.len() ==> ((#[trigger] txt.lines@[i]).highlighted <==> (
                    low_idx + i - 1 == self.current_idx)),
            decreases self.choices@.len() - idx,
        {
            if self.current_idx == idx {
                txt.add_styled_line(self.choices[idx].0.clone());
            } else {
                txt.add_line(self.choices[idx].0.clone());
            }
            idx += 1;
        }
        txt
    }

    pub fn current_choice(&self) -> (r: &T)
        requires
            self.wf(),
        ensures
            *r == self.choices@[self.current_idx as int].1,
    {
        &self.choices[self.current_idx].1
    }
}

} // verus!
