//! The reading-view controller: two states, `Running` and `Quit`, and the
//! dispatch from key input to scroll motions. The redraw loop around it
//! draws a frame, blocks for the next key, and hands it to `handle_key`
//! until the state is `Quit`.
use vstd::prelude::*;
use crate::content::Content;
use crate::scroll::ScrollOp;
use crate::scroll::ScrollState;
use crate::scroll::spec_clamp;
use crate::scroll::spec_scroll;

verus! {

/// Whether the controller loop keeps going. `Quit` is terminal: the only
/// transition is `Running` to `Quit`, on a quit key.
#[derive(Clone, Copy, Debug, PartialEq, Eq, Structural)]
pub enum AppState {
    Running,
    Quit,
}

impl Default for AppState {
    /// A controller starts running.
    fn default() -> (r: AppState)
        ensures
            r == AppState::Running,
    {
        AppState::Running
    }
}

/// A key press, already freed of the terminal backend's encoding: the keys
/// the view reacts to, a plain character, or anything else.
#[derive(Clone, Copy, Debug, PartialEq, Eq, Structural)]
pub enum KeyInput {
    Char(char),
    Down,
    Up,
    PageDown,
    PageUp,
    Home,
    End,
    Esc,
    Other,
}

/// What a key press asks of the controller.
#[derive(Clone, Copy, Debug, PartialEq, Eq, Structural)]
pub enum Action {
    Quit,
    Scroll(ScrollOp),
    Idle,
}

/// The key map of the reading view: quit on `q` or escape, scroll on the
/// navigation keys, ignore everything else.
pub open spec fn key_action(key: KeyInput) -> Action {
    match key {
        KeyInput::Char(c) => {
            if c == 'q' {
                Action::Quit
            } else if c == 'j' {
                Action::Scroll(ScrollOp::UnitDown)
            } else if c == 'k' {
                Action::Scroll(ScrollOp::UnitUp)
            } else if c == 'f' {
                Action::Scroll(ScrollOp::PageDown)
            } else if c == 'b' {
                Action::Scroll(ScrollOp::PageUp)
            } else if c == 'g' {
                Action::Scroll(ScrollOp::ToTop)
            } else if c == 'G' {
                Action::Scroll(ScrollOp::ToBottom)
            } else {
                Action::Idle
            }
        },
        KeyInput::Esc => Action::Quit,
        KeyInput::Down => Action::Scroll(ScrollOp::UnitDown),
        KeyInput::Up => Action::Scroll(ScrollOp::UnitUp),
        KeyInput::PageDown => Action::Scroll(ScrollOp::PageDown),
        KeyInput::PageUp => Action::Scroll(ScrollOp::PageUp),
        KeyInput::Home => Action::Scroll(ScrollOp::ToTop),
        KeyInput::End => Action::Scroll(ScrollOp::ToBottom),
        KeyInput::Other => Action::Idle,
    }
}

/// The reading view: one content model, one scroll state, one run state.
pub struct App {
    /// The chapter on show; immutable for the controller's lifetime.
    pub content: Content,
    /// Where the viewport stands in the virtual canvas.
    pub scroll: ScrollState,
    /// Whether the loop keeps going.
    pub state: AppState,
}

impl App {
    /// A controller over a freshly assembled content model: running, at
    /// the top of the canvas.
    pub fn new(
        novel_name: &str,
        chapter_number: &str,
        chapter_name: &str,
        text: Vec<String>,
        virtual_height: u16,
    ) -> (r: App)
        ensures
            r.state == AppState::Running,
            r.scroll.inv(),
            r.scroll.offset == 0,
            r.scroll.virtual_height == virtual_height,
            r.content.novel_title@ == novel_name@,
            r.content.chapter_number@ == chapter_number@,
            r.content.chapter_name@ == chapter_name@,
            r.content.paragraphs == text,
    {
        App {
            content: Content::new(novel_name, chapter_number, chapter_name, text),
            scroll: ScrollState::new(virtual_height, 0, 0),
            state: AppState::Running,
        }
    }

    /// Whether the loop should draw another frame.
    pub fn is_running(&self) -> (r: bool)
        ensures
            r == (self.state == AppState::Running),
    {
        matches!(self.state, AppState::Running)
    }

    /// The terminal transition: stop the loop.
    pub fn quit(&mut self)
        ensures
            final(self).state == AppState::Quit,
            final(self).content == old(self).content,
            final(self).scroll == old(self).scroll,
    {
        self.state = AppState::Quit;
    }

    /// Dispatches one key event. Release events are ignored; a press
    /// follows the key map: the quit keys end the loop, the navigation
    /// keys move the scroll state, anything else changes nothing. The
    /// content is never touched and the scroll offset stays clamped.
    pub fn handle_key(&mut self, press: bool, key: KeyInput)
        requires
            old(self).scroll.inv(),
        ensures
            final(self).content == old(self).content,
            final(self).scroll.inv(),
            !press ==> final(self).scroll == old(self).scroll && final(self).state == old(
                self,
            ).state,
            press ==> match key_action(key) {
                Action::Quit => final(self).state == AppState::Quit && final(self).scroll == old(
                    self,
                ).scroll,
                Action::Scroll(op) => final(self).scroll == spec_scroll(old(self).scroll, op)
                    && final(self).state == old(self).state,
                Action::Idle => final(self).scroll == old(self).scroll && final(self).state == old(
                    self,
                ).state,
            },
    {
        if !press {
            return ;
        }
        match key {
            KeyInput::Char(c) => {
                if c == 'q' {
                    self.quit();
                } else if c == 'j' {
                    self.scroll.apply(ScrollOp::UnitDown);
                } else if c == 'k' {
                    self.scroll.apply(ScrollOp::UnitUp);
                } else if c == 'f' {
                    self.scroll.apply(ScrollOp::PageDown);
                } else if c == 'b' {
                    self.scroll.apply(ScrollOp::PageUp);
                } else if c == 'g' {
                    self.scroll.apply(ScrollOp::ToTop);
                } else if c == 'G' {
                    self.scroll.apply(ScrollOp::ToBottom);
                }
            },
            KeyInput::Esc => self.quit(),
            KeyInput::Down => self.scroll.apply(ScrollOp::UnitDown),
            KeyInput::Up => self.scroll.apply(ScrollOp::UnitUp),
            KeyInput::PageDown => self.scroll.apply(ScrollOp::PageDown),
            KeyInput::PageUp => self.scroll.apply(ScrollOp::PageUp),
            KeyInput::Home => self.scroll.apply(ScrollOp::ToTop),
            KeyInput::End => self.scroll.apply(ScrollOp::ToBottom),
            KeyInput::Other => {},
        }
    }

    /// Records the terminal size seen at the start of a frame, re-clamping
    /// the scroll offset; the draw step calls this before compositing.
    pub fn set_viewport(&mut self, width: u16, height: u16)
        ensures
            final(self).scroll.inv(),
            final(self).scroll.view_width == width,
            final(self).scroll.view_height == height,
            final(self).scroll.virtual_height == old(self).scroll.virtual_height,
            final(self).scroll.offset == spec_clamp(
                old(self).scroll.offset as int,
                old(self).scroll.virtual_height,
                height,
            ),
            final(self).content == old(self).content,
            final(self).state == old(self).state,
    {
        self.scroll.set_viewport(width, height);
    }
}

} // verus!
