//! A push button: a label, a rectangle in the window, and whether the pointer
//! is over it.

use vstd::prelude::*;
use crate::input::{Event, MouseButton};

verus! {

/// What a reader sees of a button.
pub struct ButtonModel {
    pub label: Seq<char>,
    pub hovered: bool,
}

/// A button's label and hover flag.
pub struct Button {
    text: String,
    hovered: bool,
}

impl View for Button {
    type V = ButtonModel;

    closed spec fn view(&self) -> ButtonModel {
        ButtonModel { label: self.text@, hovered: self.hovered }
    }
}

impl Button {
    /// A button labelled `text`, with the pointer not over it.
    pub fn new(text: String) -> (button: Self)
        ensures
            button@ == (ButtonModel { label: text@, hovered: false }),
    {
        Self { text, hovered: false }
    }

    /// The label.
    pub fn text(&self) -> (text: &str)
        ensures
            text@ == self@.label,
    {
        self.text.as_str()
    }

    /// Whether the pointer is over the button.
    pub fn hovered(&self) -> (hovered: bool)
        ensures
            hovered == self@.hovered,
    {
        self.hovered
    }
}

/// Where the button lies in the window.
#[derive(Clone, Copy, Debug)]
pub struct ButtonViewSettings {
    /// The pixel `[x, y]` of the button's top-left corner.
    pub position: [i32; 2],
    /// The button's `[width, height]` in pixels.
    pub size: [u32; 2],
}

impl ButtonViewSettings {
    /// A button of `size = [width, height]` with its top-left corner at
    /// `position = [x, y]`.
    pub fn new(position: [i32; 2], size: [u32; 2]) -> (settings: Self)
        ensures
            settings.position == position,
            settings.size == size,
    {
        Self { position, size }
    }

    /// Whether the pixel `(x, y)` lies on the button. All four edges belong
    /// to the button.
    pub open spec fn covers(&self, x: int, y: int) -> bool {
        &&& self.position[0] <= x <= self.position[0] + self.size[0]
        &&& self.position[1] <= y <= self.position[1] + self.size[1]
    }

    /// Whether the pixel `cursor = [x, y]` lies on the button.
    pub fn contains(&self, cursor: [i32; 2]) -> (inside: bool)
        ensures
            inside == self.covers(cursor[0] as int, cursor[1] as int),
    {
        let x: i64 = cursor[0] as i64;
        let y: i64 = cursor[1] as i64;
        let left: i64 = self.position[0] as i64;
        let top: i64 = self.position[1] as i64;
        x >= left && x <= left + self.size[0] as i64 && y >= top && y <= top + self.size[1] as i64
    }
}

/// The button's presentation: its place in the window.
pub struct ButtonView {
    settings: ButtonViewSettings,
}

impl View for ButtonView {
    type V = ButtonViewSettings;

    closed spec fn view(&self) -> ButtonViewSettings {
        self.settings
    }
}

impl ButtonView {
    /// A presentation of the button at the place that `settings` gives.
    pub fn new(settings: ButtonViewSettings) -> (view: Self)
        ensures
            view@ == settings,
    {
        Self { settings }
    }

    /// Where the button lies in the window.
    pub fn settings(&self) -> (settings: &ButtonViewSettings)
        ensures
            *settings == self@,
    {
        &self.settings
    }
}

/// What the button's controller knows: the button, where it lies, and where
/// the pointer was last seen.
pub struct ButtonControllerModel {
    pub button: ButtonModel,
    pub settings: ButtonViewSettings,
    /// The pixel `(x, y)` of the pointer.
    pub cursor: (int, int),
}

impl ButtonControllerModel {
    /// The state after one event. A pointer move is remembered, and the
    /// button is hovered exactly when the new position lies on it. No other
    /// event changes anything.
    pub open spec fn step(self, e: Event) -> ButtonControllerModel {
        match e {
            Event::PointerMoved { x, y } => ButtonControllerModel {
                button: ButtonModel {
                    hovered: self.settings.covers(x as int, y as int),
                    ..self.button
                },
                cursor: (x as int, y as int),
                ..self
            },
            _ => self,
        }
    }

    /// Whether the event is a click on the button: a press of the primary
    /// button while the pointer lies on it.
    pub open spec fn clicked(self, e: Event) -> bool {
        e == Event::PointerPressed(MouseButton::Left) && self.settings.covers(
            self.cursor.0,
            self.cursor.1,
        )
    }
}

/// The hover flag is derived from the pointer: once it agrees with where the
/// pointer is, it does so after every event, and a pointer move makes it
/// agree. A click is then reported only on a hovered button.
pub proof fn lemma_hover_follows_pointer(m: ButtonControllerModel, e: Event)
    ensures
        m.step(e).settings == m.settings,
        m.step(e).button.label == m.button.label,
        e is PointerMoved || m.button.hovered == m.settings.covers(m.cursor.0, m.cursor.1)
            ==> m.step(e).button.hovered == m.settings.covers(
            m.step(e).cursor.0,
            m.step(e).cursor.1,
        ),
        m.button.hovered == m.settings.covers(m.cursor.0, m.cursor.1) && m.clicked(e)
            ==> m.button.hovered,
{
}

/// Tracks the pointer over a button and reports clicks on it.
pub struct ButtonController {
    button: Button,
    button_view: ButtonView,
    /// The pixel `[x, y]` where the pointer was last seen.
    cursor_pos: [i32; 2],
}

impl View for ButtonController {
    type V = ButtonControllerModel;

    closed spec fn view(&self) -> ButtonControllerModel {
        ButtonControllerModel {
            button: self.button@,
            settings: self.button_view@,
            cursor: (self.cursor_pos[0] as int, self.cursor_pos[1] as int),
        }
    }
}

impl ButtonController {
    /// A controller for `button`, with the pointer at the window's origin.
    pub fn new(button: Button, button_view: ButtonView) -> (controller: Self)
        ensures
            controller@ == (ButtonControllerModel {
                button: button@,
                settings: button_view@,
                cursor: (0, 0),
            }),
    {
        Self { button, button_view, cursor_pos: [0; 2] }
    }

    /// The button.
    pub fn button(&self) -> (button: &Button)
        ensures
            button@ == self@.button,
    {
        &self.button
    }

    /// The button's presentation.
    pub fn button_view(&self) -> (button_view: &ButtonView)
        ensures
            button_view@ == self@.settings,
    {
        &self.button_view
    }

    /// The pixel `[x, y]` where the pointer was last seen.
    pub fn cursor_pos(&self) -> (cursor: [i32; 2])
        ensures
            (cursor[0] as int, cursor[1] as int) == self@.cursor,
    {
        self.cursor_pos
    }

    /// Takes one event, changes the state as [`ButtonControllerModel::step`]
    /// says, and returns whether the button was clicked.
    pub fn handle_event(&mut self, e: &Event) -> (clicked: bool)
        ensures
            final(self)@ == old(self)@.step(*e),
            clicked == old(self)@.clicked(*e),
    {
        match *e {
            Event::PointerMoved { x, y } => {
                self.cursor_pos = [x, y];
                self.button.hovered = self.button_view.settings.contains(self.cursor_pos);
                false
            },
            Event::PointerPressed(button) => {
                button == MouseButton::Left && self.button_view.settings.contains(self.cursor_pos)
            },
            _ => false,
        }
    }
}

} // verus!
