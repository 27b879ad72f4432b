//! A single-line editable text buffer and the widget that displays it.

use vstd::prelude::*;
use crate::render::DrawHandle;
use crate::ui::DynWidget;
use crate::ui::Widget;
use crate::ui::color::Color;
use crate::ui::math::Rect;
use crate::ui::math::UVec2;
use crate::ui::text::GlyphCache;
use crate::util::chars_to_string;
use crate::ui::text::Text;

verus! {

/// The keys the editor reacts to; anything else is left to other handlers.
#[derive(Debug, Clone, Copy, PartialEq, Eq, Structural)]
pub enum Key {
    Backspace,
    Delete,
    ArrowLeft,
    ArrowRight,
    Home,
    End,
    Other,
}

/// One edit action on the line buffer.
#[derive(Debug, Clone, Copy, PartialEq, Eq, Structural)]
pub enum EditAction {
    Backspace,
    Delete,
    Left,
    Right,
    Home,
    End,
    Insert(char),
}

/// A single-line editable text buffer with a cursor. Every edit action marks
/// the buffer dirty so the next render redraws it.
pub struct Editor {
    pub text: Vec<char>,
    pub cursor: usize,
    pub redraw: bool,
}

impl Editor {
    /// The cursor sits between characters, never past the end.
    pub open spec fn wf(&self) -> bool {
        self.cursor <= self.text@.len()
    }

    pub fn new() -> (r: Self)
        ensures
            r.text@ == Seq::<char>::empty(),
            r.cursor == 0usize,
            r.redraw,
            r.wf(),
    {
        Editor { text: Vec::new(), cursor: 0, redraw: true }
    }

    /// The buffer contents as characters, in order.
    pub fn chars(&self) -> (r: &Vec<char>)
        ensures
            r@ == self.text@,
    {
        &self.text
    }

    /// The buffer contents as a string.
    pub fn text(&self) -> (r: String)
        ensures
            r@ == self.text@,
    {
        chars_to_string(&self.text)
    }

    /// Maps an editing key to its action and performs it; any other key is
    /// reported unhandled.
    pub fn handle_key(&mut self, key: Key) -> (r: bool)
        requires
            old(self).wf(),
        ensures
            final(self).wf(),
            r == (key != Key::Other),
            match key {
                Key::Backspace => spec_edited(*old(self), EditAction::Backspace, *final(self)),
                Key::Delete => spec_edited(*old(self), EditAction::Delete, *final(self)),
                Key::ArrowLeft => spec_edited(*old(self), EditAction::Left, *final(self)),
                Key::ArrowRight => spec_edited(*old(self), EditAction::Right, *final(self)),
                Key::Home => spec_edited(*old(self), EditAction::Home, *final(self)),
                Key::End => spec_edited(*old(self), EditAction::End, *final(self)),
                Key::Other => *final(self) == *old(self),
            },
    {
        match key {
            Key::Backspace => self.perform_action(EditAction::Backspace),
            Key::Delete => self.perform_action(EditAction::Delete),
            Key::ArrowLeft => self.perform_action(EditAction::Left),
            Key::ArrowRight => self.perform_action(EditAction::Right),
            Key::Home => self.perform_action(EditAction::Home),
            Key::End => self.perform_action(EditAction::End),
            Key::Other => {
                return false;
            },
        }
        true
    }

    /// Performs one edit action: insertion at the cursor, deletion before or
    /// at the cursor, or cursor motion; each marks the buffer dirty.
    pub fn perform_action(&mut self, action: EditAction)
        requires
            old(self).wf(),
        ensures
            final(self).wf(),
            spec_edited(*old(self), action, *final(self)),
    {
        match action {
            EditAction::Backspace => {
                if self.cursor > 0 {
                    self.text.remove(self.cursor - 1);
                    self.cursor = self.cursor - 1;
                }
            },
            EditAction::Delete => {
                if self.cursor < self.text.len() {
                    self.text.remove(self.cursor);
                }
            },
            EditAction::Left => {
                if self.cursor > 0 {
                    self.cursor = self.cursor - 1;
                }
            },
            EditAction::Right => {
                if self.cursor < self.text.len() {
                    self.cursor = self.cursor + 1;
                }
            },
            EditAction::Home => {
                self.cursor = 0;
            },
            EditAction::End => {
                self.cursor = self.text.len();
            },
            EditAction::Insert(c) => {
                self.text.insert(self.cursor, c);
                let n = self.text.len();
                proof {
                    assert(old(self).text@.len() < n);
                }
                self.cursor = self.cursor + 1;
            },
        }
        self.redraw = true;
    }
}

impl Default for Editor {
    fn default() -> (r: Self)
        ensures
            r.text@ == Seq::<char>::empty(),
            r.cursor == 0usize,
            r.redraw,
    {
        Editor::new()
    }
}

/// How one edit action transforms the buffer: the exact text, cursor and
/// dirty flag after the action.
pub open spec fn spec_edited(pre: Editor, action: EditAction, post: Editor) -> bool {
    &&& post.redraw
    &&& match action {
        EditAction::Backspace => if pre.cursor > 0 {
            post.text@ == pre.text@.remove(pre.cursor - 1) && post.cursor == pre.cursor - 1
        } else {
            post.text@ == pre.text@ && post.cursor == pre.cursor
        },
        EditAction::Delete => if pre.cursor < pre.text@.len() {
            post.text@ == pre.text@.remove(pre.cursor as int) && post.cursor == pre.cursor
        } else {
            post.text@ == pre.text@ && post.cursor == pre.cursor
        },
        EditAction::Left => post.text@ == pre.text@ && post.cursor == (if pre.cursor > 0 {
            (pre.cursor - 1) as usize
        } else {
            0usize
        }),
        EditAction::Right => post.text@ == pre.text@ && post.cursor == (if pre.cursor
            < pre.text@.len() {
            (pre.cursor + 1) as usize
        } else {
            pre.cursor
        }),
        EditAction::Home => post.text@ == pre.text@ && post.cursor == 0,
        EditAction::End => post.text@ == pre.text@ && post.cursor == pre.text@.len(),
        EditAction::Insert(c) => post.text@ == pre.text@.insert(pre.cursor as int, c)
            && post.cursor == pre.cursor + 1,
    }
}

/// The widget that shows a single-line editor: the shaped display text, an
/// optional cursor rectangle (relative to the widget origin), and the line
/// height that caps the widget's height. It redraws only while the editor
/// is marked dirty.
pub struct TextEditor {
    pub editor: Editor,
    pub display: Text,
    pub cursor: Option<Rect>,
    pub cursor_color: Color,
    pub line_height: u32,
    pub width: u32,
    pub height: u32,
}

impl TextEditor {
    /// Wraps an editor at a given font size; the display stays empty until
    /// the shaping collaborator hands one in via [`Self::set_display`].
    pub fn new(editor: Editor, font_size: u32) -> (r: Self)
        ensures
            r.editor == editor,
            r.display.glyphs@ == Seq::<crate::ui::text::PlacedGlyph>::empty(),
            r.cursor is None,
            r.line_height == font_size,
            r.width == 0u32,
            r.height == 0u32,
    {
        TextEditor {
            editor,
            display: Text {
                glyphs: Vec::new(),
                width: 0,
                height: 0,
                shaped_for: UVec2::zero(),
            },
            cursor: None,
            cursor_color: Color::from_rgba(255, 255, 255, 255),
            line_height: font_size,
            width: 0,
            height: 0,
        }
    }

    /// Installs the shaped display text and the cursor rectangle computed
    /// from it.
    pub fn set_display(&mut self, display: Text, cursor: Option<Rect>)
        requires
            display.wf(),
        ensures
            *final(self) == (TextEditor { display, cursor, ..*old(self) }),
    {
        self.display = display;
        self.cursor = cursor;
    }
}

impl Widget for TextEditor {
    open spec fn model(&self) -> DynWidget {
        DynWidget::TextEditor(*self)
    }

    fn layout(&mut self, bounds: UVec2) -> (r: UVec2) {
        self.width = bounds.x;
        self.height = if bounds.y < self.line_height {
            bounds.y
        } else {
            self.line_height
        };
        UVec2::new(self.width, self.height)
    }

    fn render(&self, pos: UVec2, cache: &mut GlyphCache, draw: &mut DrawHandle) {
        if self.editor.redraw {
            self.display.draw_glyphs(pos, cache, draw);
            match self.cursor {
                Some(cur) => {
                    draw.draw_rect(
                        Rect::from_pos_size(pos.saturating_add(cur.pos), cur.size),
                        self.cursor_color.premultiply(),
                    );
                },
                None => (),
            }
        }
    }

    fn into_dyn(self) -> (r: DynWidget) {
        DynWidget::TextEditor(self)
    }
}

} // verus!
