//! View state of the chat-style display: scroll position, selection, the
//! inline permission prompt, and the text-input buffer.  Rendering itself
//! is the embedding application's concern; this state is what it draws
//! from.

use vstd::prelude::*;

use crate::text::{pop_char, push_char};

verus! {

/// Display width in pixels.
pub const DISPLAY_WIDTH: usize = 336;

/// Display height in pixels.
pub const DISPLAY_HEIGHT: usize = 536;

/// Height of the status bar, managed by the window system.
pub const STATUS_BAR_HEIGHT: usize = 32;

/// Height left for this view.
pub const USABLE_HEIGHT: usize = 504;

/// Characters per line of the monospace font.
pub const CHARS_PER_LINE: usize = 42;

/// Header height in lines.
pub const HEADER_HEIGHT: usize = 3;

/// Input area height in lines.
pub const INPUT_HEIGHT: usize = 3;

/// Permission area height in lines, when shown.
pub const PERM_HEIGHT: usize = 8;

/// Lines left for messages.
pub const CHAT_LINES: usize = 22;

/// Longest accepted text input, in characters.
pub const MAX_INPUT_LEN: usize = 200;

/// Current view mode.
#[derive(Clone, Copy, Debug, PartialEq, Eq, Structural)]
pub enum ViewMode {
    /// Chat view with input.
    Chat,
    /// Event detail view.
    Detail,
    /// Permission dialog view.
    Permission,
}

/// The message lines visible beside an optional permission area.
pub open spec fn spec_visible_lines(pending: bool) -> int {
    if pending {
        CHAT_LINES - PERM_HEIGHT
    } else {
        CHAT_LINES as int
    }
}

/// View state of the chat display.
pub struct UiState {
    /// Current view mode.
    pub view: ViewMode,
    /// Index of the first visible event.
    pub scroll_pos: usize,
    /// Index of the selected event.
    pub selected: usize,
    /// Pending permission request identifier, if any.
    pub pending_permission: Option<String>,
    /// Permission choice: true to allow, false to deny.
    pub permission_choice: bool,
    /// Connection status.
    pub connected: bool,
    /// Current session identifier.
    pub session_id: String,
    /// Event count for display.
    pub event_count: usize,
    /// Text input buffer.
    pub input_text: String,
    /// Input cursor position.
    pub input_cursor: usize,
}

impl UiState {
    /// The initial state: chat view, nothing selected, pending or typed.
    pub fn new() -> (r: Self)
        ensures
            r.view == ViewMode::Chat,
            r.scroll_pos == 0,
            r.selected == 0,
            r.pending_permission is None,
            r.permission_choice,
            !r.connected,
            r.session_id@ == Seq::<char>::empty(),
            r.event_count == 0,
            r.input_text@ == Seq::<char>::empty(),
            r.input_cursor == 0,
    {
        UiState {
            view: ViewMode::Chat,
            scroll_pos: 0,
            selected: 0,
            pending_permission: None,
            permission_choice: true,  // default to allow
            connected: false,
            session_id: String::new(),
            event_count: 0,
            input_text: String::new(),
            input_cursor: 0,
        }
    }

    /// Move the selection one event up (older), pulling the window along
    /// when the selection leaves it.
    pub fn scroll_up(&mut self)
        ensures
            old(self).selected > 0 ==> *final(self) == (UiState {
                selected: (old(self).selected - 1) as usize,
                scroll_pos: if old(self).selected - 1 < old(self).scroll_pos {
                    (old(self).selected - 1) as usize
                } else {
                    old(self).scroll_pos
                },
                ..*old(self)
            }),
            old(self).selected == 0 ==> *final(self) == *old(self),
    {
        if self.selected > 0 {
            self.selected = self.selected - 1;
            if self.selected < self.scroll_pos {
                self.scroll_pos = self.selected;
            }
        }
    }

    /// Move the selection one event down (newer) within the queue,
    /// keeping it within the half-window of visible message lines.
    pub fn scroll_down(&mut self, queue_len: usize)
        ensures
            queue_len > 0 && old(self).selected < queue_len - 1 ==> *final(self) == (UiState {
                selected: (old(self).selected + 1) as usize,
                scroll_pos: if old(self).selected + 1 >= old(self).scroll_pos
                    + spec_visible_lines(old(self).pending_permission is Some) / 2 {
                    (old(self).selected + 1 - (spec_visible_lines(
                        old(self).pending_permission is Some,
                    ) / 2 - 1)) as usize
                } else {
                    old(self).scroll_pos
                },
                ..*old(self)
            }),
            !(queue_len > 0 && old(self).selected < queue_len - 1) ==> *final(self) == *old(self),
    {
        if queue_len > 0 && self.selected < queue_len - 1 {
            self.selected = self.selected + 1;
            let visible: usize = if self.has_pending_permission() {
                CHAT_LINES - PERM_HEIGHT
            } else {
                CHAT_LINES
            };
            if self.selected >= self.scroll_pos && self.selected - self.scroll_pos >= visible
                / 2 {
                self.scroll_pos = self.selected - (visible / 2 - 1);
            }
        }
    }

    /// Select the newest event and scroll so that it is visible beside
    /// the permission area, when one is shown.
    pub fn auto_scroll(&mut self, queue_len: usize)
        ensures
            queue_len > 0 ==> *final(self) == (UiState {
                event_count: queue_len,
                selected: (queue_len - 1) as usize,
                scroll_pos: if queue_len > spec_visible_lines(
                    old(self).pending_permission is Some,
                ) / 2 {
                    (queue_len - spec_visible_lines(old(self).pending_permission is Some)
                        / 2) as usize
                } else {
                    0
                },
                ..*old(self)
            }),
            queue_len == 0 ==> *final(self) == (UiState { event_count: queue_len, ..*old(self) }),
    {
        self.event_count = queue_len;
        if queue_len > 0 {
            self.selected = queue_len - 1;
            let visible: usize = if self.has_pending_permission() {
                CHAT_LINES - PERM_HEIGHT
            } else {
                CHAT_LINES
            };
            if queue_len > visible / 2 {
                self.scroll_pos = queue_len - visible / 2;
            } else {
                self.scroll_pos = 0;
            }
        }
    }

    /// Jump the selection to the newest event.
    pub fn scroll_to_top(&mut self)
        ensures
            old(self).event_count > 0 ==> *final(self) == (UiState {
                selected: (old(self).event_count - 1) as usize,
                scroll_pos: if old(self).event_count - 1 >= CHAT_LINES / 2 {
                    (old(self).event_count - 1 - CHAT_LINES / 2) as usize
                } else {
                    0
                },
                ..*old(self)
            }),
            old(self).event_count == 0 ==> *final(self) == *old(self),
    {
        if self.event_count > 0 {
            self.selected = self.event_count - 1;
            self.scroll_pos = if self.selected >= CHAT_LINES / 2 {
                self.selected - CHAT_LINES / 2
            } else {
                0
            };
        }
    }

    /// Jump the selection to the oldest event.
    pub fn scroll_to_bottom(&mut self, queue_len: usize)
        ensures
            *final(self) == (UiState {
                selected: 0,
                scroll_pos: 0,
                event_count: queue_len,
                ..*old(self)
            }),
    {
        self.selected = 0;
        self.scroll_pos = 0;
        self.event_count = queue_len;
    }

    /// Record a pending permission request, defaulting the choice to
    /// allow.
    pub fn set_pending_permission(&mut self, request_id: &str)
        ensures
            final(self).pending_permission matches Some(s) && s@ == request_id@,
            final(self).permission_choice,
            final(self).view == old(self).view,
            final(self).scroll_pos == old(self).scroll_pos,
            final(self).selected == old(self).selected,
            final(self).connected == old(self).connected,
            final(self).session_id == old(self).session_id,
            final(self).event_count == old(self).event_count,
            final(self).input_text == old(self).input_text,
            final(self).input_cursor == old(self).input_cursor,
    {
        self.pending_permission = Some(request_id.to_owned());
        self.permission_choice = true;  // default to allow
    }

    /// Clear the pending permission request.
    pub fn clear_pending_permission(&mut self)
        ensures
            *final(self) == (UiState { pending_permission: None, ..*old(self) }),
    {
        self.pending_permission = None;
    }

    /// Flip the permission choice between allow and deny.
    pub fn toggle_permission_choice(&mut self)
        ensures
            *final(self) == (UiState {
                permission_choice: !old(self).permission_choice,
                ..*old(self)
            }),
    {
        self.permission_choice = !self.permission_choice;
    }

    /// Whether a permission request is pending.
    pub fn has_pending_permission(&self) -> (r: bool)
        ensures
            r == (self.pending_permission is Some),
    {
        self.pending_permission.is_some()
    }

    /// Whether the selection points at a live event.
    pub fn has_selection(&self) -> (r: bool)
        ensures
            r == (self.selected < self.event_count),
    {
        self.selected < self.event_count
    }

    /// Clear the selection by parking it on an index no queue reaches.
    pub fn clear_selection(&mut self)
        ensures
            *final(self) == (UiState { selected: usize::MAX, ..*old(self) }),
    {
        self.selected = usize::MAX;
    }

    /// Whether `index` is the (live) selection.
    pub fn is_selected(&self, index: usize) -> (r: bool)
        ensures
            r == (self.selected == index && self.selected != usize::MAX),
    {
        self.selected == index && self.selected != usize::MAX
    }

    /// Append a character to the input, up to [`MAX_INPUT_LEN`].
    pub fn input_add_char(&mut self, c: char)
        ensures
            old(self).input_text@.len() < MAX_INPUT_LEN ==> (final(self).input_text@ == old(
                self,
            ).input_text@.push(c) && final(self).input_cursor == old(self).input_text@.len() + 1),
            old(self).input_text@.len() >= MAX_INPUT_LEN ==> *final(self) == *old(self),
            final(self).view == old(self).view,
            final(self).scroll_pos == old(self).scroll_pos,
            final(self).selected == old(self).selected,
            final(self).pending_permission == old(self).pending_permission,
            final(self).permission_choice == old(self).permission_choice,
            final(self).connected == old(self).connected,
            final(self).session_id == old(self).session_id,
            final(self).event_count == old(self).event_count,
    {
        if self.input_text.as_str().unicode_len() < MAX_INPUT_LEN {
            push_char(&mut self.input_text, c);
            self.input_cursor = self.input_text.as_str().unicode_len();
        }
    }

    /// Delete the last input character, if any.
    pub fn input_backspace(&mut self)
        ensures
            old(self).input_text@.len() > 0 ==> (final(self).input_text@ == old(
                self,
            ).input_text@.drop_last() && final(self).input_cursor == old(self).input_text@.len()
                - 1),
            old(self).input_text@.len() == 0 ==> *final(self) == *old(self),
            final(self).view == old(self).view,
            final(self).scroll_pos == old(self).scroll_pos,
            final(self).selected == old(self).selected,
            final(self).pending_permission == old(self).pending_permission,
            final(self).permission_choice == old(self).permission_choice,
            final(self).connected == old(self).connected,
            final(self).session_id == old(self).session_id,
            final(self).event_count == old(self).event_count,
    {
        if !self.input_text.as_str().is_empty() {
            pop_char(&mut self.input_text);
            self.input_cursor = self.input_text.as_str().unicode_len();
        }
    }

    /// Clear the input.
    pub fn input_clear(&mut self)
        ensures
            final(self).input_text@ == Seq::<char>::empty(),
            final(self).input_cursor == 0,
            final(self).view == old(self).view,
            final(self).scroll_pos == old(self).scroll_pos,
            final(self).selected == old(self).selected,
            final(self).pending_permission == old(self).pending_permission,
            final(self).permission_choice == old(self).permission_choice,
            final(self).connected == old(self).connected,
            final(self).session_id == old(self).session_id,
            final(self).event_count == old(self).event_count,
    {
        self.input_text = String::new();
        self.input_cursor = 0;
    }

    /// The input text.
    pub fn input_get(&self) -> (r: &str)
        ensures
            r@ == self.input_text@,
    {
        self.input_text.as_str()
    }
}

} // verus!
