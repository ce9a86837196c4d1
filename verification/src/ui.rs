//! View state of the event-list display: scroll position, selection, and
//! the pending-permission prompt.  Rendering itself is the embedding
//! application's concern; this state is what it draws from.

use vstd::prelude::*;

verus! {

/// Display width in pixels.
pub const DISPLAY_WIDTH: usize = 336;

/// Display height in pixels.
pub const DISPLAY_HEIGHT: usize = 536;

/// Characters per line of the monospace font.
pub const CHARS_PER_LINE: usize = 42;

/// Lines visible in the event list.
pub const VISIBLE_LINES: usize = 28;

/// Current view mode.
#[derive(Clone, Copy, Debug, PartialEq, Eq, Structural)]
pub enum ViewMode {
    /// Event list view.
    List,
    /// Event detail view.
    Detail,
    /// Permission dialog view.
    Permission,
}

/// View state of the list display.
pub struct UiState {
    /// Current view mode.
    pub view: ViewMode,
    /// Index of the first visible event.
    pub scroll_pos: usize,
    /// Index of the selected event.
    pub selected: usize,
    /// Pending permission request identifier, if any.
    pub pending_permission: Option<String>,
    /// Permission choice: true to allow, false to deny.
    pub permission_choice: bool,
    /// Connection status.
    pub connected: bool,
    /// Current session identifier.
    pub session_id: String,
    /// Event count for display.
    pub event_count: usize,
}

impl UiState {
    /// The initial state: list view, nothing selected or pending.
    pub fn new() -> (r: Self)
        ensures
            r.view == ViewMode::List,
            r.scroll_pos == 0,
            r.selected == 0,
            r.pending_permission is None,
            r.permission_choice,
            !r.connected,
            r.session_id@ == Seq::<char>::empty(),
            r.event_count == 0,
    {
        UiState {
            view: ViewMode::List,
            scroll_pos: 0,
            selected: 0,
            pending_permission: None,
            permission_choice: true,  // default to allow
            connected: false,
            session_id: String::new(),
            event_count: 0,
        }
    }

    /// Move the selection one event up (older), pulling the window along
    /// when the selection leaves it.
    pub fn scroll_up(&mut self)
        ensures
            old(self).selected > 0 ==> *final(self) == (UiState {
                selected: (old(self).selected - 1) as usize,
                scroll_pos: if old(self).selected - 1 < old(self).scroll_pos {
                    (old(self).selected - 1) as usize
                } else {
                    old(self).scroll_pos
                },
                ..*old(self)
            }),
            old(self).selected == 0 ==> *final(self) == *old(self),
    {
        if self.selected > 0 {
            self.selected = self.selected - 1;
            if self.selected < self.scroll_pos {
                self.scroll_pos = self.selected;
            }
        }
    }

    /// Move the selection one event down (newer) within the queue,
    /// pushing the window along when the selection leaves it.
    pub fn scroll_down(&mut self, queue_len: usize)
        ensures
            queue_len > 0 && old(self).selected < queue_len - 1 ==> *final(self) == (UiState {
                selected: (old(self).selected + 1) as usize,
                scroll_pos: if old(self).selected + 1 >= old(self).scroll_pos + VISIBLE_LINES {
                    (old(self).selected + 1 - (VISIBLE_LINES - 1)) as usize
                } else {
                    old(self).scroll_pos
                },
                ..*old(self)
            }),
            !(queue_len > 0 && old(self).selected < queue_len - 1) ==> *final(self) == *old(self),
    {
        if queue_len > 0 && self.selected < queue_len - 1 {
            self.selected = self.selected + 1;
            if self.selected >= self.scroll_pos && self.selected - self.scroll_pos
                >= VISIBLE_LINES {
                self.scroll_pos = self.selected - (VISIBLE_LINES - 1);
            }
        }
    }

    /// Select the newest event and scroll so that it is visible.
    pub fn auto_scroll(&mut self, queue_len: usize)
        ensures
            queue_len > 0 ==> *final(self) == (UiState {
                event_count: queue_len,
                selected: (queue_len - 1) as usize,
                scroll_pos: if queue_len > VISIBLE_LINES {
                    (queue_len - VISIBLE_LINES) as usize
                } else {
                    0
                },
                ..*old(self)
            }),
            queue_len == 0 ==> *final(self) == (UiState { event_count: queue_len, ..*old(self) }),
    {
        self.event_count = queue_len;
        if queue_len > 0 {
            self.selected = queue_len - 1;
            if queue_len > VISIBLE_LINES {
                self.scroll_pos = queue_len - VISIBLE_LINES;
            } else {
                self.scroll_pos = 0;
            }
        }
    }

    /// Record a pending permission request, defaulting the choice to
    /// allow.
    pub fn set_pending_permission(&mut self, request_id: &str)
        ensures
            final(self).pending_permission matches Some(s) && s@ == request_id@,
            final(self).permission_choice,
            final(self).view == old(self).view,
            final(self).scroll_pos == old(self).scroll_pos,
            final(self).selected == old(self).selected,
            final(self).connected == old(self).connected,
            final(self).session_id == old(self).session_id,
            final(self).event_count == old(self).event_count,
    {
        self.pending_permission = Some(request_id.to_owned());
        self.permission_choice = true;  // default to allow
    }

    /// Clear the pending permission request.
    pub fn clear_pending_permission(&mut self)
        ensures
            *final(self) == (UiState { pending_permission: None, ..*old(self) }),
    {
        self.pending_permission = None;
    }

    /// Flip the permission choice between allow and deny.
    pub fn toggle_permission_choice(&mut self)
        ensures
            *final(self) == (UiState {
                permission_choice: !old(self).permission_choice,
                ..*old(self)
            }),
    {
        self.permission_choice = !self.permission_choice;
    }

    /// Whether a permission request is pending.
    pub fn has_pending_permission(&self) -> (r: bool)
        ensures
            r == (self.pending_permission is Some),
    {
        self.pending_permission.is_some()
    }
}

} // verus!
