//! Window view over the event stream: size, focus, cursor and scale, kept
//! current from the window events addressed to one window.

use vstd::prelude::*;

use crate::event::{Event, WindowEvent};

verus! {

/// The aspect ratio of a `width` by `height` surface, in thousandths; zero
/// when the height is zero.
pub open spec fn spec_aspect(width: u32, height: u32) -> u64 {
    if height == 0 {
        0
    } else {
        (((width as int) * 1000) / (height as int)) as u64
    }
}

/// Plain-value snapshot of one window's state. Fractional quantities are in
/// thousandths: cursor position in milli-pixels, scale factor and aspect
/// ratio in milli-units.
#[derive(Debug, Clone, Copy, PartialEq, Eq, Structural)]
pub struct WindowState {
    /// Window width in pixels.
    pub width: u32,
    /// Window height in pixels.
    pub height: u32,
    /// Window aspect ratio, in thousandths; zero while the height is zero.
    pub aspect: u64,
    /// Is the window focused?
    pub focused: bool,
    /// Is the cursor inside the window?
    pub cursor_in: bool,
    /// Cursor x position in milli-pixels.
    pub cursor_x: i64,
    /// Cursor y position in milli-pixels.
    pub cursor_y: i64,
    /// Window scaling factor, in thousandths.
    pub scale_factor: u64,
    /// Identifier of the window this state was initialized for.
    pub id: u64,
}

/// The state tracks the window named by `id` and keeps `aspect` derived from
/// the current size.
pub open spec fn window_wf(w: WindowState) -> bool {
    w.aspect == spec_aspect(w.width, w.height)
}

impl WindowState {
    /// A snapshot for the window `id`, read off the window itself: its
    /// initial size and scale factor, with focus and cursor state unknown
    /// and so left at their defaults.
    pub fn new(id: u64, width: u32, height: u32, scale_factor: u64) -> (r: Self)
        ensures
            window_wf(r),
            r.id == id,
            r.width == width,
            r.height == height,
            r.scale_factor == scale_factor,
            !r.focused,
            !r.cursor_in,
            r.cursor_x == 0,
            r.cursor_y == 0,
    {
        WindowState {
            width,
            height,
            aspect: Self::aspect(width, height),
            focused: false,
            cursor_in: false,
            cursor_x: 0,
            cursor_y: 0,
            scale_factor,
            id,
        }
    }

    /// Consumes one event. Events addressed to another window, and events
    /// that are not window events, change nothing; the rest update the
    /// matching field.
    pub fn event(&mut self, event: &Event)
        requires
            window_wf(*old(self)),
        ensures
            window_wf(*final(self)),
            final(self).id == old(self).id,
            final(self).scale_factor == old(self).scale_factor,
            match *event {
                Event::WindowEvent { window_id, event: we } => {
                    if window_id != old(self).id {
                        *final(self) == *old(self)
                    } else {
                        match we {
                            WindowEvent::CursorEntered => *final(self) == (WindowState {
                                cursor_in: true,
                                ..*old(self)
                            }),
                            WindowEvent::CursorLeft => *final(self) == (WindowState {
                                cursor_in: false,
                                ..*old(self)
                            }),
                            WindowEvent::CursorMoved { x, y } => *final(self) == (WindowState {
                                cursor_x: x,
                                cursor_y: y,
                                ..*old(self)
                            }),
                            WindowEvent::Resized { width, height } => *final(self) == (WindowState {
                                width,
                                height,
                                aspect: spec_aspect(width, height),
                                ..*old(self)
                            }),
                            WindowEvent::Focused(focused) => *final(self) == (WindowState {
                                focused,
                                ..*old(self)
                            }),
                            _ => *final(self) == *old(self),
                        }
                    }
                },
                _ => *final(self) == *old(self),
            },
    {
        if !self.filter(event) {
            return ;
        }
        match event {
            Event::WindowEvent { event: WindowEvent::CursorEntered, .. } => {
                self.cursor_in = true;
            }
            Event::WindowEvent { event: WindowEvent::CursorLeft, .. } => {
                self.cursor_in = false;
            }
            Event::WindowEvent { event: WindowEvent::CursorMoved { x, y }, .. } => {
                self.cursor_x = *x;
                self.cursor_y = *y;
            }
            Event::WindowEvent { event: WindowEvent::Resized { width, height }, .. } => {
                self.width = *width;
                self.height = *height;
                self.aspect = Self::aspect(*width, *height);
            }
            Event::WindowEvent { event: WindowEvent::Focused(focused), .. } => {
                self.focused = *focused;
            }
            _ => {}
        }
    }

    /// The aspect ratio of a `width` by `height` surface, in thousandths.
    fn aspect(width: u32, height: u32) -> (r: u64)
        ensures
            r == spec_aspect(width, height),
    {
        if height == 0 {
            0
        } else {
            ((width as u64) * 1000 / (height as u64))
        }
    }

    /// Is this a window event addressed to the window this state tracks?
    fn filter(&self, event: &Event) -> (r: bool)
        ensures
            r == match *event {
                Event::WindowEvent { window_id, .. } => window_id == self.id,
                _ => false,
            },
    {
        if let Event::WindowEvent { window_id, .. } = event {
            *window_id == self.id
        } else {
            false
        }
    }
}

} // verus!
