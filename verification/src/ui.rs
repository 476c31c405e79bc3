use crate::config::{clamp_position, clamp_position_spec, default_position, max_spec, Position};
use crate::text::{chars_of, decimal_chars, decimal_digits, push_char, string_of};
use vstd::prelude::*;

verus! {

/// How long a dragged window must stay put before its position is saved.
pub const SETTLE_MS: u64 = 500;

/// An error message cut to at most `max_chars` characters: unchanged when
/// it fits, else its first `max_chars - 1` characters followed by `…`
/// (nothing at all when `max_chars` is zero).
pub open spec fn concise_error_spec(message: Seq<char>, max_chars: int) -> Seq<char> {
    if message.len() <= max_chars {
        message
    } else if max_chars == 0 {
        Seq::empty()
    } else {
        message.take(max_chars - 1).push('…')
    }
}

pub fn concise_error(message: &str, max_chars: usize) -> (text: String)
    ensures
        text@ == concise_error_spec(message@, max_chars as int),
        text@.len() <= max_chars || text@ == message@,
{
    let chars = chars_of(message);
    if chars.len() <= max_chars {
        return String::from_str(message);
    }
    let mut text = String::new();
    if max_chars == 0 {
        return text;
    }
    let mut i: usize = 0;
    while i < max_chars - 1
        invariant
            chars@ == message@,
            max_chars < chars@.len(),
            i <= max_chars - 1,
            text@ == message@.take(i as int),
        decreases max_chars - 1 - i,
    {
        push_char(&mut text, chars[i]);
        assert(message@.take(i + 1) =~= message@.take(i as int).push(message@[i as int]));
        i = i + 1;
    }
    push_char(&mut text, '…');
    text
}

/// Watches the window position after a drag and reports it once it has
/// stayed the same for `SETTLE_MS`.
#[derive(Debug)]
pub struct PositionSettleTracker {
    last: Option<Position>,
    changed_at: u64,
    active: bool,
}

impl PositionSettleTracker {
    pub closed spec fn last(&self) -> Option<Position> {
        self.last
    }

    pub closed spec fn changed_at(&self) -> u64 {
        self.changed_at
    }

    /// Whether a position is still waiting to be reported.
    pub closed spec fn active(&self) -> bool {
        self.active
    }

    /// Starts watching from the given position (if known) at time `now_ms`.
    pub fn start(&mut self, position: Option<Position>, now_ms: u64)
        ensures
            final(self).active(),
            final(self).last() == position,
            final(self).changed_at() == now_ms,
    {
        self.last = position;
        self.changed_at = now_ms;
        self.active = true;
    }

    /// Takes in the position at time `now_ms`; gives it back once, when it
    /// has not changed for `SETTLE_MS` since the last change.
    pub fn observe(&mut self, position: Position, now_ms: u64) -> (settled: Option<Position>)
        ensures
            !old(self).active() ==> settled is None && *final(self) == *old(self),
            old(self).active() && old(self).last() != Some(position) ==> {
                &&& settled is None
                &&& final(self).active()
                &&& final(self).last() == Some(position)
                &&& final(self).changed_at() == now_ms
            },
            old(self).active() && old(self).last() == Some(position) ==> {
                &&& final(self).last() == old(self).last()
                &&& final(self).changed_at() == old(self).changed_at()
                &&& if now_ms >= old(self).changed_at() + SETTLE_MS {
                    settled == Some(position) && !final(self).active()
                } else {
                    settled is None && final(self).active()
                }
            },
    {
        if !self.active {
            return None;
        }
        let same = match self.last {
            Some(last) => last.x == position.x && last.y == position.y,
            None => false,
        };
        if !same {
            self.last = Some(position);
            self.changed_at = now_ms;
            return None;
        }
        if now_ms >= self.changed_at && now_ms - self.changed_at >= SETTLE_MS {
            self.active = false;
            Some(position)
        } else {
            None
        }
    }
}

impl Default for PositionSettleTracker {
    fn default() -> (tracker: Self)
        ensures
            !tracker.active(),
            tracker.last() is None,
    {
        Self { last: None, changed_at: 0, active: false }
    }
}

} // verus!

verus! {

/// The size of the compact ball, in logical pixels.
pub const BALL_WIDTH: i32 = 88;
pub const BALL_HEIGHT: i32 = 88;

/// The text in the middle of the ball: the remaining percentage, or `!`
/// when it is unknown.
pub open spec fn ball_label_spec(remaining: Option<u8>) -> Seq<char> {
    match remaining {
        Some(v) => decimal_digits(v as nat).push('%'),
        None => "!"@,
    }
}

pub fn ball_label(remaining: Option<u8>) -> (label: String)
    ensures
        label@ == ball_label_spec(remaining),
{
    match remaining {
        Some(v) => {
            let digits = decimal_chars(v as u64);
            let mut label = string_of(&digits);
            push_char(&mut label, '%');
            label
        },
        None => String::from_str("!"),
    }
}

/// The freshness line of the card: stale data first, then a running
/// refresh, then the minutes since the last update, else a first update is
/// awaited.
pub open spec fn status_text_spec(stale: bool, refreshing: bool, elapsed_secs: Option<u64>) -> Seq<char> {
    if stale {
        "数据可能已过期"@
    } else if refreshing {
        "正在更新…"@
    } else {
        match elapsed_secs {
            Some(secs) => decimal_digits((secs / 60) as nat) + " 分钟前更新"@,
            None => "等待首次更新"@,
        }
    }
}

pub fn status_text(stale: bool, refreshing: bool, elapsed_secs: Option<u64>) -> (text: String)
    ensures
        text@ == status_text_spec(stale, refreshing, elapsed_secs),
{
    if stale {
        String::from_str("数据可能已过期")
    } else if refreshing {
        String::from_str("正在更新…")
    } else {
        match elapsed_secs {
            Some(secs) => {
                let digits = decimal_chars(secs / 60);
                let minutes = string_of(&digits);
                minutes.concat(" 分钟前更新")
            },
            None => String::from_str("等待首次更新"),
        }
    }
}

/// Where the ball first appears: the saved position, or near the
/// upper-right corner of the monitor, kept on the monitor.
pub open spec fn initial_position_spec(saved: Option<Position>, monitor_width: int, monitor_height: int) -> Position {
    let start = match saved {
        Some(p) => p,
        None => Position { x: max_spec(monitor_width - BALL_WIDTH - 24, 0) as i32, y: 24 },
    };
    clamp_position_spec(start, monitor_width, monitor_height, BALL_WIDTH as int, BALL_HEIGHT as int)
}

pub fn initial_position(saved: Option<Position>, monitor_width: i32, monitor_height: i32) -> (p: Position)
    requires
        monitor_width - BALL_WIDTH - 24 >= i32::MIN,
        monitor_height - BALL_HEIGHT >= i32::MIN,
    ensures
        p == initial_position_spec(saved, monitor_width as int, monitor_height as int),
{
    let start = match saved {
        Some(p) => p,
        None => default_position(monitor_width, BALL_WIDTH),
    };
    clamp_position(start, monitor_width, monitor_height, BALL_WIDTH, BALL_HEIGHT)
}

} // verus!
