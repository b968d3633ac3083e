//! One match: the playfield together with score, combo and back-to-back
//! bookkeeping and the transient line-clear message. The scoring policy is
//! a pure function of what a lock reported.

use vstd::prelude::*;

use crate::handling::HandlingSettings;
use crate::input::InputState;
use crate::line_clear_message::{LineClearMessage, MessageType, SpinType, MESSAGE_DURATION_MS};
use crate::playfield::{grid_clear, tick_post, Playfield, UpdateInfo};
use crate::tetromino::Tetromino;

verus! {

/// The spin classification a lock reported, without the piece kind.
pub open spec fn spin_of(info: UpdateInfo) -> Option<SpinType> {
    match info.spin {
        Some((_, st)) => Some(st),
        None => None,
    }
}

/// The base score table, indexed by spin classification and lines cleared.
pub open spec fn base_points(spin: Option<SpinType>, lines: int) -> int {
    match spin {
        None => (
        if lines == 1 {
            100
        } else if lines == 2 {
            300
        } else if lines == 3 {
            500
        } else if lines == 4 {
            800
        } else {
            0
        }),
        Some(SpinType::Mini) => (
        if lines == 0 {
            100
        } else if lines == 1 {
            200
        } else if lines == 2 {
            400
        } else {
            0
        }),
        Some(SpinType::Proper) => (
        if lines == 0 {
            400
        } else if lines == 1 {
            800
        } else if lines == 2 {
            1200
        } else if lines == 3 {
            1600
        } else {
            0
        }),
    }
}

/// The back-to-back bonus factor: 3 halves of the base from a streak of
/// two, else 2 halves (no bonus).
pub open spec fn b2b_factor(b2b: int) -> int {
    if b2b >= 2 {
        3
    } else {
        2
    }
}

/// The combo count after a lock: a clear extends the run, no clear ends it.
pub open spec fn next_combo(combo: u32, lines: u32) -> u32 {
    if lines == 0 {
        0
    } else {
        crate::spec_sat_inc_u32(combo)
    }
}

/// The back-to-back count after a lock: a tetris or a spin clear extends
/// the streak, any other clear breaks it, and no clear leaves it alone.
pub open spec fn next_b2b(b2b: u32, lines: u32, spin: Option<SpinType>) -> u32 {
    if lines == 0 {
        b2b
    } else if lines == 4 || spin is Some {
        crate::spec_sat_inc_u32(b2b)
    } else {
        0
    }
}

/// The score a lock earns, with the combo and back-to-back counts already
/// updated for it: the combo bonus, plus the base points scaled by the
/// back-to-back factor in halves, plus the all-clear bonus.
pub open spec fn score_delta(
    lines: int,
    spin: Option<SpinType>,
    b2b_after: int,
    combo_after: int,
    all_clear: bool,
) -> int {
    combo_after * 50 + b2b_factor(b2b_after) * base_points(spin, lines) / 2 + (
    if all_clear {
        3500 * b2b_factor(b2b_after) / 2
    } else {
        0
    })
}

/// The message a clear displays: the count's name, overridden by the
/// all-clear.
pub open spec fn message_for(lines: int, all_clear: bool) -> Option<MessageType> {
    if all_clear {
        Some(MessageType::AllClear)
    } else if lines == 1 {
        Some(MessageType::Single)
    } else if lines == 2 {
        Some(MessageType::Double)
    } else if lines == 3 {
        Some(MessageType::Triple)
    } else if lines == 4 {
        Some(MessageType::Tetris)
    } else {
        None
    }
}

/// `a - b`, stopping at zero.
fn sat_sub_u64(a: u64, b: u64) -> (r: u64)
    ensures
        r == (if a >= b {
            a - b
        } else {
            0int
        }),
{
    if a >= b {
        a - b
    } else {
        0
    }
}

/// One match. A snapshot for undo support is a plain clone.
#[derive(Clone)]
pub struct Game {
    pub playfield: Playfield,
    pub combo: u32,
    pub score: u64,
    pub b2b: u32,
    pub message: LineClearMessage,
}

impl Game {
    /// The playfield is in a consistent state.
    pub open spec fn wf(self) -> bool {
        self.playfield.wf()
    }

    /// A fresh match: empty board, zero score, no streaks, no message.
    pub fn new() -> (g: Game)
        ensures
            g.wf(),
            grid_clear(g.playfield.grid_view()),
            !g.playfield.has_lost,
            g.combo == 0,
            g.score == 0,
            g.b2b == 0,
            g.message.message is None,
            g.message.remaining_time == 0,
    {
        Game {
            playfield: Playfield::new(),
            combo: 0,
            score: 0,
            b2b: 0,
            message: LineClearMessage::empty(),
        }
    }

    /// The match is over.
    pub fn has_lost(&self) -> (r: bool)
        ensures
            r == self.playfield.has_lost,
    {
        self.playfield.has_lost()
    }

    /// Apply the scoring policy for one lock report: update the combo and
    /// back-to-back counts, add the earned score (stopping at the top of
    /// the range), and set the message. The playfield itself is untouched.
    pub fn update_score(&mut self, update_info: UpdateInfo)
        requires
            update_info.cleared_lines <= 4,
        ensures
            final(self).playfield == old(self).playfield,
            final(self).combo == next_combo(old(self).combo, update_info.cleared_lines),
            final(self).b2b == next_b2b(
                old(self).b2b,
                update_info.cleared_lines,
                spin_of(update_info),
            ),
            ({
                let d = score_delta(
                    update_info.cleared_lines as int,
                    spin_of(update_info),
                    final(self).b2b as int,
                    final(self).combo as int,
                    update_info.is_all_clear,
                );
                final(self).score == (if old(self).score + d > u64::MAX {
                    u64::MAX as int
                } else {
                    old(self).score + d
                })
            }),
            final(self).message.message == message_for(
                update_info.cleared_lines as int,
                update_info.is_all_clear,
            ),
            final(self).message.remaining_time == MESSAGE_DURATION_MS,
            final(self).message.spin == update_info.spin,
    {
        let lines = update_info.cleared_lines;
        if lines == 0 {
            self.combo = 0;
        } else {
            self.combo = crate::sat_inc_u32(self.combo);
            if lines == 4 || update_info.spin.is_some() {
                self.b2b = crate::sat_inc_u32(self.b2b);
            } else {
                self.b2b = 0;
            }
        }
        let combo_bonus: u64 = (self.combo as u64) * 50;
        let factor: u64 = if self.b2b >= 2 {
            3
        } else {
            2
        };
        let spin_type: Option<SpinType> = match update_info.spin {
            Some((_, st)) => Some(st),
            None => None,
        };
        let base: u64 = match spin_type {
            None => (
            if lines == 1 {
                100
            } else if lines == 2 {
                300
            } else if lines == 3 {
                500
            } else if lines == 4 {
                800
            } else {
                0
            }),
            Some(SpinType::Mini) => (
            if lines == 0 {
                100
            } else if lines == 1 {
                200
            } else if lines == 2 {
                400
            } else {
                0
            }),
            Some(SpinType::Proper) => (
            if lines == 0 {
                400
            } else if lines == 1 {
                800
            } else if lines == 2 {
                1200
            } else if lines == 3 {
                1600
            } else {
                0
            }),
        };
        let mut delta: u64 = combo_bonus + factor * base / 2;
        if update_info.is_all_clear {
            delta = delta + 3500 * factor / 2;
        }
        self.score = crate::sat_add_u64(self.score, delta);
        let message = if update_info.is_all_clear {
            Some(MessageType::AllClear)
        } else if lines == 1 {
            Some(MessageType::Single)
        } else if lines == 2 {
            Some(MessageType::Double)
        } else if lines == 3 {
            Some(MessageType::Triple)
        } else if lines == 4 {
            Some(MessageType::Tetris)
        } else {
            None
        };
        self.message = LineClearMessage::new(message, update_info.spin);
    }

    /// One tick of the match: the message timer runs down by `dt`
    /// milliseconds, the playfield advances through its full tick protocol
    /// (`tick_post`), and a lock feeds the scoring policy exactly. The
    /// result is true if and only if a piece locked this tick. After a
    /// loss the board, score and streaks never change again, whatever is
    /// pressed.
    pub fn update(&mut self, dt: u64, input: &InputState, settings: &HandlingSettings) -> (locked:
        bool)
        requires
            old(self).wf(),
        ensures
            final(self).wf(),
            old(self).playfield.has_lost ==> {
                &&& final(self).playfield == old(self).playfield
                &&& final(self).score == old(self).score
                &&& final(self).combo == old(self).combo
                &&& final(self).b2b == old(self).b2b
                &&& !locked
            },
            !locked ==> {
                &&& final(self).score == old(self).score
                &&& final(self).combo == old(self).combo
                &&& final(self).b2b == old(self).b2b
                &&& final(self).playfield.grid_view() == old(self).playfield.grid_view()
                &&& final(self).message.message == old(self).message.message
                &&& final(self).message.spin == old(self).message.spin
                &&& final(self).message.remaining_time == (
                if old(self).message.remaining_time >= dt {
                    old(self).message.remaining_time - dt
                } else {
                    0int
                })
            },
            locked ==> final(self).message.remaining_time == MESSAGE_DURATION_MS,
            !locked ==> tick_post(
                old(self).playfield,
                final(self).playfield,
                None::<UpdateInfo>,
                *input,
                *settings,
                dt,
            ),
            locked ==> exists|info: UpdateInfo|
                #![trigger tick_post(old(self).playfield, final(self).playfield, Some(info), *input, *settings, dt)]
                {
                    &&& tick_post(
                        old(self).playfield,
                        final(self).playfield,
                        Some(info),
                        *input,
                        *settings,
                        dt,
                    )
                    &&& info.cleared_lines <= 4
                    &&& final(self).combo == next_combo(old(self).combo, info.cleared_lines)
                    &&& final(self).b2b == next_b2b(
                        old(self).b2b,
                        info.cleared_lines,
                        spin_of(info),
                    )
                    &&& ({
                        let d = score_delta(
                            info.cleared_lines as int,
                            spin_of(info),
                            final(self).b2b as int,
                            final(self).combo as int,
                            info.is_all_clear,
                        );
                        final(self).score == (if old(self).score + d > u64::MAX {
                            u64::MAX as int
                        } else {
                            old(self).score + d
                        })
                    })
                    &&& final(self).message.message == message_for(
                        info.cleared_lines as int,
                        info.is_all_clear,
                    )
                    &&& final(self).message.spin == info.spin
                },
    {
        self.message.remaining_time = sat_sub_u64(self.message.remaining_time, dt);
        let result = self.playfield.update(input, settings, dt);
        match result {
            Some(update_info) => {
                self.update_score(update_info);
                proof {
                    assert(tick_post(
                        old(self).playfield,
                        self.playfield,
                        Some(update_info),
                        *input,
                        *settings,
                        dt,
                    ));
                }
                true
            },
            None => false,
        }
    }

    /// Start the match over. The score carries over only when asked to:
    /// whether a restart keeps the score is the caller's policy.
    pub fn reset(&mut self, keep_score: bool)
        ensures
            final(self).wf(),
            grid_clear(final(self).playfield.grid_view()),
            !final(self).playfield.has_lost,
            final(self).combo == 0,
            final(self).b2b == 0,
            final(self).message.message is None,
            final(self).score == (if keep_score {
                old(self).score
            } else {
                0
            }),
    {
        self.playfield = Playfield::new();
        self.combo = 0;
        self.b2b = 0;
        self.message = LineClearMessage::empty();
        if !keep_score {
            self.score = 0;
        }
    }

    /// The current score.
    pub fn score(&self) -> (r: u64)
        ensures
            r == self.score,
    {
        self.score
    }

    /// The current combo run length.
    pub fn combo(&self) -> (r: u32)
        ensures
            r == self.combo,
    {
        self.combo
    }

    /// The current back-to-back streak length.
    pub fn b2b(&self) -> (r: u32)
        ensures
            r == self.b2b,
    {
        self.b2b
    }

    /// The active line-clear message.
    pub fn message(&self) -> (m: LineClearMessage)
        ensures
            m == self.message,
    {
        self.message
    }
}

} // verus!
