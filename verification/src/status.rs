//! The one-line status shown under the board, and the decimal numbers it
//! is written with.
use vstd::prelude::*;
use vstd::string::StringExecFns;

use crate::engine::Game;
use crate::game::GamePhase;

verus! {

/// The decimal digit `d`.
pub open spec fn digit_char(d: int) -> char {
    (48 + d) as char
}

/// `n` written in decimal, without leading zeros.
pub open spec fn decimal_text(n: nat) -> Seq<char>
    decreases n,
{
    if n < 10 {
        seq![digit_char(n as int)]
    } else {
        decimal_text(n / 10) + seq![digit_char((n % 10) as int)]
    }
}

/// `n` written in decimal, with a minus sign when it is negative.
pub open spec fn signed_text(n: int) -> Seq<char> {
    if n < 0 {
        seq!['-'] + decimal_text((-n) as nat)
    } else {
        decimal_text(n as nat)
    }
}

fn digit_str(d: u32) -> (text: &'static str)
    requires
        d < 10,
    ensures
        text@ == seq![digit_char(d as int)],
{
    match d {
        0 => {
            proof {
                reveal_strlit("0");
            }
            "0"
        },
        1 => {
            proof {
                reveal_strlit("1");
            }
            "1"
        },
        2 => {
            proof {
                reveal_strlit("2");
            }
            "2"
        },
        3 => {
            proof {
                reveal_strlit("3");
            }
            "3"
        },
        4 => {
            proof {
                reveal_strlit("4");
            }
            "4"
        },
        5 => {
            proof {
                reveal_strlit("5");
            }
            "5"
        },
        6 => {
            proof {
                reveal_strlit("6");
            }
            "6"
        },
        7 => {
            proof {
                reveal_strlit("7");
            }
            "7"
        },
        8 => {
            proof {
                reveal_strlit("8");
            }
            "8"
        },
        _ => {
            proof {
                reveal_strlit("9");
            }
            "9"
        },
    }
}

/// Writes `n` in decimal.
pub fn decimal_string(n: u64) -> (text: String)
    ensures
        text@ == decimal_text(n as nat),
    decreases n,
{
    if n < 10 {
        String::from_str(digit_str(n as u32))
    } else {
        let mut text = decimal_string(n / 10);
        text.append(digit_str((n % 10) as u32));
        text
    }
}

/// Writes `n` in decimal, with a minus sign when it is negative.
pub fn signed_string(n: i32) -> (text: String)
    ensures
        text@ == signed_text(n as int),
{
    if n < 0 {
        proof {
            reveal_strlit("-");
        }
        let mut text = String::from_str("-");
        let magnitude: i64 = 0 - (n as i64);
        let digits = decimal_string(magnitude as u64);
        text.append(digits.as_str());
        text
    } else {
        decimal_string(n as u64)
    }
}

impl Game {
    /// The most recent log line, or nothing when the log is empty.
    pub open spec fn latest_line(self) -> Seq<char> {
        if self.log@.len() == 0 {
            Seq::empty()
        } else {
            self.log@.last()@
        }
    }

    /// The status line for a figure taking a turn: the quest, the figure,
    /// its Body Points out of its printed Body, the movement left, and the
    /// latest news.
    pub open spec fn figure_status(self, label: Seq<char>, id: crate::game::UnitId) -> Seq<char> {
        let unit = self.spec_unit(id)->Some_0;
        self.title@ + " — "@ + label + unit.name@ + " | Body "@ + signed_text(unit.body as int)
            + "/"@ + decimal_text(unit.stats.body as nat) + " | Move "@ + decimal_text(
            self.hero_turn.movement_left as nat,
        ) + " | "@ + self.latest_line()
    }

    /// The status line under the board.
    pub open spec fn spec_status_line(self) -> Seq<char> {
        match self.phase {
            GamePhase::HeroTurn { .. } => self.figure_status(
                Seq::empty(),
                self.spec_active_hero_id()->Some_0,
            ),
            GamePhase::AllyTurn { ally, .. } => self.figure_status("Escort "@, ally),
            GamePhase::ZargonTurn => self.title@ + " — Computer game master | "@
                + self.latest_line(),
            GamePhase::Won => self.title@ + " — Quest complete! | "@ + self.latest_line(),
            GamePhase::Retreated => self.title@ + " — Quest ended without completion | "@
                + self.latest_line(),
            GamePhase::Lost => self.title@ + " — The heroes have fallen | "@ + self.latest_line(),
        }
    }

    fn figure_status_line(&self, label: &str, id: crate::game::UnitId) -> (line: String)
        requires
            self.wf(),
            self.spec_unit(id) is Some,
        ensures
            line@ == self.figure_status(label@, id),
    {
        let unit = match self.unit(id) {
            Some(unit) => unit,
            None => return String::new(),
        };
        let mut line = self.title.clone();
        line.append(" — ");
        line.append(label);
        line.append(unit.name.as_str());
        line.append(" | Body ");
        let body = signed_string(unit.body as i32);
        line.append(body.as_str());
        line.append("/");
        let printed = decimal_string(unit.stats.body as u64);
        line.append(printed.as_str());
        line.append(" | Move ");
        let movement = decimal_string(self.hero_turn.movement_left as u64);
        line.append(movement.as_str());
        line.append(" | ");
        line.append(self.latest_log_line());
        line
    }

    fn latest_log_line(&self) -> (line: &str)
        ensures
            line@ == self.latest_line(),
    {
        let count = self.log.len();
        if count == 0 {
            proof {
                reveal_strlit("");
            }
            ""
        } else {
            self.log[count - 1].as_str()
        }
    }

    /// The quest, whose turn it is and how that figure stands, and the
    /// latest news, for the status bar.
    pub fn status_line(&self) -> (line: String)
        requires
            self.wf(),
            self.phase is HeroTurn ==> self.spec_active_hero() is Some,
            self.phase matches GamePhase::AllyTurn { ally, .. } ==> self.spec_unit(ally) is Some,
        ensures
            line@ == self.spec_status_line(),
    {
        match self.phase {
            GamePhase::HeroTurn { order_index } => {
                proof {
                    reveal_strlit("");
                }
                let id = self.hero_order[order_index];
                self.figure_status_line("", id)
            },
            GamePhase::AllyTurn { ally, .. } => self.figure_status_line("Escort ", ally),
            GamePhase::ZargonTurn => {
                let mut line = self.title.clone();
                line.append(" — Computer game master | ");
                line.append(self.latest_log_line());
                line
            },
            GamePhase::Won => {
                let mut line = self.title.clone();
                line.append(" — Quest complete! | ");
                line.append(self.latest_log_line());
                line
            },
            GamePhase::Retreated => {
                let mut line = self.title.clone();
                line.append(" — Quest ended without completion | ");
                line.append(self.latest_log_line());
                line
            },
            GamePhase::Lost => {
                let mut line = self.title.clone();
                line.append(" — The heroes have fallen | ");
                line.append(self.latest_log_line());
                line
            },
        }
    }
}

} // verus!
