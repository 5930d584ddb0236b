//! Decisions of the settings window and the tray menu.
use vstd::prelude::*;
use crate::numbers::{parse_i32, parse_i32_spec, parse_u64, parse_u64_spec, unsigned_part};
use crate::text::{chars_of, same_chars};
use vstd::string::*;
use crate::display::{decimal, lemma_decimal_reads_back};
use crate::timer::{Cmd, Params};

verus! {

/// Whether the window shows the running page (a timer was started) or the
/// settings page.
#[derive(Clone, Copy, Debug, PartialEq)]
pub struct Controls {
    pub active: bool,
}

/// The start command for the "start" button: the interval typed in
/// minutes, read as `u64`, in seconds, with the animation parameters; none
/// when either could not be read.
pub open spec fn start_command_spec<A>(interval_min: Seq<char>, anim: Option<A>) -> Option<Cmd<A>> {
    match (parse_u64_spec(interval_min), anim) {
        (Some(i), Some(a)) => Some(Cmd::Start(Params { interval_s: (i * 60) as u64, anim: a })),
        _ => None,
    }
}

/// Whether reading the interval for the "start" button stays within
/// `u64` when turned into seconds.
pub open spec fn start_fits<A>(interval_min: Seq<char>, anim: Option<A>) -> bool {
    match (parse_u64_spec(interval_min), anim) {
        (Some(i), Some(_)) => i * 60 <= u64::MAX,
        _ => true,
    }
}

impl Controls {
    /// The window as it opens: on the settings page.
    pub fn new() -> (res: Controls)
        ensures
            !res.active,
    {
        Controls { active: false }
    }

    /// The "start" button: with an interval (minutes) that reads as a
    /// number and readable animation parameters, the command to send, and
    /// the window turns to the running page; otherwise nothing happens.
    pub fn click_start<A>(&mut self, interval_min: &str, anim: Option<A>) -> (res: Option<Cmd<A>>)
        requires
            start_fits(interval_min@, anim),
        ensures
            res == start_command_spec(interval_min@, anim),
            final(self).active == (old(self).active || res is Some),
    {
        let i = parse_u64(interval_min);
        match (i, anim) {
            (Some(i), Some(a)) => {
                self.active = true;
                Some(Cmd::Start(Params { interval_s: i * 60, anim: a }))
            },
            _ => None,
        }
    }

    /// The "test the light now" button: with readable animation
    /// parameters, a start command with no waiting, and the window turns to
    /// the running page; otherwise nothing happens.
    pub fn click_test<A>(&mut self, anim: Option<A>) -> (res: Option<Cmd<A>>)
        ensures
            res == match anim {
                Some(a) => Some(Cmd::Start(Params { interval_s: 0, anim: a })),
                None => None::<Cmd<A>>,
            },
            final(self).active == (old(self).active || anim is Some),
    {
        match anim {
            Some(a) => {
                self.active = true;
                Some(Cmd::Start(Params { interval_s: 0, anim: a }))
            },
            None => None,
        }
    }

    /// The "stop and return to settings" button: the stop command, and the
    /// window turns back to the settings page.
    pub fn click_stop<A>(&mut self) -> (res: Cmd<A>)
        ensures
            res == Cmd::<A>::Stop,
            !final(self).active,
    {
        self.active = false;
        Cmd::Stop
    }
}

/// What a tray menu entry does.
#[derive(Clone, Copy, Debug, PartialEq)]
pub enum MenuAction {
    /// Show the settings window.
    Show,
    /// Quit the program.
    Exit,
    /// Switch starting with the system on or off.
    ToggleAutostart,
    /// Nothing (an unknown entry).
    Ignore,
}

/// The action of the tray menu entry with identifier `id`.
pub open spec fn menu_action_spec(id: Seq<char>) -> MenuAction {
    if id == "show"@ {
        MenuAction::Show
    } else if id == "exit"@ {
        MenuAction::Exit
    } else if id == "autostart"@ {
        MenuAction::ToggleAutostart
    } else {
        MenuAction::Ignore
    }
}

/// The action of the tray menu entry with identifier `id`: `show`, `exit`
/// and `autostart` are the menu's entries.
pub fn menu_action(id: &str) -> (res: MenuAction)
    ensures
        res == menu_action_spec(id@),
{
    let cs = chars_of(id);
    if same_chars(&cs, &chars_of("show")) {
        MenuAction::Show
    } else if same_chars(&cs, &chars_of("exit")) {
        MenuAction::Exit
    } else if same_chars(&cs, &chars_of("autostart")) {
        MenuAction::ToggleAutostart
    } else {
        MenuAction::Ignore
    }
}

/// The number of laps shown on the running page: the typed number of laps
/// read as `i32`, or 3 when it does not read.
pub open spec fn shown_laps(laps: Seq<char>) -> i32 {
    match parse_i32_spec(laps) {
        Some(n) => n,
        None => 3,
    }
}

/// `n` in decimal with a leading `'-'` when negative.
pub open spec fn signed_decimal(n: int) -> Seq<char> {
    if n < 0 {
        seq!['-'] + decimal((-n) as nat)
    } else {
        decimal(n as nat)
    }
}

/// The lap counter text of the running page.
pub open spec fn lap_label_spec(current: i32, laps: Seq<char>) -> Seq<char> {
    "第 "@ + signed_decimal(current as int) + "/"@ + signed_decimal(shown_laps(laps) as int)
        + " 圈"@
}

fn push_signed(out: &mut String, n: i32)
    ensures
        final(out)@ == old(out)@ + signed_decimal(n as int),
{
    let mut cs: Vec<char> = Vec::new();
    let m: u64 = if n < 0 {
        cs.push('-');
        (0 - n as i64) as u64
    } else {
        n as u64
    };
    crate::display::push_decimal(&mut cs, m);
    proof {
        if n < 0 {
            assert(cs@ =~= signed_decimal(n as int));
        } else {
            assert(cs@ =~= signed_decimal(n as int));
        }
    }
    let s = crate::text::string_from_chars(&cs);
    out.append(s.as_str());
}

/// The lap counter of the running page, `第 current/laps 圈`, where the
/// number of laps is the typed text read as `i32`, or 3 when it does not
/// read.
pub fn lap_label(current: i32, laps: &str) -> (res: String)
    ensures
        res@ == lap_label_spec(current, laps@),
{
    let n: i32 = match parse_i32(laps) {
        Some(n) => n,
        None => 3,
    };
    let mut out = String::from_str("第 ");
    push_signed(&mut out, current);
    out.append("/");
    push_signed(&mut out, n);
    out.append(" 圈");
    out
}

/// The interval box reads back any number written in decimal, as it is
/// written or with a leading `'+'`.
pub proof fn lemma_interval_reads_decimal(m: u64)
    ensures
        parse_u64_spec(decimal(m as nat)) == Some(m),
        parse_u64_spec(seq!['+'] + decimal(m as nat)) == Some(m),
{
    lemma_decimal_reads_back(m as nat);
    let d = decimal(m as nat);
    assert(d[0] != '+') by {
        assert(crate::numbers::is_digit(d[0]));
    }
    assert((seq!['+'] + d).drop_first() =~= d);
    assert(unsigned_part(d, false) == Some(m as nat));
    assert(unsigned_part(seq!['+'] + d, false) == Some(m as nat));
}

/// The start button turns the interval typed in minutes into a start
/// command of exactly that many minutes in seconds, whatever the number,
/// with the animation parameters unchanged; an interval typed as the
/// decimal digits of `m` starts `m * 60` seconds.
pub proof fn lemma_start_interval_in_seconds<A>(text: Seq<char>, m: u64, a: A)
    requires
        m * 60 <= u64::MAX,
    ensures
        parse_u64_spec(text) == Some(m) ==> start_command_spec(text, Some(a)) == Some(
            Cmd::Start(Params { interval_s: (m * 60) as u64, anim: a }),
        ),
        start_command_spec(decimal(m as nat), Some(a)) == Some(
            Cmd::Start(Params { interval_s: (m * 60) as u64, anim: a }),
        ),
        start_fits(decimal(m as nat), Some(a)),
{
    lemma_interval_reads_decimal(m);
}

} // verus!
