//! The two reminders, and the lines written to the terminal for them.
use vstd::prelude::*;

verus! {

/// Which of the two reminders a timer stands for.
#[derive(Clone, Copy, Debug, PartialEq, Eq, Structural)]
pub enum Reminder {
    Eyes,
    Water,
}

impl Reminder {
    pub open spec fn spec_title(self) -> Seq<char> {
        match self {
            Reminder::Eyes => "Eye break 👀"@,
            Reminder::Water => "Hydration 💧"@,
        }
    }

    pub open spec fn spec_body(self) -> Seq<char> {
        match self {
            Reminder::Eyes => "Look away for ~20s. 20-20-20 rule!"@,
            Reminder::Water => "Drink a few sips of water."@,
        }
    }

    /// The name of the command-line option that sets this reminder's interval.
    pub open spec fn spec_option(self) -> Seq<char> {
        match self {
            Reminder::Eyes => "eyes"@,
            Reminder::Water => "water"@,
        }
    }

    pub fn title(self) -> (r: &'static str)
        ensures
            r@ == self.spec_title(),
    {
        match self {
            Reminder::Eyes => "Eye break 👀",
            Reminder::Water => "Hydration 💧",
        }
    }

    pub fn body(self) -> (r: &'static str)
        ensures
            r@ == self.spec_body(),
    {
        match self {
            Reminder::Eyes => "Look away for ~20s. 20-20-20 rule!",
            Reminder::Water => "Drink a few sips of water.",
        }
    }

    pub fn option(self) -> (r: &'static str)
        ensures
            r@ == self.spec_option(),
    {
        match self {
            Reminder::Eyes => "eyes",
            Reminder::Water => "water",
        }
    }
}

/// A local time of day, to the second.
#[derive(Clone, Copy, Debug, PartialEq, Eq, Structural)]
pub struct ClockTime {
    pub hour: u8,
    pub minute: u8,
    pub second: u8,
}

impl ClockTime {
    pub open spec fn wf(self) -> bool {
        self.hour < 24 && self.minute < 60 && self.second < 60
    }

    /// A time of day, or `None` when a component is out of range.
    pub fn new(hour: u8, minute: u8, second: u8) -> (r: Option<ClockTime>)
        ensures
            r is Some <==> hour < 24 && minute < 60 && second < 60,
            r matches Some(t) ==> t.wf() && t.hour == hour && t.minute == minute
                && t.second == second,
    {
        if hour < 24 && minute < 60 && second < 60 {
            Some(ClockTime { hour, minute, second })
        } else {
            None
        }
    }
}

/// The decimal digit character for a value below ten.
pub open spec fn digit_char(d: nat) -> char {
    if d == 0 { '0' }
    else if d == 1 { '1' }
    else if d == 2 { '2' }
    else if d == 3 { '3' }
    else if d == 4 { '4' }
    else if d == 5 { '5' }
    else if d == 6 { '6' }
    else if d == 7 { '7' }
    else if d == 8 { '8' }
    else { '9' }
}

/// A value below one hundred as two decimal digits, with a leading zero.
pub open spec fn two_digits(n: nat) -> Seq<char> {
    seq![digit_char(n / 10), digit_char(n % 10)]
}

/// `HH:MM:SS`.
pub open spec fn clock_text(t: ClockTime) -> Seq<char> {
    two_digits(t.hour as nat) + ":"@ + two_digits(t.minute as nat) + ":"@ + two_digits(
        t.second as nat,
    )
}

/// `[HH:MM:SS] <title> — <body>`.
pub open spec fn spec_reminder_line(r: Reminder, t: ClockTime) -> Seq<char> {
    "["@ + clock_text(t) + "] "@ + r.spec_title() + " — "@ + r.spec_body()
}

fn digit_text(d: u8) -> (r: &'static str)
    requires
        d < 10,
    ensures
        r@ == seq![digit_char(d as nat)],
{
    let r = if d == 0 { "0" }
    else if d == 1 { "1" }
    else if d == 2 { "2" }
    else if d == 3 { "3" }
    else if d == 4 { "4" }
    else if d == 5 { "5" }
    else if d == 6 { "6" }
    else if d == 7 { "7" }
    else if d == 8 { "8" }
    else { "9" };
    proof {
        reveal_strlit("0");
        reveal_strlit("1");
        reveal_strlit("2");
        reveal_strlit("3");
        reveal_strlit("4");
        reveal_strlit("5");
        reveal_strlit("6");
        reveal_strlit("7");
        reveal_strlit("8");
        reveal_strlit("9");
    }
    assert(r@ =~= seq![digit_char(d as nat)]);
    r
}

fn append_two_digits(out: &mut String, n: u8)
    requires
        n < 100,
    ensures
        final(out)@ == old(out)@ + two_digits(n as nat),
{
    out.append(digit_text(n / 10));
    out.append(digit_text(n % 10));
    assert(final(out)@ =~= old(out)@ + two_digits(n as nat));
}

/// The terminal line written when a reminder fires at the given time of day.
pub fn reminder_line(r: Reminder, t: ClockTime) -> (line: String)
    requires
        t.wf(),
    ensures
        line@ == spec_reminder_line(r, t),
{
    let mut line = String::from_str("[");
    append_two_digits(&mut line, t.hour);
    line.append(":");
    append_two_digits(&mut line, t.minute);
    line.append(":");
    append_two_digits(&mut line, t.second);
    line.append("] ");
    line.append(r.title());
    line.append(" — ");
    line.append(r.body());
    assert(line@ =~= spec_reminder_line(r, t));
    line
}

/// The warning written when the desktop notification service (named by
/// `service`) could not show a reminder; `detail` is what the service reported.
pub fn delivery_warning(service: &str, detail: &str) -> (w: String)
    ensures
        w@ == "("@ + service@ + " notification failed: "@ + detail@ + ")"@,
{
    let mut w = String::from_str("(");
    w.append(service);
    w.append(" notification failed: ");
    w.append(detail);
    w.append(")");
    w
}

} // verus!
