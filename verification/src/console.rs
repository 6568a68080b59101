//! The console: what the terminal client shows of the polled metrics, and how
//! keys move it between its three panels.

use vstd::prelude::*;

verus! {

/// The panel that has the keyboard.
#[derive(Debug, Clone, Copy, PartialEq, Eq, Structural)]
pub enum Focus {
    /// The list of channels.
    Channels,
    /// The log of the selected channel.
    Logs,
    /// The details of the selected channel.
    Inspect,
}

/// A key, by what it is for.
#[derive(Debug, Clone, Copy, PartialEq, Eq, Structural)]
pub enum Key {
    /// `o`: opens and closes the logs.
    ToggleLogs,
    /// `i`: inspects.
    Inspect,
    /// `h`: closes the panel.
    Close,
    /// `q`: quits.
    Quit,
    /// `p`: pauses and resumes polling.
    Pause,
    /// `k` or the up arrow.
    Up,
    /// `j` or the down arrow.
    Down,
    /// Any other key.
    Other,
}

/// The key that a character stands for.
pub open spec fn key_of_char(c: char) -> Key {
    if c == 'o' {
        Key::ToggleLogs
    } else if c == 'i' {
        Key::Inspect
    } else if c == 'h' {
        Key::Close
    } else if c == 'q' {
        Key::Quit
    } else if c == 'p' {
        Key::Pause
    } else if c == 'k' {
        Key::Up
    } else if c == 'j' {
        Key::Down
    } else {
        Key::Other
    }
}

/// The key that a character stands for.
pub fn key_of(c: char) -> (key: Key)
    ensures
        key == key_of_char(c),
{
    if c == 'o' {
        Key::ToggleLogs
    } else if c == 'i' {
        Key::Inspect
    } else if c == 'h' {
        Key::Close
    } else if c == 'q' {
        Key::Quit
    } else if c == 'p' {
        Key::Pause
    } else if c == 'k' {
        Key::Up
    } else if c == 'j' {
        Key::Down
    } else {
        Key::Other
    }
}

/// Where a key takes the focus. From the channels, `o` opens the logs. From the
/// logs, `o` and `h` lead back to the channels and `i` opens the details. From
/// the details, `o`, `i` and `h` all lead back to the logs. Every other key
/// leaves the focus where it is.
pub open spec fn next_focus(focus: Focus, key: Key) -> Focus {
    match focus {
        Focus::Channels => match key {
            Key::ToggleLogs => Focus::Logs,
            _ => focus,
        },
        Focus::Logs => match key {
            Key::ToggleLogs => Focus::Channels,
            Key::Inspect => Focus::Inspect,
            Key::Close => Focus::Channels,
            _ => focus,
        },
        Focus::Inspect => match key {
            Key::ToggleLogs => Focus::Logs,
            Key::Inspect => Focus::Logs,
            Key::Close => Focus::Logs,
            _ => focus,
        },
    }
}

/// The focus after a run of keys.
pub open spec fn focus_after(focus: Focus, keys: Seq<Key>) -> Focus
    decreases keys.len(),
{
    if keys.len() == 0 {
        focus
    } else {
        focus_after(next_focus(focus, keys[0]), keys.drop_first())
    }
}

/// Where the console stands: the panel in focus, what is selected in it, and
/// whether it polls.
#[derive(Debug, Clone, Copy, PartialEq, Eq, Structural)]
pub struct Console {
    /// The panel that has the keyboard.
    pub focus: Focus,
    /// Whether polling is paused.
    pub paused: bool,
    /// Whether the user asked to quit.
    pub quit: bool,
    /// The channel selected in the list, counted from the top.
    pub selected: usize,
    /// How far the logs are scrolled.
    pub log_scroll: usize,
    /// How far the details are scrolled.
    pub detail_scroll: usize,
}

/// One step up: one less, and zero stays zero.
pub open spec fn step_up(at: usize) -> usize {
    if at > 0 {
        (at - 1) as usize
    } else {
        at
    }
}

/// One step down, staying below `limit`.
pub open spec fn step_down(at: usize, limit: nat) -> usize {
    if at + 1 < limit {
        (at + 1) as usize
    } else {
        at
    }
}

/// What a key makes of the console while `channels` channels are listed. `q` asks
/// to quit and `p` turns the pause on or off, in every panel. The keys that move
/// the focus move it as `next_focus` says. Up and down move the selection in the
/// list of channels, never beyond its ends, and scroll the panel in focus in the
/// logs and in the details.
pub open spec fn after_key(c: Console, key: Key, channels: nat) -> Console {
    match key {
        Key::Quit => Console { quit: true, ..c },
        Key::Pause => Console { paused: !c.paused, ..c },
        Key::Up => match c.focus {
            Focus::Channels => Console { selected: step_up(c.selected), ..c },
            Focus::Logs => Console { log_scroll: step_up(c.log_scroll), ..c },
            Focus::Inspect => Console { detail_scroll: step_up(c.detail_scroll), ..c },
        },
        Key::Down => match c.focus {
            Focus::Channels => Console { selected: step_down(c.selected, channels), ..c },
            Focus::Logs => Console { log_scroll: step_down(c.log_scroll, usize::MAX as nat + 1), ..c },
            Focus::Inspect => Console {
                detail_scroll: step_down(c.detail_scroll, usize::MAX as nat + 1),
                ..c
            },
        },
        _ => Console { focus: next_focus(c.focus, key), ..c },
    }
}

/// One step up.
fn up(at: usize) -> (r: usize)
    ensures
        r == step_up(at),
{
    if at > 0 {
        at - 1
    } else {
        at
    }
}

/// One step down, staying at or below `last`.
fn down(at: usize, last: usize) -> (r: usize)
    ensures
        r == step_down(at, last as nat + 1),
{
    if at < last {
        at + 1
    } else {
        at
    }
}

impl Console {
    /// The console as it starts: the list of channels in focus, its first entry
    /// selected, polling on.
    pub fn new() -> (c: Console)
        ensures
            c == (Console {
                focus: Focus::Channels,
                paused: false,
                quit: false,
                selected: 0,
                log_scroll: 0,
                detail_scroll: 0,
            }),
    {
        Console {
            focus: Focus::Channels,
            paused: false,
            quit: false,
            selected: 0,
            log_scroll: 0,
            detail_scroll: 0,
        }
    }

    /// Takes a key while `channels` channels are listed.
    pub fn on_key(&mut self, key: Key, channels: usize)
        ensures
            *final(self) == after_key(*old(self), key, channels as nat),
    {
        match key {
            Key::Quit => {
                self.quit = true;
            },
            Key::Pause => {
                self.paused = !self.paused;
            },
            Key::Up => match self.focus {
                Focus::Channels => {
                    self.selected = up(self.selected);
                },
                Focus::Logs => {
                    self.log_scroll = up(self.log_scroll);
                },
                Focus::Inspect => {
                    self.detail_scroll = up(self.detail_scroll);
                },
            },
            Key::Down => match self.focus {
                Focus::Channels => {
                    if channels > 0 {
                        self.selected = down(self.selected, channels - 1);
                    }
                },
                Focus::Logs => {
                    self.log_scroll = down(self.log_scroll, usize::MAX);
                },
                Focus::Inspect => {
                    self.detail_scroll = down(self.detail_scroll, usize::MAX);
                },
            },
            Key::ToggleLogs => {
                self.focus = match self.focus {
                    Focus::Channels => Focus::Logs,
                    Focus::Logs => Focus::Channels,
                    Focus::Inspect => Focus::Logs,
                };
            },
            Key::Inspect => {
                self.focus = match self.focus {
                    Focus::Channels => Focus::Channels,
                    Focus::Logs => Focus::Inspect,
                    Focus::Inspect => Focus::Logs,
                };
            },
            Key::Close => {
                self.focus = match self.focus {
                    Focus::Channels => Focus::Channels,
                    Focus::Logs => Focus::Channels,
                    Focus::Inspect => Focus::Logs,
                };
            },
            Key::Other => {},
        }
    }

    /// Brings the selection back into a list that now has `channels` entries.
    pub fn clamp_selection(&mut self, channels: usize)
        ensures
            *final(self) == (Console {
                selected: if old(self).selected < channels {
                    old(self).selected
                } else if channels > 0 {
                    (channels - 1) as usize
                } else {
                    0
                },
                ..*old(self)
            }),
    {
        if self.selected >= channels {
            self.selected = if channels > 0 {
                channels - 1
            } else {
                0
            };
        }
    }
}

/// From the details, each of `i`, `o` and `h` leads to the logs.
pub proof fn lemma_inspect_leads_to_logs(key: Key)
    requires
        key is Inspect || key is ToggleLogs || key is Close,
    ensures
        next_focus(Focus::Inspect, key) == Focus::Logs,
{
}

/// From the channels, `o`, `i`, `h` leads through the logs and the details back
/// to the logs.
pub proof fn lemma_open_inspect_close()
    ensures
        focus_after(Focus::Channels, seq![Key::ToggleLogs]) == Focus::Logs,
        focus_after(Focus::Channels, seq![Key::ToggleLogs, Key::Inspect]) == Focus::Inspect,
        focus_after(Focus::Channels, seq![Key::ToggleLogs, Key::Inspect, Key::Close])
            == Focus::Logs,
{
    let one = seq![Key::ToggleLogs];
    let two = seq![Key::ToggleLogs, Key::Inspect];
    let three = seq![Key::ToggleLogs, Key::Inspect, Key::Close];
    let none = Seq::<Key>::empty();
    assert(one.drop_first() =~= none);
    assert(two.drop_first() =~= seq![Key::Inspect]);
    assert(seq![Key::Inspect].drop_first() =~= none);
    assert(three.drop_first() =~= seq![Key::Inspect, Key::Close]);
    assert(seq![Key::Inspect, Key::Close].drop_first() =~= seq![Key::Close]);
    assert(seq![Key::Close].drop_first() =~= none);
    reveal_with_fuel(focus_after, 4);
}

/// Keys move the selection only within the list: a selection inside the list
/// stays inside it.
pub proof fn lemma_selection_stays_inside(c: Console, key: Key, channels: nat)
    requires
        c.selected < channels,
    ensures
        after_key(c, key, channels).selected < channels,
{
}

/// One hint in the bar of controls: what a key does, and the key.
#[derive(Debug, Clone, Copy)]
pub struct Control {
    /// What the key does.
    pub caption: &'static str,
    /// The key or keys.
    pub keys: &'static str,
}

/// The hints shown in every panel: quit, navigate, toggle logs, pause.
pub open spec fn common_controls() -> Seq<(Seq<char>, Seq<char>)> {
    seq![
        (" Quit "@, "<q> "@),
        (" | Navigate "@, "<\u{2190}\u{2191}\u{2193}\u{2192}/hjkl> "@),
        (" | Toggle Logs "@, "<o> "@),
        (" | Pause "@, "<p> "@),
    ]
}

/// The hints shown while `focus` has the keyboard: the common ones, and in the
/// logs how to inspect, in the details how to close.
pub open spec fn controls_of(focus: Focus) -> Seq<(Seq<char>, Seq<char>)> {
    match focus {
        Focus::Channels => common_controls(),
        Focus::Logs => common_controls().push((" | Inspect "@, "<i> "@)),
        Focus::Inspect => common_controls().push((" | Close "@, "<i/o/h> "@)),
    }
}

/// The text of the hints, one for one.
pub open spec fn control_views(controls: Seq<Control>) -> Seq<(Seq<char>, Seq<char>)> {
    controls.map_values(|c: Control| (c.caption@, c.keys@))
}

/// The hints of the bar of controls while `focus` has the keyboard.
pub fn bottom_bar_controls(focus: Focus) -> (controls: Vec<Control>)
    ensures
        control_views(controls@) == controls_of(focus),
{
    let mut controls: Vec<Control> = Vec::new();
    controls.push(Control { caption: " Quit ", keys: "<q> " });
    controls.push(
        Control { caption: " | Navigate ", keys: "<\u{2190}\u{2191}\u{2193}\u{2192}/hjkl> " },
    );
    controls.push(Control { caption: " | Toggle Logs ", keys: "<o> " });
    controls.push(Control { caption: " | Pause ", keys: "<p> " });
    match focus {
        Focus::Channels => {},
        Focus::Logs => {
            controls.push(Control { caption: " | Inspect ", keys: "<i> " });
        },
        Focus::Inspect => {
            controls.push(Control { caption: " | Close ", keys: "<i/o/h> " });
        },
    }
    assert(control_views(controls@) =~= controls_of(focus));
    controls
}

/// The title of the bar of controls.
pub fn bottom_bar_title() -> (s: &'static str)
    ensures
        s@ == " Controls "@,
{
    " Controls "
}

} // verus!
